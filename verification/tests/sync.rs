use blocksync::data::BlockHash;
use blocksync::data::BlockHeader;
use blocksync::data::Receipt;
use blocksync::data::Transaction;
use blocksync::data::TransactionHash;
use blocksync::data::TransactionVariant;
use blocksync::data::Event;
use blocksync::data::StateUpdate;
use blocksync::felt::Felt;
use blocksync::handlers::MAX_BLOCKS_COUNT;
use blocksync::handlers::SyncRequestKind;
use blocksync::handlers::get_headers;
use blocksync::handlers::get_transactions;
use blocksync::handlers::get_events;
use blocksync::handlers::iterate;
use blocksync::store::BlockRecord;
use blocksync::store::StorageView;
use blocksync::wire::BlockNumberOrHash;
use blocksync::wire::Direction;
use blocksync::wire::Fin;
use blocksync::wire::Frame;
use blocksync::wire::FrameBody;
use blocksync::wire::Iteration;
use blocksync::wire::Step;

fn block(n: u64) -> BlockRecord {
    let tx = Transaction {
        hash: TransactionHash(Felt::from_u64(7000 + n)),
        variant: TransactionVariant::InvokeV1,
    };
    let receipt = Receipt {
        transaction_hash: tx.hash,
        actual_fee: None,
        events: vec![Event {
            from_address: Felt::from_u64(5000 + n),
            keys: vec![Felt::from_u64(1)],
            data: vec![Felt::from_u64(2), Felt::from_u64(3)],
        }],
    };
    BlockRecord {
        header: BlockHeader {
            number: n,
            hash: BlockHash(Felt::from_u64(1000 + n)),
            parent_hash: BlockHash(Felt::from_u64(999 + n)),
            timestamp: n,
            eth_l1_gas_price: 1,
            starknet_version: 13,
        },
        signature: None,
        state_update: Some(StateUpdate {
            block_hash: BlockHash(Felt::from_u64(1000 + n)),
            declared_cairo_classes: vec![],
            declared_sierra_classes: vec![],
        }),
        transaction_data: Some(vec![(tx, receipt)]),
    }
}

fn store_with_blocks(count: u64) -> StorageView {
    StorageView {
        blocks: (0..count).map(block).collect(),
        class_definitions: vec![],
        casm_definitions: vec![],
    }
}

fn headers_request(start: u64, direction: Direction, step: u64, limit: u64) -> Iteration {
    Iteration {
        start: BlockNumberOrHash::Number(start),
        direction,
        limit,
        step: Step::new(step).unwrap(),
    }
}

fn is_header_of(frame: &Frame, n: u64) -> bool {
    match &frame.body {
        FrameBody::Header(h) => h.number == n,
        _ => false,
    }
}

fn is_block_fin_ok(frame: &Frame) -> bool {
    frame.id.is_some() && matches!(frame.body, FrameBody::Fin(Fin::Success))
}

fn is_terminal(frame: &Frame, fin: Fin) -> bool {
    frame.id.is_none()
        && match frame.body {
            FrameBody::Fin(f) => f == fin,
            _ => false,
        }
}

#[test]
fn headers_forward_within_range() {
    // Blocks 0..=10; ask for 3 headers from block 5 walking forward.
    let store = store_with_blocks(11);
    let frames = get_headers(&store, headers_request(5, Direction::Forward, 1, 3)).unwrap();
    assert_eq!(frames.len(), 6);
    assert!(is_header_of(&frames[0], 5));
    assert!(is_block_fin_ok(&frames[1]));
    assert!(is_header_of(&frames[2], 6));
    assert!(is_block_fin_ok(&frames[3]));
    assert!(is_header_of(&frames[4], 7));
    assert!(is_block_fin_ok(&frames[5]));
}

#[test]
fn headers_forward_off_the_end() {
    // Blocks 0..=10; asking for 5 headers from block 9 walks off the end
    // after two payloads and closes with unknown.
    let store = store_with_blocks(11);
    let frames = get_headers(&store, headers_request(9, Direction::Forward, 1, 5)).unwrap();
    assert_eq!(frames.len(), 5);
    assert!(is_header_of(&frames[0], 9));
    assert!(is_block_fin_ok(&frames[1]));
    assert!(is_header_of(&frames[2], 10));
    assert!(is_block_fin_ok(&frames[3]));
    assert!(is_terminal(&frames[4], Fin::Unknown));
}

#[test]
fn headers_backward_underflow() {
    // Walking backward from block 2, the fourth step would pass zero.
    let store = store_with_blocks(11);
    let request = headers_request(2, Direction::Backward, 1, 10);
    let frames = iterate(&store, request, SyncRequestKind::Headers, 10).unwrap();
    assert_eq!(frames.len(), 7);
    assert!(is_header_of(&frames[0], 2));
    assert!(is_header_of(&frames[2], 1));
    assert!(is_header_of(&frames[4], 0));
    assert!(is_block_fin_ok(&frames[5]));
    assert!(is_terminal(&frames[6], Fin::Unknown));
}

#[test]
fn transactions_clipped_at_ceiling() {
    // 500 blocks, limit 1000: the response is clipped at the ceiling of
    // 100 payload groups and closes with too-much.
    let store = store_with_blocks(500);
    let request = Iteration {
        start: BlockNumberOrHash::Number(100),
        direction: Direction::Forward,
        limit: 1000,
        step: Step::new(1).unwrap(),
    };
    let frames = get_transactions(&store, request).unwrap();
    assert_eq!(frames.len(), 2 * MAX_BLOCKS_COUNT as usize + 1);
    let payloads = frames
        .iter()
        .filter(|f| matches!(f.body, FrameBody::Transactions(_)))
        .count();
    assert_eq!(payloads, MAX_BLOCKS_COUNT as usize);
    let ok_fins = frames
        .iter()
        .filter(|f| matches!(f.body, FrameBody::Fin(Fin::Success)))
        .count();
    assert_eq!(ok_fins, MAX_BLOCKS_COUNT as usize);
    assert!(is_terminal(frames.last().unwrap(), Fin::TooMuch));
}

#[test]
fn empty_request_yields_single_ok() {
    let store = store_with_blocks(11);
    let frames = get_headers(&store, headers_request(5, Direction::Forward, 1, 0)).unwrap();
    assert_eq!(frames.len(), 1);
    assert!(is_terminal(&frames[0], Fin::Success));
}

#[test]
fn unknown_start_hash_yields_single_unknown() {
    let store = store_with_blocks(11);
    let request = Iteration {
        start: BlockNumberOrHash::Hash(blocksync::wire::Hash(Felt::from_u64(0xdead))),
        direction: Direction::Forward,
        limit: 3,
        step: Step::new(1).unwrap(),
    };
    let frames = get_headers(&store, request).unwrap();
    assert_eq!(frames.len(), 1);
    assert!(is_terminal(&frames[0], Fin::Unknown));
}

#[test]
fn start_by_hash_resolves() {
    let store = store_with_blocks(11);
    let request = Iteration {
        start: BlockNumberOrHash::Hash(blocksync::wire::Hash(Felt::from_u64(1004))),
        direction: Direction::Forward,
        limit: 1,
        step: Step::new(1).unwrap(),
    };
    let frames = get_headers(&store, request).unwrap();
    assert_eq!(frames.len(), 2);
    assert!(is_header_of(&frames[0], 4));
    assert!(is_block_fin_ok(&frames[1]));
}

#[test]
fn events_flattened_per_receipt() {
    let store = store_with_blocks(11);
    let request = headers_request(3, Direction::Forward, 1, 1);
    let frames = get_events(&store, request).unwrap();
    assert_eq!(frames.len(), 2);
    match &frames[0].body {
        FrameBody::Events(items) => {
            assert_eq!(items.len(), 1);
            assert_eq!(items[0].0, TransactionHash(Felt::from_u64(7003)));
            assert_eq!(items[0].1.keys, vec![Felt::from_u64(1)]);
        },
        other => panic!("expected an events payload, got {:?}", other),
    }
    assert!(is_block_fin_ok(&frames[1]));
}

#[test]
fn steps_skip_blocks() {
    let store = store_with_blocks(11);
    let frames = get_headers(&store, headers_request(0, Direction::Forward, 4, 3)).unwrap();
    assert_eq!(frames.len(), 6);
    assert!(is_header_of(&frames[0], 0));
    assert!(is_header_of(&frames[2], 4));
    assert!(is_header_of(&frames[4], 8));
}

#[test]
fn zero_step_is_rejected() {
    assert!(Step::new(0).is_none());
    assert_eq!(Step::new(2).unwrap().into_inner(), 2);
}
