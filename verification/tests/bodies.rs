use blocksync::class::Cairo;
use blocksync::class::CairoEntryPoints;
use blocksync::class::Class;
use blocksync::class::SelectorAndOffset;
use blocksync::data::BlockHash;
use blocksync::data::BlockHeader;
use blocksync::data::ClassHash;
use blocksync::data::SierraHash;
use blocksync::data::CasmHash;
use blocksync::data::StateUpdate;
use blocksync::felt::Felt;
use blocksync::handlers::get_bodies;
use blocksync::store::BlockRecord;
use blocksync::store::CasmEntry;
use blocksync::store::ClassEntry;
use blocksync::store::StorageView;
use blocksync::store::StoredClass;
use blocksync::wire::BlockNumberOrHash;
use blocksync::wire::Direction;
use blocksync::wire::Fin;
use blocksync::wire::FrameBody;
use blocksync::wire::Iteration;
use blocksync::wire::Step;
use blocksync::wire::SyncError;

fn cairo_class() -> Cairo {
    Cairo {
        abi: b"[]".to_vec(),
        program: b"{}".to_vec(),
        entry_points_by_type: CairoEntryPoints {
            external: vec![SelectorAndOffset { selector: Felt::from_u64(11), offset: 3 }],
            l1_handler: vec![],
            constructor: vec![],
        },
    }
}

fn store_declaring(class_hash: u64, declared_at: u64, definition: Option<StoredClass>) -> StorageView {
    let block = BlockRecord {
        header: BlockHeader {
            number: 5,
            hash: BlockHash(Felt::from_u64(1005)),
            parent_hash: BlockHash(Felt::from_u64(1004)),
            timestamp: 5,
            eth_l1_gas_price: 1,
            starknet_version: 13,
        },
        signature: None,
        state_update: Some(StateUpdate {
            block_hash: BlockHash(Felt::from_u64(1005)),
            declared_cairo_classes: vec![ClassHash(Felt::from_u64(class_hash))],
            declared_sierra_classes: vec![],
        }),
        transaction_data: None,
    };
    StorageView {
        blocks: vec![block],
        class_definitions: definition
            .into_iter()
            .map(|d| ClassEntry {
                class_hash: ClassHash(Felt::from_u64(class_hash)),
                declared_at,
                definition: d,
            })
            .collect(),
        casm_definitions: vec![],
    }
}

fn request() -> Iteration {
    Iteration {
        start: BlockNumberOrHash::Number(5),
        direction: Direction::Forward,
        limit: 1,
        step: Step::new(1).unwrap(),
    }
}

#[test]
fn body_serves_diff_classes_and_fin() {
    let store = store_declaring(42, 5, Some(StoredClass::Cairo(cairo_class())));
    let frames = get_bodies(&store, request()).unwrap();
    assert_eq!(frames.len(), 3);
    assert!(matches!(frames[0].body, FrameBody::Diff(_)));
    match &frames[1].body {
        FrameBody::Classes(msg) => {
            assert_eq!(msg.domain, 0);
            assert_eq!(msg.classes.len(), 1);
            match &msg.classes[0] {
                Class::Cairo0(c) => {
                    assert_eq!(c.abi, b"[]".to_vec());
                    assert_eq!(c.program, b"{}".to_vec());
                    assert_eq!(c.externals.len(), 1);
                    assert_eq!(c.externals[0].offset, 3);
                },
                Class::Cairo1(_) => panic!("expected a legacy class"),
            }
        },
        other => panic!("expected a classes payload, got {:?}", other),
    }
    assert!(matches!(frames[2].body, FrameBody::Fin(Fin::Success)));
}

#[test]
fn missing_class_definition_aborts_request() {
    let store = store_declaring(42, 5, None);
    assert_eq!(
        get_bodies(&store, request()).unwrap_err(),
        SyncError::ClassDefinitionNotFound
    );
}

#[test]
fn later_declaration_is_not_visible() {
    // The definition exists, but only from block 7 on; at block 5 it is
    // not found.
    let store = store_declaring(42, 7, Some(StoredClass::Cairo(cairo_class())));
    assert_eq!(
        get_bodies(&store, request()).unwrap_err(),
        SyncError::ClassDefinitionNotFound
    );
}

#[test]
fn sierra_declaration_with_cairo_definition_mismatches() {
    let mut store = store_declaring(42, 5, Some(StoredClass::Cairo(cairo_class())));
    // Redeclare the class as Sierra in the state update.
    let su = StateUpdate {
        block_hash: BlockHash(Felt::from_u64(1005)),
        declared_cairo_classes: vec![],
        declared_sierra_classes: vec![(
            SierraHash(Felt::from_u64(42)),
            CasmHash(Felt::from_u64(43)),
        )],
    };
    store.blocks[0].state_update = Some(su);
    assert_eq!(
        get_bodies(&store, request()).unwrap_err(),
        SyncError::ClassDefinitionMismatch
    );
}

#[test]
fn casm_beside_cairo_declaration_mismatches() {
    // A compiled blob stored under a class declared as legacy makes the
    // stored data inconsistent with the declaration.
    let mut store = store_declaring(42, 5, Some(StoredClass::Cairo(cairo_class())));
    store.casm_definitions = vec![CasmEntry {
        class_hash: ClassHash(Felt::from_u64(42)),
        definition: b"casm".to_vec(),
    }];
    assert_eq!(
        get_bodies(&store, request()).unwrap_err(),
        SyncError::ClassDefinitionMismatch
    );
}
