use blocksync::data::BlockHash;
use blocksync::data::BlockHeader;
use blocksync::data::BlockNumber;
use blocksync::data::Receipt;
use blocksync::data::Transaction;
use blocksync::data::TransactionHash;
use blocksync::data::TransactionVariant;
use blocksync::felt::Felt;
use blocksync::reexec::FeeEstimate;
use blocksync::reexec::check_block_estimates;
use blocksync::reexec::fee_as_u128;
use blocksync::reexec::gas_estimate_flagged;
use blocksync::reexec::load_work;
use blocksync::store::BlockRecord;
use blocksync::store::StorageView;

fn receipt(fee: Option<u64>) -> Receipt {
    Receipt {
        transaction_hash: TransactionHash(Felt::from_u64(1)),
        actual_fee: fee.map(Felt::from_u64),
        events: vec![],
    }
}

#[test]
fn fee_is_read_from_the_low_bytes() {
    assert_eq!(fee_as_u128(&Felt::from_u64(12345)), 12345);
    assert_eq!(fee_as_u128(&Felt::zero()), 0);
}

#[test]
fn twenty_percent_is_the_boundary() {
    // actual fee 1000 at price 10 gives 100 gas; 20% of it is 20.
    assert!(!gas_estimate_flagged(1000, 10, 100));
    assert!(!gas_estimate_flagged(1000, 10, 80));
    assert!(!gas_estimate_flagged(1000, 10, 120));
    assert!(gas_estimate_flagged(1000, 10, 79));
    assert!(gas_estimate_flagged(1000, 10, 121));
}

#[test]
fn zero_gas_price_counts_as_one() {
    // At price zero the fee itself is the gas amount.
    assert!(!gas_estimate_flagged(100, 0, 100));
    assert!(gas_estimate_flagged(100, 0, 121));
}

#[test]
fn zero_fee_receipts_are_skipped() {
    let estimates = vec![
        FeeEstimate { gas_consumed: 500, overall_fee: 5000 },
        FeeEstimate { gas_consumed: 500, overall_fee: 5000 },
        FeeEstimate { gas_consumed: 100, overall_fee: 1000 },
    ];
    let receipts = vec![
        receipt(Some(0)),     // an L1 handler records no fee: skipped
        receipt(None),        // no fee recorded: skipped
        receipt(Some(1000)),  // 1000 / 10 = 100 gas, estimate matches
    ];
    assert_eq!(check_block_estimates(&estimates, &receipts, 10), Vec::<usize>::new());
}

#[test]
fn mismatching_positions_are_reported_in_order() {
    let estimates = vec![
        FeeEstimate { gas_consumed: 500, overall_fee: 5000 },
        FeeEstimate { gas_consumed: 100, overall_fee: 1000 },
        FeeEstimate { gas_consumed: 500, overall_fee: 5000 },
    ];
    let receipts = vec![
        receipt(Some(1000)),  // 100 gas recorded, 500 estimated: flagged
        receipt(Some(1000)),  // matches
        receipt(Some(1000)),  // flagged again
    ];
    assert_eq!(check_block_estimates(&estimates, &receipts, 10), vec![0, 2]);
}

#[test]
fn work_items_pair_transactions_with_receipts() {
    let tx = Transaction {
        hash: TransactionHash(Felt::from_u64(9)),
        variant: TransactionVariant::InvokeV0,
    };
    let store = StorageView {
        blocks: vec![BlockRecord {
            header: BlockHeader {
                number: 3,
                hash: BlockHash(Felt::from_u64(1003)),
                parent_hash: BlockHash(Felt::from_u64(1002)),
                timestamp: 3,
                eth_l1_gas_price: 2,
                starknet_version: 13,
            },
            signature: None,
            state_update: None,
            transaction_data: Some(vec![(tx, receipt(Some(50)))]),
        }],
        class_definitions: vec![],
        casm_definitions: vec![],
    };
    let work = load_work(&store, BlockNumber(3)).unwrap();
    assert_eq!(work.header.number, 3);
    assert_eq!(work.transactions.len(), 1);
    assert_eq!(work.receipts.len(), 1);
    assert_eq!(work.transactions[0].hash, TransactionHash(Felt::from_u64(9)));
    assert!(load_work(&store, BlockNumber(4)).is_none());
}
