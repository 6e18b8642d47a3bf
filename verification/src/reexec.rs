//! The re-execution cross-check: work items taken from the store, and the
//! comparison of a re-executed block's gas estimates against the fees its
//! receipts recorded.
use crate::data::BlockHeader;
use crate::data::BlockNumber;
use crate::data::Receipt;
use crate::data::ReceiptV;
use crate::data::Transaction;
use crate::felt::Felt;
use crate::felt::be_val;
use crate::felt::lemma_be_val_bound;
use crate::felt::pow256;
use crate::store::StorageView;
use crate::store::find_block;
use vstd::prelude::*;

verus! {

/// One block's worth of re-execution work: its header, and its
/// transactions paired positionally with their receipts.
#[derive(Debug)]
pub struct Work {
    pub header: BlockHeader,
    pub transactions: Vec<Transaction>,
    pub receipts: Vec<Receipt>,
}

/// Loads one block's work item: its header and its transactions with
/// their receipts, unzipped; `None` when the store lacks the block or its
/// transaction data.
pub fn load_work(store: &StorageView, block_number: BlockNumber) -> (r: Option<Work>)
    ensures
        match find_block(store.blocks@, block_number.0) {
            Some(rec) => match rec.transaction_data {
                Some(td) => r matches Some(w) && (w.header == rec.header && w.transactions@ == td@
                    .map_values(|p: (Transaction, Receipt)| p.0) && w.receipts@.len() == td@.len()
                    && w.receipts@.map_values(|x: Receipt| x@) == td@.map_values(
                    |p: (Transaction, Receipt)| p.1@,
                )),
                None => r is None,
            },
            None => r is None,
        },
{
    match store.find_block_ref(block_number.get()) {
        Some(rec) => match &rec.transaction_data {
            Some(td) => {
                let mut transactions: Vec<Transaction> = Vec::new();
                let mut receipts: Vec<Receipt> = Vec::new();
                let mut i: usize = 0;
                while i < td.len()
                    invariant
                        i <= td@.len(),
                        transactions@.len() == i,
                        receipts@.len() == i,
                        forall|j: int| 0 <= j < i ==> transactions@[j] == (#[trigger] td@[j]).0,
                        forall|j: int| 0 <= j < i ==> receipts@[j]@ == (#[trigger] td@[j]).1@,
                    decreases td@.len() - i,
                {
                    transactions.push(td[i].0);
                    receipts.push(crate::data::clone_receipt(&td[i].1));
                    i = i + 1;
                }
                proof {
                    assert(transactions@ =~= td@.map_values(|p: (Transaction, Receipt)| p.0));
                    assert(receipts@.map_values(|x: Receipt| x@) =~= td@.map_values(
                        |p: (Transaction, Receipt)| p.1@,
                    ));
                }
                Some(Work { header: rec.header, transactions, receipts })
            },
            None => None,
        },
        None => None,
    }
}

/// The low 128 bits of a fee element, as the recorded fee amount.
pub fn fee_as_u128(f: &Felt) -> (r: u128)
    ensures
        r == be_val(f@.skip(16)),
{
    let bytes = f.to_be_bytes();
    let mut r: u128 = 0;
    let mut i: usize = 16;
    proof {
        assert(f@.skip(16).take(0) =~= Seq::<u8>::empty());
        assert(pow256(16) == 0x100000000000000000000000000000000int) by {
            reveal_with_fuel(pow256, 17);
        }
    }
    while i < 32
        invariant
            16 <= i <= 32,
            bytes@ == f@,
            r == be_val(f@.skip(16).take(i - 16)),
            pow256(16) == 0x100000000000000000000000000000000int,
        decreases 32 - i,
    {
        proof {
            lemma_be_val_bound(f@.skip(16).take(i - 16));
            crate::felt::lemma_pow256_mono((i - 16) as nat, 15);
            assert(pow256(16) == 256 * pow256(15));
        }
        r = r * 256 + (bytes[i] as u128);
        proof {
            let s = f@.skip(16).take(i - 16);
            assert(f@.skip(16).take(i + 1 - 16) =~= s.push(f@[i as int]));
            assert(s.push(f@[i as int]).drop_last() =~= s);
            assert(s.push(f@[i as int]).last() == f@[i as int]);
            assert(be_val(s.push(f@[i as int])) == be_val(s) * 256 + f@[i as int]);
        }
        i = i + 1;
    }
    proof {
        assert(f@.skip(16).take(16) =~= f@.skip(16));
    }
    r
}

/// A fee estimate as the executor reports it, reduced to the amounts the
/// cross-check reads.
#[derive(Clone, Copy, PartialEq, Eq, Debug)]
pub struct FeeEstimate {
    pub gas_consumed: u128,
    pub overall_fee: u128,
}

/// The gas a recorded fee amounts to at the block's gas price; a zero
/// price is read as one.
pub open spec fn actual_gas_of(actual_fee: int, gas_price: u128) -> int {
    actual_fee / (if gas_price == 0 {
        1int
    } else {
        gas_price as int
    })
}

/// Whether a re-executed estimate strays from the recorded fee by more
/// than twenty percent of the recorded gas.
pub open spec fn estimate_mismatch(actual_fee: int, gas_price: u128, estimated_gas: int) -> bool {
    let ag = actual_gas_of(actual_fee, gas_price);
    let diff = if ag >= estimated_gas {
        ag - estimated_gas
    } else {
        estimated_gas - ag
    };
    diff > (ag * 2) / 10
}

/// Compares one estimate against one recorded fee.
pub fn gas_estimate_flagged(actual_fee: u128, gas_price: u128, estimated_gas: u128) -> (r: bool)
    ensures
        r == estimate_mismatch(actual_fee as int, gas_price, estimated_gas as int),
{
    let price: u128 = if gas_price == 0 {
        1
    } else {
        gas_price
    };
    let ag = actual_fee / price;
    let diff = if ag >= estimated_gas {
        ag - estimated_gas
    } else {
        estimated_gas - ag
    };
    let q = ag / 10;
    let s = ag % 10;
    let threshold = 2 * q + (2 * s) / 10;
    proof {
        vstd::arithmetic::div_mod::lemma_fundamental_div_mod(ag as int, 10);
        vstd::arithmetic::div_mod::lemma_hoist_over_denominator(
            2 * (s as int),
            2 * (ag as int / 10),
            10,
        );
        assert(2 * (ag as int) == 2 * (s as int) + (2 * (ag as int / 10)) * 10)
            by (nonlinear_arith)
            requires
                ag as int == 10 * (ag as int / 10) + (ag as int % 10),
                s == ag as int % 10,
        {
        }
        assert(threshold == (2 * (ag as int)) / 10);
    }
    diff > threshold
}

/// Whether one receipt's recorded fee flags its estimate: only receipts
/// with a non-zero recorded fee take part; L1 handler transactions record
/// a zero fee and are skipped.
pub open spec fn receipt_flagged(est: FeeEstimate, rec: ReceiptV, gas_price: u128) -> bool {
    match rec.actual_fee {
        Some(f) => {
            let fee = be_val(f@.skip(16));
            fee != 0 && estimate_mismatch(fee, gas_price, est.gas_consumed as int)
        },
        None => false,
    }
}

/// The positions among the first `n` estimate/receipt pairs whose
/// estimates are flagged, in order.
pub open spec fn flagged_prefix(
    ests: Seq<FeeEstimate>,
    recs: Seq<ReceiptV>,
    gas_price: u128,
    n: int,
) -> Seq<int>
    decreases n,
{
    if n <= 0 {
        Seq::empty()
    } else {
        flagged_prefix(ests, recs, gas_price, n - 1) + (if n - 1 < ests.len() && n - 1 < recs.len()
            && receipt_flagged(ests[n - 1], recs[n - 1], gas_price) {
            seq![n - 1]
        } else {
            Seq::empty()
        })
    }
}

/// Cross-checks a re-executed block: pairs estimates with receipts
/// positionally and returns the positions whose estimated gas strays more
/// than twenty percent from the recorded gas.
pub fn check_block_estimates(
    estimates: &Vec<FeeEstimate>,
    receipts: &Vec<Receipt>,
    gas_price: u128,
) -> (r: Vec<usize>)
    ensures
        ({
            let n = if estimates@.len() < receipts@.len() {
                estimates@.len() as int
            } else {
                receipts@.len() as int
            };
            r@.map_values(|u: usize| u as int) == flagged_prefix(
                estimates@,
                receipts@.map_values(|x: Receipt| x@),
                gas_price,
                n,
            )
        }),
{
    let ghost recs = receipts@.map_values(|x: Receipt| x@);
    let n: usize = if estimates.len() < receipts.len() {
        estimates.len()
    } else {
        receipts.len()
    };
    let mut r: Vec<usize> = Vec::new();
    let mut i: usize = 0;
    proof {
        assert(r@.map_values(|u: usize| u as int) =~= flagged_prefix(
            estimates@,
            recs,
            gas_price,
            0,
        ));
    }
    while i < n
        invariant
            i <= n,
            n <= estimates@.len(),
            n <= receipts@.len(),
            recs == receipts@.map_values(|x: Receipt| x@),
            r@.map_values(|u: usize| u as int) == flagged_prefix(
                estimates@,
                recs,
                gas_price,
                i as int,
            ),
        decreases n - i,
    {
        let flagged = match &receipts[i].actual_fee {
            Some(f) => {
                let fee = fee_as_u128(f);
                if fee != 0 {
                    gas_estimate_flagged(fee, gas_price, estimates[i].gas_consumed)
                } else {
                    false
                }
            },
            None => false,
        };
        let ghost prev = r@.map_values(|u: usize| u as int);
        if flagged {
            r.push(i);
            proof {
                assert(r@.map_values(|u: usize| u as int) =~= prev.push(i as int));
                assert(prev.push(i as int) =~= prev + seq![i as int]);
            }
        }
        proof {
            assert(recs[i as int] == receipts@[i as int]@);
            if !flagged {
                assert(r@.map_values(|u: usize| u as int) =~= prev + Seq::<int>::empty());
            }
        }
        i = i + 1;
    }
    r
}

} // verus!
