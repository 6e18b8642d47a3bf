//! The chain data that the sync handlers serve: headers, signatures, state
//! updates, transactions, receipts and events, held as plain values.
use crate::felt::Felt;
use vstd::prelude::*;

verus! {

/// Block numbers are stored as signed 64-bit integers on disk, so the
/// largest representable block number is `i64::MAX`.
pub const MAX_BLOCK_NUMBER: u64 = 0x7fff_ffff_ffff_ffff;

/// A canonical chain height.
#[derive(Clone, Copy, PartialEq, Eq, Structural, Debug)]
pub struct BlockNumber(pub u64);

impl BlockNumber {
    /// A block number, if the value is representable on disk.
    pub fn new(n: u64) -> (r: Option<BlockNumber>)
        ensures
            n <= MAX_BLOCK_NUMBER ==> r == Some(BlockNumber(n)),
            n > MAX_BLOCK_NUMBER ==> r is None,
    {
        if n <= MAX_BLOCK_NUMBER {
            Some(BlockNumber(n))
        } else {
            None
        }
    }

    pub fn get(&self) -> (r: u64)
        ensures
            r == self.0,
    {
        self.0
    }
}

/// The hash identifying a block.
#[derive(Clone, Copy, PartialEq, Eq, Debug)]
pub struct BlockHash(pub Felt);

/// The hash identifying a legacy class.
#[derive(Clone, Copy, PartialEq, Eq, Debug)]
pub struct ClassHash(pub Felt);

/// The hash identifying a Sierra class.
#[derive(Clone, Copy, PartialEq, Eq, Debug)]
pub struct SierraHash(pub Felt);

/// The hash identifying a compiled (CASM) class.
#[derive(Clone, Copy, PartialEq, Eq, Debug)]
pub struct CasmHash(pub Felt);

/// The hash identifying a transaction.
#[derive(Clone, Copy, PartialEq, Eq, Debug)]
pub struct TransactionHash(pub Felt);

/// The header fields that this subsystem reads.
#[derive(Clone, Copy, PartialEq, Eq, Debug)]
pub struct BlockHeader {
    pub number: u64,
    pub hash: BlockHash,
    pub parent_hash: BlockHash,
    pub timestamp: u64,
    pub eth_l1_gas_price: u128,
    pub starknet_version: u32,
}

/// A sequencer signature over a block: two field elements.
#[derive(Clone, Copy, PartialEq, Eq, Debug)]
pub struct ConsensusSignature {
    pub r: Felt,
    pub s: Felt,
}

/// The parts of a block's state update that the handlers read: the block it
/// belongs to and the classes it newly declares.
#[derive(Clone, Debug)]
pub struct StateUpdate {
    pub block_hash: BlockHash,
    pub declared_cairo_classes: Vec<ClassHash>,
    pub declared_sierra_classes: Vec<(SierraHash, CasmHash)>,
}

/// The ghost value of a state update.
#[verifier::ext_equal]
pub struct StateUpdateV {
    pub block_hash: BlockHash,
    pub declared_cairo_classes: Seq<ClassHash>,
    pub declared_sierra_classes: Seq<(SierraHash, CasmHash)>,
}

impl View for StateUpdate {
    type V = StateUpdateV;

    open spec fn view(&self) -> StateUpdateV {
        StateUpdateV {
            block_hash: self.block_hash,
            declared_cairo_classes: self.declared_cairo_classes@,
            declared_sierra_classes: self.declared_sierra_classes@,
        }
    }
}

/// Makes an owned copy of a state update.
pub fn clone_state_update(su: &StateUpdate) -> (r: StateUpdate)
    ensures
        r@ == su@,
{
    let r = StateUpdate {
        block_hash: su.block_hash,
        declared_cairo_classes: copy_vec(&su.declared_cairo_classes),
        declared_sierra_classes: copy_vec(&su.declared_sierra_classes),
    };
    r
}

/// Makes an owned copy of a vector of plain values.
pub fn copy_vec<T: Copy>(v: &Vec<T>) -> (r: Vec<T>)
    ensures
        r@ == v@,
{
    let mut r: Vec<T> = Vec::new();
    let mut i: usize = 0;
    while i < v.len()
        invariant
            i <= v@.len(),
            r@ == v@.take(i as int),
        decreases v@.len() - i,
    {
        r.push(v[i]);
        proof {
            assert(v@.take(i + 1) =~= v@.take(i as int).push(v@[i as int]));
        }
        i = i + 1;
    }
    proof {
        assert(v@.take(v@.len() as int) =~= v@);
    }
    r
}

/// The kind of a transaction; the trace mapping dispatches on it.
#[derive(Clone, Copy, PartialEq, Eq, Structural, Debug)]
pub enum TransactionVariant {
    DeclareV0,
    DeclareV1,
    DeclareV2,
    DeclareV3,
    DeployV0,
    DeployV1,
    DeployAccountV1,
    DeployAccountV3,
    InvokeV0,
    InvokeV1,
    InvokeV3,
    L1Handler,
}

/// A transaction, reduced to what this subsystem reads of it.
#[derive(Clone, Copy, PartialEq, Eq, Debug)]
pub struct Transaction {
    pub hash: TransactionHash,
    pub variant: TransactionVariant,
}

/// An event emitted by a transaction.
#[derive(Clone, Debug)]
pub struct Event {
    pub from_address: Felt,
    pub keys: Vec<Felt>,
    pub data: Vec<Felt>,
}

/// The ghost value of an event.
#[verifier::ext_equal]
pub struct EventV {
    pub from_address: Felt,
    pub keys: Seq<Felt>,
    pub data: Seq<Felt>,
}

impl View for Event {
    type V = EventV;

    open spec fn view(&self) -> EventV {
        EventV { from_address: self.from_address, keys: self.keys@, data: self.data@ }
    }
}

pub fn clone_event(e: &Event) -> (r: Event)
    ensures
        r@ == e@,
{
    Event {
        from_address: e.from_address,
        keys: copy_vec(&e.keys),
        data: copy_vec(&e.data),
    }
}

/// A transaction receipt, reduced to what this subsystem reads of it.
#[derive(Clone, Debug)]
pub struct Receipt {
    pub transaction_hash: TransactionHash,
    pub actual_fee: Option<Felt>,
    pub events: Vec<Event>,
}

/// The ghost value of a receipt.
#[verifier::ext_equal]
pub struct ReceiptV {
    pub transaction_hash: TransactionHash,
    pub actual_fee: Option<Felt>,
    pub events: Seq<EventV>,
}

impl View for Receipt {
    type V = ReceiptV;

    open spec fn view(&self) -> ReceiptV {
        ReceiptV {
            transaction_hash: self.transaction_hash,
            actual_fee: self.actual_fee,
            events: self.events@.map_values(|e: Event| e@),
        }
    }
}

pub fn clone_receipt(rec: &Receipt) -> (r: Receipt)
    ensures
        r@ == rec@,
{
    let mut events: Vec<Event> = Vec::new();
    let mut i: usize = 0;
    while i < rec.events.len()
        invariant
            i <= rec.events@.len(),
            events@.len() == i,
            forall|j: int| 0 <= j < i ==> #[trigger] events@[j]@ == rec.events@[j]@,
        decreases rec.events@.len() - i,
    {
        events.push(clone_event(&rec.events[i]));
        i = i + 1;
    }
    let r = Receipt { transaction_hash: rec.transaction_hash, actual_fee: rec.actual_fee, events };
    proof {
        assert(r@.events =~= rec@.events) by {
            assert forall|j: int| 0 <= j < rec.events@.len() implies r@.events[j]
                == rec@.events[j] by {
                assert(r@.events[j] == r.events@[j]@);
                assert(rec@.events[j] == rec.events@[j]@);
            }
        }
        assert(r@ =~= rec@);
    }
    r
}

} // verus!
