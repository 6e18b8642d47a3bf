//! The wire shapes of the sync protocol: the iteration descriptor that a
//! peer sends, and the frames that answer it.
use crate::class::ClassesMsg;
use crate::data::BlockHeader;
use crate::data::ConsensusSignature;
use crate::data::Receipt;
use crate::data::StateUpdate;
use crate::data::Transaction;
use crate::data::TransactionHash;
use crate::data::Event;
use crate::felt::Felt;
use vstd::prelude::*;

verus! {

/// A 251-bit hash on the wire.
#[derive(Clone, Copy, PartialEq, Eq, Debug)]
pub struct Hash(pub Felt);

/// A block named redundantly by number and hash.
#[derive(Clone, Copy, PartialEq, Eq, Debug)]
pub struct BlockId {
    pub number: u64,
    pub hash: Hash,
}

/// How a request names its first block.
#[derive(Clone, Copy, PartialEq, Eq, Debug)]
pub enum BlockNumberOrHash {
    Number(u64),
    Hash(Hash),
}

/// The direction an iteration walks in.
#[derive(Clone, Copy, PartialEq, Eq, Structural, Debug)]
pub enum Direction {
    Forward,
    Backward,
}

/// A step width of at least one block.
#[derive(Clone, Copy, PartialEq, Eq, Structural, Debug)]
pub struct Step {
    v: u64,
}

impl Step {
    /// The step's width.
    pub closed spec fn spec_inner(self) -> u64 {
        self.v
    }

    /// A step of the given width; zero is ill-formed and rejected.
    pub fn new(v: u64) -> (r: Option<Step>)
        ensures
            v >= 1 ==> (r matches Some(s) && s.spec_inner() == v),
            v == 0 ==> r is None,
    {
        if v >= 1 {
            Some(Step { v })
        } else {
            None
        }
    }

    pub fn into_inner(self) -> (r: u64)
        ensures
            r == self.spec_inner(),
    {
        self.v
    }
}

/// What a peer asks of one sync protocol: visit `limit` blocks from
/// `start`, `step` apart, walking in `direction`.
#[derive(Clone, Copy, PartialEq, Eq, Debug)]
pub struct Iteration {
    pub start: BlockNumberOrHash,
    pub direction: Direction,
    pub limit: u64,
    pub step: Step,
}

/// A terminal marker: how a logical unit of the response ended.
#[derive(Clone, Copy, PartialEq, Eq, Structural, Debug)]
pub enum Fin {
    Success,
    Unknown,
    TooMuch,
}

impl Fin {
    /// The block or iteration completed.
    pub fn ok() -> (r: Fin)
        ensures
            r == Fin::Success,
    {
        Fin::Success
    }

    /// The requested block does not exist, or the walk left the chain.
    pub fn unknown() -> (r: Fin)
        ensures
            r == Fin::Unknown,
    {
        Fin::Unknown
    }

    /// The request asked for more than the ceiling.
    pub fn too_much() -> (r: Fin)
        ensures
            r == Fin::TooMuch,
    {
        Fin::TooMuch
    }
}

/// One piece of a response: a payload of block data, or a `Fin` marker.
#[derive(Clone, Debug)]
pub enum FrameBody {
    Header(BlockHeader),
    Signatures(Vec<ConsensusSignature>),
    Diff(StateUpdate),
    Classes(ClassesMsg),
    Transactions(Vec<Transaction>),
    Receipts(Vec<Receipt>),
    Events(Vec<(TransactionHash, Event)>),
    Fin(Fin),
}

/// A response frame: the block it pertains to, when any, and its body.
#[derive(Clone, Debug)]
pub struct Frame {
    pub id: Option<BlockId>,
    pub body: FrameBody,
}

impl Frame {
    /// A `Fin` marker frame pertaining to no block: the terminal frame of
    /// an iteration.
    pub fn terminal(fin: Fin) -> (r: Frame)
        ensures
            r == (Frame { id: None, body: FrameBody::Fin(fin) }),
    {
        Frame { id: None, body: FrameBody::Fin(fin) }
    }
}

/// Why a request was aborted: the stored class data did not line up with
/// the block's declarations.
#[derive(Clone, Copy, PartialEq, Eq, Structural, Debug)]
pub enum SyncError {
    ClassDefinitionNotFound,
    ClassDefinitionMismatch,
}

} // verus!
