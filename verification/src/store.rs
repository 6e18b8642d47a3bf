//! A snapshot of the canonical chain data that one request is answered
//! from: per-block records and the class definition tables.
use crate::class::Cairo;
use crate::class::Sierra;
use crate::data::BlockHash;
use crate::data::BlockHeader;
use crate::data::BlockNumber;
use crate::data::ClassHash;
use crate::data::ConsensusSignature;
use crate::data::Receipt;
use crate::data::StateUpdate;
use crate::data::Transaction;
use crate::felt::Felt;
use crate::wire::BlockNumberOrHash;
use vstd::prelude::*;

verus! {

/// A class definition as the store holds it, in either form.
#[derive(Clone, Debug)]
pub enum StoredClass {
    Cairo(Cairo),
    Sierra(Sierra),
}

/// A class definition declared at some block.
#[derive(Clone, Debug)]
pub struct ClassEntry {
    pub class_hash: ClassHash,
    pub declared_at: u64,
    pub definition: StoredClass,
}

/// A compiled (CASM) blob for a Sierra class.
#[derive(Clone, Debug)]
pub struct CasmEntry {
    pub class_hash: ClassHash,
    pub definition: Vec<u8>,
}

/// Everything the store holds of one block.
#[derive(Clone, Debug)]
pub struct BlockRecord {
    pub header: BlockHeader,
    pub signature: Option<ConsensusSignature>,
    pub state_update: Option<StateUpdate>,
    pub transaction_data: Option<Vec<(Transaction, Receipt)>>,
}

/// A read-only snapshot of the chain data, as one database transaction
/// would see it.
#[derive(Clone, Debug)]
pub struct StorageView {
    pub blocks: Vec<BlockRecord>,
    pub class_definitions: Vec<ClassEntry>,
    pub casm_definitions: Vec<CasmEntry>,
}

/// The first record of the given block number.
pub open spec fn find_block(blocks: Seq<BlockRecord>, n: u64) -> Option<BlockRecord>
    decreases blocks.len(),
{
    if blocks.len() == 0 {
        None
    } else if blocks[0].header.number == n {
        Some(blocks[0])
    } else {
        find_block(blocks.drop_first(), n)
    }
}

/// The first record whose block hash has the given bytes.
pub open spec fn find_block_by_hash(blocks: Seq<BlockRecord>, h: Seq<u8>) -> Option<BlockRecord>
    decreases blocks.len(),
{
    if blocks.len() == 0 {
        None
    } else if blocks[0].header.hash.0@ == h {
        Some(blocks[0])
    } else {
        find_block_by_hash(blocks.drop_first(), h)
    }
}

/// The first definition of the class with the given hash bytes declared at
/// or before the given block.
pub open spec fn find_class(entries: Seq<ClassEntry>, h: Seq<u8>, block: u64) -> Option<StoredClass>
    decreases entries.len(),
{
    if entries.len() == 0 {
        None
    } else if entries[0].class_hash.0@ == h && entries[0].declared_at <= block {
        Some(entries[0].definition)
    } else {
        find_class(entries.drop_first(), h, block)
    }
}

/// The first compiled blob for the class with the given hash bytes.
pub open spec fn find_casm(entries: Seq<CasmEntry>, h: Seq<u8>) -> Option<Vec<u8>>
    decreases entries.len(),
{
    if entries.len() == 0 {
        None
    } else if entries[0].class_hash.0@ == h {
        Some(entries[0].definition)
    } else {
        find_casm(entries.drop_first(), h)
    }
}

impl StorageView {
    /// The record of the given block, if the store holds one.
    pub fn find_block_ref(&self, n: u64) -> (r: Option<&BlockRecord>)
        ensures
            match find_block(self.blocks@, n) {
                Some(rec) => r matches Some(b) && *b == rec,
                None => r is None,
            },
    {
        let mut i: usize = 0;
        proof {
            assert(self.blocks@.skip(0) =~= self.blocks@);
        }
        while i < self.blocks.len()
            invariant
                i <= self.blocks@.len(),
                find_block(self.blocks@, n) == find_block(self.blocks@.skip(i as int), n),
            decreases self.blocks@.len() - i,
        {
            if self.blocks[i].header.number == n {
                proof {
                    assert(self.blocks@.skip(i as int)[0] == self.blocks@[i as int]);
                }
                return Some(&self.blocks[i]);
            }
            proof {
                assert(self.blocks@.skip(i as int).drop_first() =~= self.blocks@.skip(i + 1));
            }
            i = i + 1;
        }
        proof {
            assert(self.blocks@.skip(self.blocks@.len() as int).len() == 0);
        }
        None
    }

    /// The record of the block with the given hash, if the store holds one.
    pub fn find_block_by_hash_ref(&self, h: &Felt) -> (r: Option<&BlockRecord>)
        ensures
            match find_block_by_hash(self.blocks@, h@) {
                Some(rec) => r matches Some(b) && *b == rec,
                None => r is None,
            },
    {
        let mut i: usize = 0;
        proof {
            assert(self.blocks@.skip(0) =~= self.blocks@);
        }
        while i < self.blocks.len()
            invariant
                i <= self.blocks@.len(),
                find_block_by_hash(self.blocks@, h@) == find_block_by_hash(
                    self.blocks@.skip(i as int),
                    h@,
                ),
            decreases self.blocks@.len() - i,
        {
            if self.blocks[i].header.hash.0.eq_felt(h) {
                proof {
                    assert(self.blocks@.skip(i as int)[0] == self.blocks@[i as int]);
                }
                return Some(&self.blocks[i]);
            }
            proof {
                assert(self.blocks@.skip(i as int).drop_first() =~= self.blocks@.skip(i + 1));
            }
            i = i + 1;
        }
        proof {
            assert(self.blocks@.skip(self.blocks@.len() as int).len() == 0);
        }
        None
    }

    /// The header of the given block.
    pub fn block_header(&self, n: u64) -> (r: Option<BlockHeader>)
        ensures
            match find_block(self.blocks@, n) {
                Some(rec) => r == Some(rec.header),
                None => r is None,
            },
    {
        match self.find_block_ref(n) {
            Some(rec) => Some(rec.header),
            None => None,
        }
    }

    /// The number and hash of the named block, if it is canonical.
    pub fn block_id(&self, at: &BlockNumberOrHash) -> (r: Option<(BlockNumber, BlockHash)>)
        ensures
            match *at {
                BlockNumberOrHash::Number(n) => match find_block(self.blocks@, n) {
                    Some(rec) => r == Some(
                        (BlockNumber(rec.header.number), rec.header.hash),
                    ),
                    None => r is None,
                },
                BlockNumberOrHash::Hash(h) => match find_block_by_hash(self.blocks@, h.0@) {
                    Some(rec) => r == Some(
                        (BlockNumber(rec.header.number), rec.header.hash),
                    ),
                    None => r is None,
                },
            },
    {
        let rec = match at {
            BlockNumberOrHash::Number(n) => self.find_block_ref(*n),
            BlockNumberOrHash::Hash(h) => self.find_block_by_hash_ref(&h.0),
        };
        match rec {
            Some(rec) => Some((BlockNumber(rec.header.number), rec.header.hash)),
            None => None,
        }
    }

    /// The sequencer signature stored for the given block.
    pub fn signature(&self, n: u64) -> (r: Option<ConsensusSignature>)
        ensures
            match find_block(self.blocks@, n) {
                Some(rec) => r == rec.signature,
                None => r is None,
            },
    {
        match self.find_block_ref(n) {
            Some(rec) => rec.signature,
            None => None,
        }
    }

    /// The state update stored for the given block.
    pub fn state_update(&self, n: u64) -> (r: Option<&StateUpdate>)
        ensures
            match find_block(self.blocks@, n) {
                Some(rec) => match rec.state_update {
                    Some(su) => r matches Some(x) && *x == su,
                    None => r is None,
                },
                None => r is None,
            },
    {
        match self.find_block_ref(n) {
            Some(rec) => match &rec.state_update {
                Some(su) => Some(su),
                None => None,
            },
            None => None,
        }
    }

    /// The transactions of the given block, paired with their receipts.
    pub fn transaction_data_for_block(&self, n: u64) -> (r: Option<&Vec<(Transaction, Receipt)>>)
        ensures
            match find_block(self.blocks@, n) {
                Some(rec) => match rec.transaction_data {
                    Some(td) => r matches Some(x) && *x == td,
                    None => r is None,
                },
                None => r is None,
            },
    {
        match self.find_block_ref(n) {
            Some(rec) => match &rec.transaction_data {
                Some(td) => Some(td),
                None => None,
            },
            None => None,
        }
    }

    /// The definition of the class with the given hash, as visible at the
    /// given block.
    pub fn class_definition_at(&self, block: u64, class_hash: &ClassHash) -> (r: Option<
        &StoredClass,
    >)
        ensures
            match find_class(self.class_definitions@, class_hash.0@, block) {
                Some(d) => r matches Some(x) && *x == d,
                None => r is None,
            },
    {
        let mut i: usize = 0;
        proof {
            assert(self.class_definitions@.skip(0) =~= self.class_definitions@);
        }
        while i < self.class_definitions.len()
            invariant
                i <= self.class_definitions@.len(),
                find_class(self.class_definitions@, class_hash.0@, block) == find_class(
                    self.class_definitions@.skip(i as int),
                    class_hash.0@,
                    block,
                ),
            decreases self.class_definitions@.len() - i,
        {
            if self.class_definitions[i].class_hash.0.eq_felt(&class_hash.0)
                && self.class_definitions[i].declared_at <= block {
                proof {
                    assert(self.class_definitions@.skip(i as int)[0]
                        == self.class_definitions@[i as int]);
                }
                return Some(&self.class_definitions[i].definition);
            }
            proof {
                assert(self.class_definitions@.skip(i as int).drop_first()
                    =~= self.class_definitions@.skip(i + 1));
            }
            i = i + 1;
        }
        proof {
            assert(self.class_definitions@.skip(self.class_definitions@.len() as int).len() == 0);
        }
        None
    }

    /// The compiled blob of the class with the given hash.
    pub fn casm_definition(&self, class_hash: &ClassHash) -> (r: Option<&Vec<u8>>)
        ensures
            match find_casm(self.casm_definitions@, class_hash.0@) {
                Some(d) => r matches Some(x) && *x == d,
                None => r is None,
            },
    {
        let mut i: usize = 0;
        proof {
            assert(self.casm_definitions@.skip(0) =~= self.casm_definitions@);
        }
        while i < self.casm_definitions.len()
            invariant
                i <= self.casm_definitions@.len(),
                find_casm(self.casm_definitions@, class_hash.0@) == find_casm(
                    self.casm_definitions@.skip(i as int),
                    class_hash.0@,
                ),
            decreases self.casm_definitions@.len() - i,
        {
            if self.casm_definitions[i].class_hash.0.eq_felt(&class_hash.0) {
                proof {
                    assert(self.casm_definitions@.skip(i as int)[0]
                        == self.casm_definitions@[i as int]);
                }
                return Some(&self.casm_definitions[i].definition);
            }
            proof {
                assert(self.casm_definitions@.skip(i as int).drop_first()
                    =~= self.casm_definitions@.skip(i + 1));
            }
            i = i + 1;
        }
        proof {
            assert(self.casm_definitions@.skip(self.casm_definitions@.len() as int).len() == 0);
        }
        None
    }
}

} // verus!
