//! The hash chain used for class-hash computation: an accumulator over
//! field elements that is folded with the Pedersen hash and finalized by
//! appending the number of hashed values.
use crate::felt::Felt;
use crate::felt::u64_felt;
use vstd::prelude::*;

verus! {

/// What the Pedersen hash of two field elements returns, as 32 big-endian
/// bytes; a function of the two operands alone.
pub uninterp spec fn pedersen_of(a: Seq<u8>, b: Seq<u8>) -> Seq<u8>;

/// Relies on starknet_crypto::pedersen_hash: the Pedersen hash of two field
/// elements, deterministic in its operands, returned as 32 big-endian bytes.
#[verifier::external_body]
pub(crate) fn pedersen(a: &Felt, b: &Felt) -> (r: Felt)
    ensures
        r@ == pedersen_of(a@, b@),
{
    let x = starknet_crypto::Felt::from_bytes_be(&a.to_be_bytes());
    let y = starknet_crypto::Felt::from_bytes_be(&b.to_be_bytes());
    Felt::from_be_bytes(starknet_crypto::pedersen_hash(&x, &y).to_bytes_be())
}

/// The all-zero element that a chain starts from.
pub open spec fn zero_felt() -> Seq<u8> {
    Seq::new(32, |i: int| 0u8)
}

/// The accumulator after folding a sequence of values:
/// `H(…H(H(0, v1), v2)…, vn)`.
pub open spec fn chain_acc(values: Seq<Seq<u8>>) -> Seq<u8>
    decreases values.len(),
{
    if values.len() == 0 {
        zero_felt()
    } else {
        pedersen_of(chain_acc(values.drop_last()), values.last())
    }
}

/// What finalizing a chain of the given values returns: the accumulator
/// hashed once more with the value count as a field element.
pub open spec fn chain_digest(values: Seq<Seq<u8>>) -> Seq<u8> {
    pedersen_of(chain_acc(values), u64_felt(values.len() as u64))
}

/// An accumulator over field elements. Each update replaces the hash with
/// `H(hash, value)` and counts the value; finalizing appends the count.
pub struct HashChain {
    hash: Felt,
    count: u64,
    values: Ghost<Seq<Seq<u8>>>,
}

impl HashChain {
    /// The values folded into the chain so far.
    pub closed spec fn values(self) -> Seq<Seq<u8>> {
        self.values@
    }

    /// The chain's accumulator and count agree with its values.
    pub closed spec fn wf(self) -> bool {
        self.hash@ == chain_acc(self.values@) && self.count == self.values@.len()
    }

    /// Folds one more value into the accumulator.
    pub fn update(&mut self, value: Felt)
        requires
            old(self).wf(),
            old(self).values().len() < u64::MAX,
        ensures
            final(self).wf(),
            final(self).values() == old(self).values().push(value@),
    {
        self.hash = pedersen(&self.hash, &value);
        self.count = self.count + 1;
        proof {
            self.values@ = self.values@.push(value@);
            assert(self.values@.drop_last() =~= old(self).values@);
        }
    }

    /// `update`, by value, for chained calls.
    pub fn chain_update(self, value: Felt) -> (r: Self)
        requires
            self.wf(),
            self.values().len() < u64::MAX,
        ensures
            r.wf(),
            r.values() == self.values().push(value@),
    {
        let mut chain = self;
        chain.update(value);
        chain
    }

    /// Hashes the accumulator with the number of chained values, encoded
    /// big-endian as a field element.
    pub fn finalize(self) -> (r: Felt)
        requires
            self.wf(),
        ensures
            r@ == chain_digest(self.values()),
    {
        let count = Felt::from_u64(self.count);
        pedersen(&self.hash, &count)
    }

    /// The digest of a single value: `H(H(0, v), 1)`.
    pub fn single(value: Felt) -> (r: Felt)
        ensures
            r@ == pedersen_of(pedersen_of(zero_felt(), value@), u64_felt(1)),
    {
        let chain = Self::default().chain_update(value);
        proof {
            assert(chain.values().drop_last() =~= Seq::<Seq<u8>>::empty());
        }
        chain.finalize()
    }
}

impl Default for HashChain {
    /// An empty chain: accumulator zero, no values counted.
    fn default() -> (r: Self)
        ensures
            r.wf(),
            r.values() == Seq::<Seq<u8>>::empty(),
    {
        let r = HashChain { hash: Felt::zero(), count: 0, values: Ghost(Seq::empty()) };
        proof {
            assert(r.values@ =~= Seq::<Seq<u8>>::empty());
            assert(r.hash@ =~= zero_felt());
        }
        r
    }
}

} // verus!
