use blocksync::chain::HashChain;
use blocksync::felt::Felt;

#[test]
fn test_non_empty_chain() {
    let mut chain = HashChain::default();

    chain.update(Felt::from_hex_str("0x1").unwrap());
    chain.update(Felt::from_hex_str("0x2").unwrap());
    chain.update(Felt::from_hex_str("0x3").unwrap());
    chain.update(Felt::from_hex_str("0x4").unwrap());

    let computed_hash = chain.finalize();

    // produced by the cairo-lang Python implementation:
    // `hex(compute_hash_on_elements([1, 2, 3, 4]))`
    let expected_hash =
        Felt::from_hex_str("0x66bd4335902683054d08a0572747ea78ebd9e531536fb43125424ca9f902084")
            .unwrap();

    assert_eq!(expected_hash, computed_hash);
}

#[test]
fn single_matches_manual_chain() {
    let v = Felt::from_hex_str("0x5").unwrap();
    let manual = HashChain::default().chain_update(v).finalize();
    assert_eq!(HashChain::single(v), manual);
}

#[test]
fn single_is_not_the_input() {
    // The digest differs from the value hashed, so the hash call is not a
    // pass-through.
    let v = Felt::from_hex_str("0x5").unwrap();
    assert_ne!(HashChain::single(v), v);
}

#[test]
fn empty_chain_digest_depends_on_count() {
    // An empty chain's digest is H(0, 0), which is not the zero element.
    let empty = HashChain::default().finalize();
    assert_ne!(empty, Felt::zero());
    // Chains of different lengths over the same running values differ.
    let one = HashChain::default().chain_update(Felt::zero()).finalize();
    assert_ne!(empty, one);
}
