use vstd::prelude::*;

verus! {

/// Width in bytes of a claimant identity.
pub const CLAIMANT_LEN: usize = 32;

/// Width in bytes of an encoded leaf: claimant, amount, claimed flag.
pub const LEAF_LEN: usize = 41;

/// The `n` lowest bytes of `x`, least significant first.
pub open spec fn le_bytes(x: nat, n: nat) -> Seq<u8>
    decreases n,
{
    if n == 0 {
        Seq::empty()
    } else {
        seq![(x % 256) as u8] + le_bytes(x / 256, (n - 1) as nat)
    }
}

/// The byte of the claimed flag: 1 once redeemed, 0 before.
pub open spec fn flag_byte(claimed: bool) -> u8 {
    if claimed { 1u8 } else { 0u8 }
}

/// The leaf layout: `claimant || amount (8 bytes, little-endian) || claimed flag`.
pub open spec fn leaf_bytes(claimant: Seq<u8>, amount: u64, claimed: bool) -> Seq<u8> {
    claimant + le_bytes(amount as nat, 8) + seq![flag_byte(claimed)]
}

proof fn lemma_le_bytes_len(x: nat, n: nat)
    ensures
        le_bytes(x, n).len() == n,
    decreases n,
{
    if n > 0 {
        lemma_le_bytes_len(x / 256, (n - 1) as nat);
    }
}

/// Encodes a claim leaf in the wire layout that externally built trees hash.
pub fn encode_leaf(claimant: &[u8; 32], amount: u64, claimed: bool) -> (r: Vec<u8>)
    ensures
        r@ == leaf_bytes(claimant@, amount, claimed),
        r@.len() == LEAF_LEN,
{
    let mut out: Vec<u8> = Vec::new();
    let mut i: usize = 0;
    while i < CLAIMANT_LEN
        invariant
            i <= CLAIMANT_LEN,
            claimant@.len() == CLAIMANT_LEN,
            out@ == claimant@.subrange(0, i as int),
        decreases CLAIMANT_LEN - i,
    {
        out.push(claimant[i]);
        i = i + 1;
        assert(out@ =~= claimant@.subrange(0, i as int));
    }
    assert(out@ =~= claimant@);
    let mut v: u64 = amount;
    let mut k: usize = 0;
    while k < 8
        invariant
            k <= 8,
            out@ + le_bytes(v as nat, (8 - k) as nat) == claimant@ + le_bytes(amount as nat, 8),
        decreases 8 - k,
    {
        let ghost before = out@;
        out.push((v % 256) as u8);
        assert(le_bytes(v as nat, (8 - k) as nat) == seq![(v % 256) as u8] + le_bytes(
            (v / 256) as nat,
            (8 - k - 1) as nat,
        ));
        assert(out@ + le_bytes((v / 256) as nat, (8 - k - 1) as nat) =~= before + le_bytes(
            v as nat,
            (8 - k) as nat,
        ));
        v = v / 256;
        k = k + 1;
    }
    assert(out@ =~= claimant@ + le_bytes(amount as nat, 8));
    out.push(if claimed { 1u8 } else { 0u8 });
    proof {
        lemma_le_bytes_len(amount as nat, 8);
    }
    out
}

/// Changing only the claimed flag changes only the last byte of the encoded leaf.
pub proof fn lemma_flag_changes_only_last_byte(claimant: Seq<u8>, amount: u64)
    requires
        claimant.len() == CLAIMANT_LEN,
    ensures
        ({
            let unclaimed = leaf_bytes(claimant, amount, false);
            let claimed = leaf_bytes(claimant, amount, true);
            &&& unclaimed.len() == claimed.len() == LEAF_LEN
            &&& unclaimed.drop_last() == claimed.drop_last()
            &&& unclaimed.last() != claimed.last()
            &&& unclaimed != claimed
        }),
{
    lemma_le_bytes_len(amount as nat, 8);
    let unclaimed = leaf_bytes(claimant, amount, false);
    let claimed = leaf_bytes(claimant, amount, true);
    assert(unclaimed.drop_last() =~= claimant + le_bytes(amount as nat, 8));
    assert(claimed.drop_last() =~= claimant + le_bytes(amount as nat, 8));
    assert(unclaimed.last() == 0u8);
    assert(claimed.last() == 1u8);
}

} // verus!
