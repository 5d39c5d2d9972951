use vstd::prelude::*;

use crate::error::WhitelistError;

verus! {

/// Width in bytes of a digest, and of each sibling in a proof path.
pub const DIGEST_LEN: usize = 32;

/// The Keccak-256 digest of a byte string.
pub uninterp spec fn keccak256(data: Seq<u8>) -> Seq<u8>;

/// Relies on sha3::Keccak256 (through `Digest::digest`): the 32-byte Keccak-256
/// digest of `data`, a function of the bytes alone.
#[verifier::external_body]
fn keccak(data: &[u8]) -> (r: [u8; 32])
    ensures
        r@ == keccak256(data@),
{
    <sha3::Keccak256 as sha3::Digest>::digest(data).into()
}

/// The parent of `node` and its `sibling`; `node_is_right` says on which side of
/// the pair `node` stands.
pub open spec fn parent_digest(node: Seq<u8>, sibling: Seq<u8>, node_is_right: bool) -> Seq<u8> {
    if node_is_right {
        keccak256(sibling + node)
    } else {
        keccak256(node + sibling)
    }
}

/// Climbs from `node` through the 32-byte siblings of `path`, nearest level first;
/// the lowest bit of `index` places the node at each level, then shifts out.
pub open spec fn climb(node: Seq<u8>, path: Seq<u8>, index: nat) -> Seq<u8>
    decreases path.len(),
{
    if path.len() < DIGEST_LEN {
        node
    } else {
        climb(
            parent_digest(node, path.subrange(0, DIGEST_LEN as int), index % 2 == 1),
            path.subrange(DIGEST_LEN as int, path.len() as int),
            index / 2,
        )
    }
}

/// The root that a leaf and its sibling path reduce to.
pub open spec fn path_root(leaf: Seq<u8>, path: Seq<u8>, index: nat) -> Seq<u8> {
    climb(keccak256(leaf), path, index)
}

/// Appends `src[from..to]` to `out`.
fn push_range(out: &mut Vec<u8>, src: &[u8], from: usize, to: usize)
    requires
        from <= to <= src@.len(),
    ensures
        final(out)@ == old(out)@ + src@.subrange(from as int, to as int),
{
    let mut i: usize = from;
    while i < to
        invariant
            from <= i <= to <= src@.len(),
            out@ == old(out)@ + src@.subrange(from as int, i as int),
        decreases to - i,
    {
        out.push(src[i]);
        i = i + 1;
        assert(out@ =~= old(out)@ + src@.subrange(from as int, i as int));
    }
}

/// The digest of `node` paired with the sibling at `path[off..off + 32]`.
fn parent_of(node: &[u8; 32], path: &[u8], off: usize, node_is_right: bool) -> (r: [u8; 32])
    requires
        off + DIGEST_LEN <= path@.len(),
    ensures
        r@ == parent_digest(
            node@,
            path@.subrange(off as int, off + DIGEST_LEN),
            node_is_right,
        ),
{
    proof {
        assert(path@.len() == path.len());
    }
    let mut buf: Vec<u8> = Vec::new();
    if node_is_right {
        push_range(&mut buf, path, off, off + DIGEST_LEN);
        push_range(&mut buf, node, 0, DIGEST_LEN);
    } else {
        push_range(&mut buf, node, 0, DIGEST_LEN);
        push_range(&mut buf, path, off, off + DIGEST_LEN);
    }
    assert(node@.subrange(0, DIGEST_LEN as int) =~= node@);
    keccak(buf.as_slice())
}

/// Recomputes the root from a leaf, its sibling path and its index.
///
/// The path holds one 32-byte digest per level, leaf level first; the lowest bit of
/// `index` says whether the leaf is the right (1) or left (0) child. The path must
/// hold exactly `depth` digests, else the input is malformed.
pub fn compute_root(leaf: &[u8], path: &[u8], index: u64, depth: usize) -> (r: Result<
    [u8; 32],
    WhitelistError,
>)
    ensures
        match r {
            Ok(root) => path@.len() == depth * DIGEST_LEN && root@ == path_root(
                leaf@,
                path@,
                index as nat,
            ),
            Err(e) => path@.len() != depth * DIGEST_LEN && e == WhitelistError::MalformedInput,
        },
{
    if path.len() / DIGEST_LEN != depth || path.len() % DIGEST_LEN != 0 {
        return Err(WhitelistError::MalformedInput);
    }
    let mut current: [u8; 32] = keccak(leaf);
    let mut idx: u64 = index;
    let mut off: usize = 0;
    assert(path@.subrange(0, path@.len() as int) =~= path@);
    while off < path.len()
        invariant
            off <= path@.len(),
            off % DIGEST_LEN == 0,
            path@.len() % (DIGEST_LEN as nat) == 0,
            climb(current@, path@.subrange(off as int, path@.len() as int), idx as nat)
                == path_root(leaf@, path@, index as nat),
        decreases path@.len() - off,
    {
        let ghost rest = path@.subrange(off as int, path@.len() as int);
        current = parent_of(&current, path, off, idx % 2 == 1);
        assert(rest.subrange(0, DIGEST_LEN as int) =~= path@.subrange(
            off as int,
            off + DIGEST_LEN,
        ));
        assert(rest.subrange(DIGEST_LEN as int, rest.len() as int) =~= path@.subrange(
            off + DIGEST_LEN,
            path@.len() as int,
        ));
        idx = idx / 2;
        off = off + DIGEST_LEN;
    }
    assert(path@.subrange(path@.len() as int, path@.len() as int).len() == 0);
    Ok(current)
}

} // verus!
