use vstd::prelude::*;

use crate::error::WhitelistError;
use crate::leaf::{encode_leaf, leaf_bytes};
use crate::merkle::{compute_root, path_root, DIGEST_LEN};

verus! {

/// The commitment record of one distribution.
#[derive(Clone, Copy, Debug, PartialEq, Eq)]
pub struct AirdropState {
    /// Current Merkle root over every entitlement, each in claimed or unclaimed form.
    pub merkle_root: [u8; 32],
    /// The identity allowed to replace the root.
    pub authority: [u8; 32],
    /// The asset being distributed.
    pub mint: [u8; 32],
    /// Units committed when the distribution was created.
    pub airdrop_amount: u64,
    /// Units paid out so far.
    pub amount_claimed: u64,
    /// Address-derivation seed of the record.
    pub bump: u8,
}

/// The record as mathematical values.
pub struct AirdropModel {
    pub merkle_root: Seq<u8>,
    pub authority: Seq<u8>,
    pub mint: Seq<u8>,
    pub airdrop_amount: nat,
    pub amount_claimed: nat,
    pub bump: u8,
}

impl View for AirdropState {
    type V = AirdropModel;

    open spec fn view(&self) -> AirdropModel {
        AirdropModel {
            merkle_root: self.merkle_root@,
            authority: self.authority@,
            mint: self.mint@,
            airdrop_amount: self.airdrop_amount as nat,
            amount_claimed: self.amount_claimed as nat,
            bump: self.bump,
        }
    }
}

impl AirdropModel {
    /// Nothing beyond the allocation has been paid out.
    pub open spec fn wf(self) -> bool {
        self.amount_claimed <= self.airdrop_amount
    }
}

impl AirdropState {
    pub open spec fn wf(&self) -> bool {
        self@.wf()
    }
}

/// The record after paying `amount` out of a record whose root was proved to be
/// `proved_root`, with `advanced_root` as the root over the redeemed leaf.
pub open spec fn settle(
    s: AirdropModel,
    amount: u64,
    proved_root: Seq<u8>,
    advanced_root: Seq<u8>,
) -> Result<AirdropModel, WhitelistError> {
    if proved_root != s.merkle_root {
        Err(WhitelistError::InvalidProof)
    } else if s.amount_claimed + amount > s.airdrop_amount {
        Err(WhitelistError::OverFlow)
    } else {
        Ok(AirdropModel { merkle_root: advanced_root, amount_claimed: s.amount_claimed + amount as nat, ..s })
    }
}

/// The outcome of a claim by `signer` of `amount`, with sibling path `path` at `index`
/// in a tree of the agreed `depth`: the path must hold exactly `depth` digests, the
/// unclaimed leaf must reduce to the stored root, and the root then moves to the one
/// the claimed leaf reduces to through the same path.
pub open spec fn claim_transition(
    s: AirdropModel,
    signer: Seq<u8>,
    amount: u64,
    path: Seq<u8>,
    index: u64,
    depth: nat,
) -> Result<AirdropModel, WhitelistError> {
    if path.len() != depth * DIGEST_LEN {
        Err(WhitelistError::MalformedInput)
    } else {
        settle(
            s,
            amount,
            path_root(leaf_bytes(signer, amount, false), path, index as nat),
            path_root(leaf_bytes(signer, amount, true), path, index as nat),
        )
    }
}

/// `r` and the record after the call follow the transition `t`; a failure leaves
/// the record as it was.
pub open spec fn follows(
    t: Result<AirdropModel, WhitelistError>,
    r: Result<(), WhitelistError>,
    before: AirdropState,
    after: AirdropState,
) -> bool {
    match t {
        Ok(m) => r == Ok::<(), WhitelistError>(()) && after@ == m,
        Err(e) => r == Err::<(), WhitelistError>(e) && after == before,
    }
}

/// Creates the record of a new distribution with nothing claimed yet.
///
/// Minting `amount` units into the record's custody and revoking the mint authority
/// are the ledger's part of the same transaction.
pub fn initialize_airdrop_data(
    merkle_root: [u8; 32],
    authority: [u8; 32],
    mint: [u8; 32],
    amount: u64,
    bump: u8,
) -> (s: AirdropState)
    ensures
        s.merkle_root == merkle_root,
        s.authority == authority,
        s.mint == mint,
        s.airdrop_amount == amount,
        s.amount_claimed == 0,
        s.bump == bump,
        s.wf(),
{
    AirdropState { merkle_root, authority, mint, airdrop_amount: amount, amount_claimed: 0, bump }
}

/// Replaces the root when `caller` is the stored authority, with no check against
/// what was claimed: an administrative escape hatch that can leave `amount_claimed`
/// out of step with the tree if misused.
pub fn update_tree(state: &mut AirdropState, caller: &[u8; 32], new_root: [u8; 32]) -> (r: Result<
    (),
    WhitelistError,
>)
    ensures
        caller@ == old(state).authority@ ==> r == Ok::<(), WhitelistError>(()) && *final(state)
            == (AirdropState { merkle_root: new_root, ..*old(state) }),
        caller@ != old(state).authority@ ==> r == Err::<(), WhitelistError>(
            WhitelistError::Unauthorized,
        ) && *final(state) == *old(state),
{
    if !digests_equal(caller, &state.authority) {
        return Err(WhitelistError::Unauthorized);
    }
    state.merkle_root = new_root;
    Ok(())
}

/// Whether two 32-byte values are equal.
fn digests_equal(a: &[u8; 32], b: &[u8; 32]) -> (r: bool)
    ensures
        r == (a@ == b@),
{
    let mut i: usize = 0;
    while i < DIGEST_LEN
        invariant
            i <= DIGEST_LEN,
            a@.len() == DIGEST_LEN && b@.len() == DIGEST_LEN,
            a@.subrange(0, i as int) == b@.subrange(0, i as int),
        decreases DIGEST_LEN - i,
    {
        if a[i] != b[i] {
            assert(a@[i as int] != b@[i as int]);
            return false;
        }
        i = i + 1;
        assert(a@.subrange(0, i as int) =~= a@.subrange(0, i - 1) + seq![a@[i - 1]]);
        assert(b@.subrange(0, i as int) =~= b@.subrange(0, i - 1) + seq![b@[i - 1]]);
    }
    assert(a@ =~= a@.subrange(0, DIGEST_LEN as int));
    assert(b@ =~= b@.subrange(0, DIGEST_LEN as int));
    true
}

/// Settles a claim whose two roots are already computed: `proved_root` from the
/// unclaimed leaf, `advanced_root` from the claimed one. On success the ledger
/// transfers `amount` from custody to the claimant.
pub fn settle_claim(
    state: &mut AirdropState,
    amount: u64,
    proved_root: &[u8; 32],
    advanced_root: [u8; 32],
) -> (r: Result<(), WhitelistError>)
    requires
        old(state).wf(),
    ensures
        final(state).wf(),
        follows(settle(old(state)@, amount, proved_root@, advanced_root@), r, *old(state), *final(state)),
{
    if !digests_equal(proved_root, &state.merkle_root) {
        return Err(WhitelistError::InvalidProof);
    }
    if amount > state.airdrop_amount - state.amount_claimed {
        return Err(WhitelistError::OverFlow);
    }
    state.merkle_root = advanced_root;
    state.amount_claimed = state.amount_claimed + amount;
    Ok(())
}

/// Redeems the entitlement of `signer` to `amount`, proved by the sibling path
/// `hashes` (one 32-byte digest per level, leaf level first) at `index`, in a tree of
/// the `depth` agreed when the distribution was built.
///
/// A wrong amount, a wrong path and an entitlement already redeemed all fail with
/// `InvalidProof`; a path that does not hold exactly `depth` 32-byte digests fails
/// with `MalformedInput`, and a payout past the allocation with `OverFlow`. On success
/// the ledger transfers `amount` from custody to the signer; on any failure the
/// record is unchanged.
pub fn claim_airdrop(
    state: &mut AirdropState,
    signer: &[u8; 32],
    amount: u64,
    hashes: Vec<u8>,
    index: u64,
    depth: usize,
) -> (r: Result<(), WhitelistError>)
    requires
        old(state).wf(),
    ensures
        final(state).wf(),
        follows(claim_transition(old(state)@, signer@, amount, hashes@, index, depth as nat), r, *old(state), *final(state)),
{
    let unclaimed = encode_leaf(signer, amount, false);
    let proved_root = match compute_root(unclaimed.as_slice(), hashes.as_slice(), index, depth) {
        Ok(root) => root,
        Err(e) => return Err(e),
    };
    let claimed = encode_leaf(signer, amount, true);
    let advanced_root = match compute_root(claimed.as_slice(), hashes.as_slice(), index, depth) {
        Ok(root) => root,
        Err(e) => return Err(e),
    };
    settle_claim(state, amount, &proved_root, advanced_root)
}

/// One claim as submitted: claimant, amount, sibling path, leaf index and the
/// agreed tree depth.
pub struct ClaimRequest {
    pub signer: Seq<u8>,
    pub amount: u64,
    pub path: Seq<u8>,
    pub index: u64,
    pub depth: nat,
}

/// The record after one submitted claim: the transition on success, the record
/// unchanged when the claim fails and its transaction aborts.
pub open spec fn apply_claim(s: AirdropModel, req: ClaimRequest) -> AirdropModel {
    match claim_transition(s, req.signer, req.amount, req.path, req.index, req.depth) {
        Ok(t) => t,
        Err(_) => s,
    }
}

/// The record after the claims of `reqs`, in order.
pub open spec fn apply_claims(s: AirdropModel, reqs: Seq<ClaimRequest>) -> AirdropModel
    decreases reqs.len(),
{
    if reqs.len() == 0 {
        s
    } else {
        apply_claim(apply_claims(s, reqs.drop_last()), reqs.last())
    }
}

/// Over any sequence of claims the claimed total never decreases and never passes
/// the allocation, and authority, asset and allocation stay as they were.
pub proof fn lemma_claims_accounting(s: AirdropModel, reqs: Seq<ClaimRequest>)
    requires
        s.wf(),
    ensures
        ({
            let t = apply_claims(s, reqs);
            &&& t.wf()
            &&& s.amount_claimed <= t.amount_claimed
            &&& t.airdrop_amount == s.airdrop_amount
            &&& t.authority == s.authority
            &&& t.mint == s.mint
        }),
    decreases reqs.len(),
{
    if reqs.len() > 0 {
        lemma_claims_accounting(s, reqs.drop_last());
    }
}

/// A claim that succeeded cannot be replayed: resubmitting the same claimant,
/// amount, path and index fails with `InvalidProof`, because the stored root is now
/// the one over the claimed leaf. This holds wherever the claimed and unclaimed
/// leaves reduce to different roots, which a Keccak-256 collision alone could break.
pub proof fn lemma_claim_not_replayable(
    s: AirdropModel,
    signer: Seq<u8>,
    amount: u64,
    path: Seq<u8>,
    index: u64,
    depth: nat,
)
    requires
        claim_transition(s, signer, amount, path, index, depth) is Ok,
        path_root(leaf_bytes(signer, amount, false), path, index as nat) != path_root(
            leaf_bytes(signer, amount, true),
            path,
            index as nat,
        ),
    ensures
        claim_transition(
            claim_transition(s, signer, amount, path, index, depth)->Ok_0,
            signer,
            amount,
            path,
            index,
            depth,
        ) == Err::<AirdropModel, WhitelistError>(WhitelistError::InvalidProof),
{
}

/// A claim of an amount other than the one the tree was built with fails with
/// `InvalidProof`, never with an error of its own, and so leaves the record as it
/// was. This holds wherever the leaves with the two amounts reduce to different
/// roots, which a Keccak-256 collision alone could break.
pub proof fn lemma_wrong_amount_rejected(
    s: AirdropModel,
    signer: Seq<u8>,
    built_amount: u64,
    amount: u64,
    path: Seq<u8>,
    index: u64,
    depth: nat,
)
    requires
        path.len() == depth * DIGEST_LEN,
        s.merkle_root == path_root(leaf_bytes(signer, built_amount, false), path, index as nat),
        path_root(leaf_bytes(signer, amount, false), path, index as nat) != path_root(
            leaf_bytes(signer, built_amount, false),
            path,
            index as nat,
        ),
    ensures
        claim_transition(s, signer, amount, path, index, depth) == Err::<
            AirdropModel,
            WhitelistError,
        >(WhitelistError::InvalidProof),
{
}

} // verus!
