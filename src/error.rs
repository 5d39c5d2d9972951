use vstd::prelude::*;

verus! {

/// The failures of the claim protocol.
#[derive(Clone, Copy, Debug, PartialEq, Eq, Structural)]
pub enum WhitelistError {
    /// The leaf and sibling path do not reduce to the stored root: the claimant is
    /// not entitled to that amount, or the entitlement was already redeemed.
    InvalidProof,
    /// Kept for callers that match on it; the protocol reports a repeated claim as
    /// `InvalidProof`, since a redeemed leaf no longer reduces to the stored root.
    AlreadyClaimed,
    /// Paying the amount would take the claimed total past the allocation.
    OverFlow,
    /// Someone other than the stored authority tried to replace the root.
    Unauthorized,
    /// A sibling path whose length is not a whole number of 32-byte digests, or
    /// that disagrees with the configured depth.
    MalformedInput,
}

impl WhitelistError {
    /// A short human-readable message for the error.
    pub fn message(&self) -> (r: String)
        ensures
            *self == WhitelistError::InvalidProof ==> r@ == "Invalid Merkle proof"@,
            *self == WhitelistError::AlreadyClaimed ==> r@ == "Already claimed"@,
            *self == WhitelistError::OverFlow ==> r@ == "Amount overflow"@,
            *self == WhitelistError::Unauthorized ==> r@ == "Caller is not the authority"@,
            *self == WhitelistError::MalformedInput ==> r@ == "Malformed proof input"@,
    {
        match self {
            WhitelistError::InvalidProof => String::from_str("Invalid Merkle proof"),
            WhitelistError::AlreadyClaimed => String::from_str("Already claimed"),
            WhitelistError::OverFlow => String::from_str("Amount overflow"),
            WhitelistError::Unauthorized => String::from_str("Caller is not the authority"),
            WhitelistError::MalformedInput => String::from_str("Malformed proof input"),
        }
    }
}

} // verus!
