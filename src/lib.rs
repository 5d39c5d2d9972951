//! Merkle-committed token claims: a distributing authority commits to a list of
//! (claimant, amount) entitlements through a single 32-byte root, and each claimant
//! proves membership and marks the entitlement redeemed by advancing that root.

pub mod error;
pub mod leaf;
pub mod merkle;
pub mod airdrop;

pub use airdrop::{
    claim_airdrop, initialize_airdrop_data, settle_claim, update_tree, AirdropState,
};
pub use error::WhitelistError;
pub use leaf::encode_leaf;
pub use merkle::compute_root;
