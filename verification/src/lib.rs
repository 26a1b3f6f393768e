//! Stake-weighted quorum certificates and batched attestation checks for a
//! permissioned validator network.
//!
//! Validators sign a message; their signatures are folded into a compact
//! certificate that names the signers; a verification obligation collects
//! any number of such certificates and checks all signatures in one batch.
//! No message counts as certified unless signers holding enough stake
//! attest to it.
//!
//! Cryptography, hashing and the compressed signer set come from other
//! crates. Each call into them sits in a small function whose contract is
//! taken on trust; those functions, and the declarations of the other
//! crates' types, are in [`bls`], [`ed25519`], [`hash`], [`bitmap`],
//! [`encoding`], [`keys`], [`sign_info`] and [`signable`]. Everything else
//! is proved against the contracts stated here.
pub mod authority;
pub mod base_types;
pub mod bitmap;
pub mod bls;
pub mod bytes;
pub mod committee;
pub mod ed25519;
pub mod encoding;
pub mod error;
pub mod gas;
pub mod hash;
pub mod keys;
pub mod obligation;
mod private;
pub mod quorum;
pub mod sign_info;
pub mod signable;
pub mod signature;
pub mod sorting;
