//! Error conditions reported by signature handling and certificate checks.
use crate::committee::EpochId;
use vstd::prelude::*;

verus! {

/// Every failure is terminal for the attempt that produced it: inputs are
/// deterministic, so retrying the same call yields the same error.
#[derive(Clone, Copy, Debug, PartialEq, Eq, Structural)]
pub enum SuiError {
    /// Identity or public-key bytes are malformed, or a message slot does not exist.
    InvalidAddress,
    /// A cryptographic check failed, aggregation rejected its inputs, or an
    /// encoded signature has the wrong length or an unknown scheme flag.
    InvalidSignature,
    /// The signature was made under a key that does not belong to the claimed signer.
    IncorrectSigner,
    /// An identity or signer index is not part of the committee, or carries no stake.
    UnknownSigner,
    /// The certificate was produced for another epoch than the committee's.
    WrongEpoch { expected_epoch: EpochId },
    /// The signers' accumulated stake is below the required threshold.
    CertificateRequiresQuorum,
    /// Key material could not be parsed.
    InvalidKeypair,
}

pub type SuiResult<T = ()> = Result<T, SuiError>;

} // verus!
