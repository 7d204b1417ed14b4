//! The error taxonomy shared by every component of the library.

use vstd::prelude::*;

verus! {

/// Every failure surfaced by the attestation components.
///
/// Build-time tools treat any of these as fatal; the sidecar returns them
/// per call; the client verifier folds every verification sub-failure into
/// `InvalidAttestation` so that a caller cannot tell which check failed.
#[derive(Debug, Clone, Copy, PartialEq, Eq, Structural)]
pub enum AttestErrors {
    /// A file was missing, unreadable, or held no usable data.
    IoError,
    /// A certificate's embedded service name disagrees with the lookup key.
    ServiceMismatchError,
    /// The attestation RPC transport failed.
    NetworkError,
    /// A serialized document could not be decoded.
    AttestDataMalformedError,
    /// A configuration document was malformed or incomplete.
    ConfigError,
    /// Random generation or an AEAD primitive failed.
    CryptoError,
    /// A signature, hash, or certificate comparison failed.
    InvalidAttestation,
}

pub type AttestResult<T> = Result<T, AttestErrors>;

} // verus!
