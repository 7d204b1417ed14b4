//! A binary-and-policy attestation library for cooperating services.
//!
//! Build-time components fingerprint the information-flow policy
//! implementations of each crate, roll dependency fingerprints into a
//! per-crate summary hash, and bind `(service, policy hash, binary hash)`
//! triples into signed certificates.  Runtime components re-hash launched
//! binaries, answer attestation requests with signed reports, broker
//! ephemeral session keys into each attested process over an encrypted
//! local pipe, and verify reports on the client side.

pub mod client;
pub mod configmodel;
pub mod context;
pub mod crypto;
pub mod decimal;
pub mod documents;
pub mod errors;
pub mod fifoline;
pub mod hexcode;
pub mod ingress;
pub mod issuer;
pub mod jsoncode;
pub mod order;
pub mod rollup;
pub mod sidecar;
pub mod store;
pub mod strbytes;
pub mod types;

pub use errors::{AttestErrors, AttestResult};
