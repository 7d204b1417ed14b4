//! The per-call RPC context and the self-describing value shape that
//! RPC payload types reduce themselves to.

use vstd::prelude::*;

use vstd::string::StringExecFns;

use crate::errors::AttestErrors;

verus! {

/// A self-describing RPC value: either a plain rendered value or a
/// named structure of fields.
pub enum TahiniEnum {
    Value(String),
    Structure(String, Vec<(String, TahiniEnum)>),
}

/// A payload type that can describe itself for the RPC layer.
pub trait TahiniType {
    fn to_tahini_enum(&self) -> TahiniEnum;
}

/// An error type that can describe itself for the RPC layer.
pub trait TahiniError {
    fn error_text(&self) -> String;
}

impl TahiniError for AttestErrors {
    fn error_text(&self) -> String {
        match self {
            AttestErrors::IoError => String::from_str("io error"),
            AttestErrors::ServiceMismatchError => String::from_str("service mismatch"),
            AttestErrors::NetworkError => String::from_str("network error"),
            AttestErrors::AttestDataMalformedError => String::from_str(
                "attestation data malformed",
            ),
            AttestErrors::ConfigError => String::from_str("configuration error"),
            AttestErrors::CryptoError => String::from_str("cryptographic failure"),
            AttestErrors::InvalidAttestation => String::from_str("invalid attestation"),
        }
    }
}

/// Which service and procedure an RPC call addresses.
#[derive(Debug)]
pub struct TahiniContext {
    pub service: String,
    pub rpc: String,
}

impl TahiniContext {
    /// Builds the context for one call.
    pub fn new(service: &str, rpc: &str) -> (r: TahiniContext)
        ensures
            r.service@ == service@,
            r.rpc@ == rpc@,
    {
        TahiniContext { service: String::from_str(service), rpc: String::from_str(rpc) }
    }
}

impl Clone for TahiniContext {
    fn clone(&self) -> (r: Self)
        ensures
            r.service@ == self.service@,
            r.rpc@ == self.rpc@,
    {
        TahiniContext { service: self.service.clone(), rpc: self.rpc.clone() }
    }
}

impl TahiniType for TahiniContext {
    fn to_tahini_enum(&self) -> TahiniEnum {
        let mut fields: Vec<(String, TahiniEnum)> = Vec::new();
        fields.push((String::from_str("service"), TahiniEnum::Value(self.service.clone())));
        fields.push((String::from_str("rpc"), TahiniEnum::Value(self.rpc.clone())));
        TahiniEnum::Structure(String::from_str("TahiniContext"), fields)
    }
}

} // verus!
