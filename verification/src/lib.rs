//! FIDO Device Onboard (FDO 2.0) data formats: protocol constants, core
//! value types, protocol messages, ownership vouchers and the COSE
//! domain-separation helpers, with their contracts proved by Verus.

use vstd::prelude::*;

pub mod cbor;
pub mod cbor_scan;
pub mod cbor_write;
pub mod bmo;
pub mod cbor_value;
pub mod constants;
pub mod cose;
pub mod cose_aad;
pub mod csr;
pub mod text;
pub mod serviceinfo_names;
pub mod serviceinfo;
pub mod types;
pub mod ownershipvoucher;
pub mod kex;
pub mod onboarding;
pub mod tpm;
pub mod credential;
pub mod messages;
pub mod messages_uefi;
pub mod manufacturing;

verus! {

/// The library's error: a human readable message.
#[derive(Debug, Clone)]
pub struct Error(pub String);

impl Error {
    /// Build an error carrying `msg`.
    pub fn new(msg: &str) -> (e: Error)
        ensures
            e.0@ == msg@,
    {
        Error(String::from_str(msg))
    }
}

/// Whether the interoperable key derivation function may be used.
/// The firmware build has no environment to force the other one, so it
/// always may.
pub fn interoperable_kdf_available() -> (r: bool)
    ensures
        r,
{
    true
}

} // verus!

pub use crate::constants::ProtocolVersion;
pub use crate::ownershipvoucher::Serializable;
