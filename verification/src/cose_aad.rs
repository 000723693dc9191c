//! COSE_Sign1 domain separation through `external_aad` (RFC 9052, section
//! 4.3): the AAD values of each FDO 2.0 signing context, the Sig_structure
//! that is signed, and the protected header naming the algorithm.
//!
//! Each AAD value is the CBOR encoding of a one-element array holding the
//! context's domain tag, a text string.

use vstd::prelude::*;

use crate::cbor::{cbor_array_head, cbor_bytes, cbor_int, cbor_map_head, cbor_text};
use crate::Error;

verus! {

/// `serde_cbor::to_vec` on a one-element `Vec<&str>`. serde_cbor writes the
/// array head with its definite length and the string as a text string,
/// each head in the shortest form, into a `Vec`, which cannot fail.
#[verifier::external_body]
fn serde_cbor_text_array1(tag: &str) -> (r: Option<Vec<u8>>)
    ensures
        r is Some,
        r matches Some(v) ==> v@ == cbor_array_head(1) + cbor_text(tag@),
{
    serde_cbor::to_vec(&vec![tag]).ok()
}

/// `serde_cbor::to_vec` on the tuple `(context, ByteBuf, ByteBuf, ByteBuf)`.
/// A tuple becomes an array of definite length; `ByteBuf` a byte string;
/// writing into a `Vec` cannot fail.
#[verifier::external_body]
fn serde_cbor_sig_structure(context: &str, a: &[u8], b: &[u8], c: &[u8]) -> (r: Option<Vec<u8>>)
    ensures
        r is Some,
        r matches Some(v) ==> v@ == cbor_array_head(4) + cbor_text(context@) + cbor_bytes(a@)
            + cbor_bytes(b@) + cbor_bytes(c@),
{
    serde_cbor::to_vec(
        &(
            context,
            serde_bytes::ByteBuf::from(a.to_vec()),
            serde_bytes::ByteBuf::from(b.to_vec()),
            serde_bytes::ByteBuf::from(c.to_vec()),
        ),
    ).ok()
}

/// `serde_cbor::to_vec` on a `BTreeMap<Value, Value>` holding the single
/// pair `Integer(key) => Integer(value)`. A map becomes a map of definite
/// length; an integer is written as major type 0 or 1 in the shortest
/// form; writing into a `Vec` cannot fail.
#[verifier::external_body]
fn serde_cbor_int_map1(key: i8, value: i8) -> (r: Option<Vec<u8>>)
    ensures
        r is Some,
        r matches Some(v) ==> v@ == cbor_map_head(1) + cbor_int(key as int) + cbor_int(value as int),
{
    let mut map = std::collections::BTreeMap::new();
    map.insert(serde_cbor::Value::Integer(key.into()), serde_cbor::Value::Integer(value.into()));
    serde_cbor::to_vec(&map).ok()
}

/// The AAD of a signing context: the CBOR array holding its domain tag.
pub open spec fn domain_aad(tag: Seq<char>) -> Seq<u8> {
    cbor_array_head(1) + cbor_text(tag)
}

/// The CBOR encoding of `[tag]`.
fn encode_domain_aad(tag: &str) -> (r: Vec<u8>)
    ensures
        r@ == domain_aad(tag@),
{
    match serde_cbor_text_array1(tag) {
        Some(v) => v,
        None => {
            proof {
                assert(false);
            }
            Vec::new()
        },
    }
}

/// AAD for TO0.OwnerSign (the TO1d blob) and voucher entry signing.
pub fn aad_owner_sign() -> (r: Vec<u8>)
    ensures
        r@ == domain_aad("FDO-TO0-OwnerSign-v1"@),
{
    encode_domain_aad("FDO-TO0-OwnerSign-v1")
}

/// AAD for TO1.ProveToRV.
pub fn aad_prove_to_rv() -> (r: Vec<u8>)
    ensures
        r@ == domain_aad("FDO-TO1-ProveToRV-v1"@),
{
    encode_domain_aad("FDO-TO1-ProveToRV-v1")
}

/// AAD for TO2.ProveDevice20.
pub fn aad_prove_device() -> (r: Vec<u8>)
    ensures
        r@ == domain_aad("FDO-TO2-ProveDevice-v1"@),
{
    encode_domain_aad("FDO-TO2-ProveDevice-v1")
}

/// AAD for TO2.ProveOVHdr20.
pub fn aad_prove_ov_hdr() -> (r: Vec<u8>)
    ensures
        r@ == domain_aad("FDO-TO2-ProveOVHdr-v1"@),
{
    encode_domain_aad("FDO-TO2-ProveOVHdr-v1")
}

/// AAD for ownership voucher entries.
pub fn aad_ov_entry() -> (r: Vec<u8>)
    ensures
        r@ == domain_aad("FDO-OVEntry-v1"@),
{
    encode_domain_aad("FDO-OVEntry-v1")
}

/// The Sig_structure of a COSE_Sign1 with external AAD:
/// `["Signature1", body_protected, external_aad, payload]`, four items
/// (a Sign1 has no sign_protected).
pub open spec fn sig1_structure(body_protected: Seq<u8>, external_aad: Seq<u8>, payload: Seq<u8>) -> Seq<
    u8,
> {
    cbor_array_head(4) + cbor_text("Signature1"@) + cbor_bytes(body_protected) + cbor_bytes(
        external_aad,
    ) + cbor_bytes(payload)
}

/// Build the Sig_structure bytes that a COSE_Sign1 signature covers.
pub fn sig1_structure_bytes(body_protected: &[u8], external_aad: &[u8], payload: &[u8]) -> (r:
    Result<Vec<u8>, Error>)
    ensures
        r matches Ok(v) && v@ == sig1_structure(body_protected@, external_aad@, payload@),
{
    match serde_cbor_sig_structure("Signature1", body_protected, external_aad, payload) {
        Some(v) => Ok(v),
        None => Err(Error::new("CBOR encoding of Sig_structure failed")),
    }
}

/// The protected header map of a signature: `{1: alg}` (label 1 is the
/// algorithm).
pub open spec fn protected_header(sig_alg_cbor_id: i8) -> Seq<u8> {
    cbor_map_head(1) + cbor_int(1) + cbor_int(sig_alg_cbor_id as int)
}

/// Serialize a protected header holding only the signature algorithm.
pub fn serialize_protected_header(sig_alg_cbor_id: i8) -> (r: Result<Vec<u8>, Error>)
    ensures
        r matches Ok(v) && v@ == protected_header(sig_alg_cbor_id),
{
    match serde_cbor_int_map1(1, sig_alg_cbor_id) {
        Some(v) => Ok(v),
        None => Err(Error::new("CBOR encoding of protected header failed")),
    }
}

} // verus!
