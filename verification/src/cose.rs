//! Checking COSE_Sign1 signatures (RFC 9052) made with ES256 or ES384: the
//! structure's parts and algorithm are read here, the Sig_structure is
//! built here, and OpenSSL checks the ECDSA signature over it with the
//! signer's SubjectPublicKeyInfo.

use vstd::prelude::*;

use crate::cbor::{cbor_bytes, cbor_head, cbor_map_head};
use crate::cbor_scan::{
    array_elements, bytes_of, cbor_head_of, int_of, map_items, parts_view, read_bytes, read_head,
    read_int, read_uint, split_array, split_map, uint_of, MAX_NESTING,
};
use crate::cbor_write::{
    cbor_array, concat_all, is_item_at, lemma_array_elements_of, lemma_scalars_are_items, write_bytes,
    write_head,
};
use crate::csr::pow256;
use crate::constants::HashType;
use crate::cose_aad::{sig1_structure, sig1_structure_bytes};
use crate::csr::{ecdsa_sig_to_der, ecdsa_sig_value_der, openssl_ecdsa_sig_der};
use crate::ownershipvoucher::PublicKey;
use crate::Error;

verus! {

/// `e` without a leading tag 18 (the COSE_Sign1 tag), if it has one.
pub open spec fn untagged_sign1(e: Seq<u8>) -> Seq<u8> {
    match cbor_head_of(e) {
        Some((major, arg, hl)) => if major == 6 && arg == 18 {
            e.subrange(hl as int, e.len() as int)
        } else {
            e
        },
        None => e,
    }
}

/// The protected header bytes, payload and signature of the COSE_Sign1
/// structure `e` encodes (optionally behind tag 18): the first, third and
/// fourth of its four items, each a byte string.
pub open spec fn cose_sign1_parts_of(e: Seq<u8>) -> Option<(Seq<u8>, Seq<u8>, Seq<u8>)> {
    match array_elements(untagged_sign1(e)) {
        Some(p) => if p.len() == 4 {
            match (bytes_of(p[0]), bytes_of(p[2]), bytes_of(p[3])) {
                (Some(a), Some(b), Some(c)) => Some((a, b, c)),
                _ => None,
            }
        } else {
            None
        },
        None => None,
    }
}

/// The algorithm a protected header names when it is the map `{1: alg}`.
pub open spec fn protected_alg_of(h: Seq<u8>) -> Option<int> {
    match cbor_head_of(h) {
        Some((major, arg, hl)) => if major == 5 && arg == 1 {
            let rest = h.subrange(hl as int, h.len() as int);
            match cbor_head_of(rest) {
                Some((m2, a2, hl2)) => if m2 == 0 && a2 == 1 {
                    int_of(rest.subrange(hl2 as int, rest.len() as int))
                } else {
                    None
                },
                None => None,
            }
        } else {
            None
        },
        None => None,
    }
}

/// The digest and the width of each signature half for an algorithm:
/// SHA-256 and 32 bytes for ES256 (-7), SHA-384 and 48 bytes for ES384
/// (-35).
pub open spec fn es_params(alg: int) -> Option<(HashType, nat)> {
    if alg == -7 {
        Some((HashType::Sha256, 32))
    } else if alg == -35 {
        Some((HashType::Sha384, 48))
    } else {
        None
    }
}

/// The SubjectPublicKeyInfo (DER) of an FDO public key encoded as X.509:
/// the key `[type, encoding 1, body]` whose body is a byte string.
pub open spec fn public_key_spki_of(k: Seq<u8>) -> Option<Seq<u8>> {
    match array_elements(k) {
        Some(p) => if p.len() == 3 && uint_of(p[1]) == Some(1nat) {
            bytes_of(p[2])
        } else {
            None
        },
        None => None,
    }
}

/// What OpenSSL answers when asked whether `sig_der` (a DER
/// `ECDSA-Sig-Value`) is a valid signature over `msg` by the key with
/// SubjectPublicKeyInfo `spki`, with digest `hash_type`: its verdict, or
/// nothing when it reports an error.
pub uninterp spec fn openssl_signature_valid(
    spki: Seq<u8>,
    hash_type: HashType,
    sig_der: Seq<u8>,
    msg: Seq<u8>,
) -> Option<bool>;

/// OpenSSL's verification of a signature: `PKey::public_key_from_der` on
/// `spki`, then a `Verifier` with SHA-256 or SHA-384 fed `msg` and asked
/// to verify `sig_der`. Its outcome, verdict or error (a key or signature
/// it cannot read, or a failure inside it), is named, not stated; it
/// depends on the arguments alone.
#[verifier::external_body]
fn openssl_verify(spki: &[u8], hash_type: HashType, sig_der: &[u8], msg: &[u8]) -> (r: Option<bool>)
    requires
        hash_type == HashType::Sha256 || hash_type == HashType::Sha384,
    ensures
        r == openssl_signature_valid(spki@, hash_type, sig_der@, msg@),
{
    let md = match hash_type {
        HashType::Sha384 => openssl::hash::MessageDigest::sha384(),
        _ => openssl::hash::MessageDigest::sha256(),
    };
    let key = openssl::pkey::PKey::public_key_from_der(spki).ok()?;
    let mut verifier = openssl::sign::Verifier::new(md, &key).ok()?;
    verifier.update(msg).ok()?;
    verifier.verify(sig_der).ok()
}

/// The COSE_Sign1 `cose` carries a valid signature by the key with
/// SubjectPublicKeyInfo `spki`, with `external_aad`: it is read as its
/// parts, its protected header names ES256 or ES384, its signature is the
/// two halves of that width, OpenSSL turns the halves into a DER
/// `ECDSA-Sig-Value`, and OpenSSL verifies it over the Sig_structure.
pub open spec fn cose_signature_checks_spki(cose: Seq<u8>, spki: Seq<u8>, external_aad: Seq<u8>) -> bool {
    match cose_sign1_parts_of(cose) {
        Some((protected, payload, sig)) => match protected_alg_of(protected) {
            Some(alg) => match es_params(alg) {
                Some((hash_type, half)) => {
                    let r = sig.subrange(0, half as int);
                    let s = sig.subrange(half as int, sig.len() as int);
                    &&& sig.len() == 2 * half
                    &&& openssl_ecdsa_sig_der(r, s) is Some
                    &&& openssl_signature_valid(
                        spki,
                        hash_type,
                        ecdsa_sig_value_der(r, s),
                        sig1_structure(protected, external_aad, payload),
                    ) == Some(true)
                },
                None => false,
            },
            None => false,
        },
        None => false,
    }
}

/// The COSE_Sign1 `cose` carries a valid signature by the FDO public key
/// `key`, which must be an X.509 SubjectPublicKeyInfo.
pub open spec fn cose_signature_checks(cose: Seq<u8>, key: Seq<u8>, external_aad: Seq<u8>) -> bool {
    match public_key_spki_of(key) {
        Some(spki) => cose_signature_checks_spki(cose, spki, external_aad),
        None => false,
    }
}

/// An ES384 COSE_Sign1 (protected header naming -35) is checked with
/// SHA-384 over its Sig_structure, its signature read as two 48-byte
/// halves; an ES256 one (-7) with SHA-256 and two 32-byte halves; one
/// naming any other algorithm never checks out.
pub proof fn lemma_es_signature_digest(cose: Seq<u8>, spki: Seq<u8>, external_aad: Seq<u8>)
    requires
        cose_sign1_parts_of(cose) is Some,
    ensures
        ({
            let (protected, payload, sig) = cose_sign1_parts_of(cose).unwrap();
            let msg = sig1_structure(protected, external_aad, payload);
            &&& protected_alg_of(protected) == Some(-35int) ==> (cose_signature_checks_spki(cose, spki, external_aad) <==> (
            sig.len() == 96 && openssl_ecdsa_sig_der(sig.subrange(0, 48), sig.subrange(48, 96)) is Some
                && openssl_signature_valid(
                spki,
                HashType::Sha384,
                ecdsa_sig_value_der(sig.subrange(0, 48), sig.subrange(48, 96)),
                msg,
            ) == Some(true)))
            &&& protected_alg_of(protected) == Some(-7int) ==> (cose_signature_checks_spki(cose, spki, external_aad) <==> (
            sig.len() == 64 && openssl_ecdsa_sig_der(sig.subrange(0, 32), sig.subrange(32, 64)) is Some
                && openssl_signature_valid(
                spki,
                HashType::Sha256,
                ecdsa_sig_value_der(sig.subrange(0, 32), sig.subrange(32, 64)),
                msg,
            ) == Some(true)))
            &&& (protected_alg_of(protected) != Some(-35int) && protected_alg_of(protected) != Some(-7int))
                ==> !cose_signature_checks_spki(cose, spki, external_aad)
        }),
{
}

/// The protected header the library writes for ES256 or ES384 reads back
/// as naming that algorithm.
pub proof fn lemma_protected_header_alg(alg: i8)
    requires
        alg == -7 || alg == -35,
    ensures
        protected_alg_of(crate::cose_aad::protected_header(alg)) == Some(alg as int),
{
    let h = crate::cose_aad::protected_header(alg);
    assert(crate::cbor::cbor_map_head(1) =~= seq![0xa1u8]);
    assert(crate::cbor::cbor_int(1) =~= seq![0x01u8]);
    if alg == -7 {
        assert(crate::cbor::cbor_int(-7) =~= seq![0x26u8]);
        assert(h =~= seq![0xa1u8, 0x01u8, 0x26u8]);
        let rest = h.subrange(1, 3);
        assert(rest =~= seq![0x01u8, 0x26u8]);
        assert(rest.subrange(1, 2) =~= seq![0x26u8]);
    } else {
        assert(crate::cbor::be_bytes(0, 0) =~= Seq::<u8>::empty());
        assert(crate::cbor::be_bytes(34, 1) == crate::cbor::be_bytes(0, 0).push(34u8));
        assert(crate::cbor::be_bytes(34, 1) =~= seq![0x22u8]);
        assert(crate::cbor::cbor_int(-35) =~= seq![0x38u8, 0x22u8]);
        assert(h =~= seq![0xa1u8, 0x01u8, 0x38u8, 0x22u8]);
        let rest = h.subrange(1, 4);
        assert(rest =~= seq![0x01u8, 0x38u8, 0x22u8]);
        let v = rest.subrange(1, 3);
        assert(v =~= seq![0x38u8, 0x22u8]);
        assert(v.subrange(1, 2) =~= seq![0x22u8]);
        assert(seq![0x22u8].drop_last() =~= Seq::<u8>::empty());
        assert(crate::csr::be_value(Seq::<u8>::empty()) == 0);
        assert(seq![0x22u8].last() == 0x22u8);
        assert(crate::csr::be_value(seq![0x22u8]) == 34);
    }
}

fn read_sign1_parts(e: &[u8]) -> (r: Option<(Vec<u8>, Vec<u8>, Vec<u8>)>)
    ensures
        r is None <==> cose_sign1_parts_of(e@) is None,
        r matches Some((a, b, c)) ==> cose_sign1_parts_of(e@) == Some((a@, b@, c@)),
{
    proof {
        assert(e@.subrange(0, e@.len() as int) =~= e@);
    }
    let body: &[u8] = match read_head(e, 0) {
        Some((major, arg, hl)) => if major == 6 && arg == 18 {
            vstd::slice::slice_subrange(e, hl, e.len())
        } else {
            e
        },
        None => e,
    };
    let p = match split_array(body) {
        Some(p) => p,
        None => {
            return None;
        },
    };
    if p.len() != 4 {
        return None;
    }
    proof {
        assert(parts_view(p@)[0] == p@[0]@);
        assert(parts_view(p@)[2] == p@[2]@);
        assert(parts_view(p@)[3] == p@[3]@);
    }
    match (read_bytes(p[0].as_slice()), read_bytes(p[2].as_slice()), read_bytes(p[3].as_slice())) {
        (Some(a), Some(b), Some(c)) => Some((a, b, c)),
        _ => None,
    }
}

fn read_protected_alg(h: &[u8]) -> (r: Option<i128>)
    ensures
        r is None <==> protected_alg_of(h@) is None,
        r matches Some(a) ==> protected_alg_of(h@) == Some(a as int),
{
    proof {
        assert(h@.subrange(0, h@.len() as int) =~= h@);
    }
    let (major, arg, hl) = match read_head(h, 0) {
        Some(x) => x,
        None => {
            return None;
        },
    };
    if major != 5 || arg != 1 {
        return None;
    }
    proof {
        crate::cbor_scan::lemma_head_len(h@);
    }
    let rest = vstd::slice::slice_subrange(h, hl, h.len());
    proof {
        assert(rest@.subrange(0, rest@.len() as int) =~= rest@);
    }
    let (m2, a2, hl2) = match read_head(rest, 0) {
        Some(x) => x,
        None => {
            return None;
        },
    };
    if m2 != 0 || a2 != 1 {
        return None;
    }
    proof {
        crate::cbor_scan::lemma_head_len(rest@);
    }
    read_int(vstd::slice::slice_subrange(rest, hl2, rest.len()))
}

pub(crate) fn read_spki(k: &[u8]) -> (r: Option<Vec<u8>>)
    ensures
        r is None <==> public_key_spki_of(k@) is None,
        r matches Some(s) ==> public_key_spki_of(k@) == Some(s@),
{
    let p = match split_array(k) {
        Some(p) => p,
        None => {
            return None;
        },
    };
    if p.len() != 3 {
        return None;
    }
    proof {
        assert(parts_view(p@)[1] == p@[1]@);
        assert(parts_view(p@)[2] == p@[2]@);
    }
    match read_uint(p[1].as_slice()) {
        Some(1) => read_bytes(p[2].as_slice()),
        _ => None,
    }
}

/// Whether the COSE_Sign1 `cose` carries a valid ES256 or ES384 signature
/// by the key with SubjectPublicKeyInfo `spki`, with `external_aad`. A
/// structure, header or signature that cannot be read gives `false`, and
/// so does an error inside OpenSSL.
pub fn verify_cose_sign1_spki(cose: &[u8], spki: &[u8], external_aad: &[u8]) -> (r: bool)
    ensures
        r == cose_signature_checks_spki(cose@, spki@, external_aad@),
{
    let (protected, payload, sig) = match read_sign1_parts(cose) {
        Some(x) => x,
        None => {
            return false;
        },
    };
    let alg = match read_protected_alg(protected.as_slice()) {
        Some(a) => a,
        None => {
            return false;
        },
    };
    let (hash_type, half): (HashType, usize) = if alg == -7 {
        (HashType::Sha256, 32)
    } else if alg == -35 {
        (HashType::Sha384, 48)
    } else {
        return false;
    };
    if sig.len() != 2 * half {
        return false;
    }
    let r_half = vstd::slice::slice_subrange(sig.as_slice(), 0, half);
    let s_half = vstd::slice::slice_subrange(sig.as_slice(), half, sig.len());
    let sig_der = match ecdsa_sig_to_der(r_half, s_half) {
        Some(d) => d,
        None => {
            return false;
        },
    };
    let msg = match sig1_structure_bytes(protected.as_slice(), external_aad, payload.as_slice()) {
        Ok(m) => m,
        Err(_) => {
            return false;
        },
    };
    match openssl_verify(spki, hash_type, sig_der.as_slice(), msg.as_slice()) {
        Some(b) => b,
        None => false,
    }
}

/// Whether the COSE_Sign1 `cose` carries a valid ES256 or ES384 signature
/// by `key`, an FDO public key holding an X.509 SubjectPublicKeyInfo, with
/// `external_aad`. What cannot be read gives `false`, and so does an error
/// inside OpenSSL.
pub fn verify_cose_sign1(cose: &[u8], key: &PublicKey, external_aad: &[u8]) -> (r: bool)
    ensures
        r == cose_signature_checks(cose@, key.encoded@, external_aad@),
{
    match read_spki(key.encoded.as_slice()) {
        Some(spki) => verify_cose_sign1_spki(cose, spki.as_slice(), external_aad),
        None => false,
    }
}

/// The encoding of a COSE_Sign1 behind tag 18, with an empty unprotected
/// header.
pub open spec fn sign1_encoding(protected: Seq<u8>, payload: Seq<u8>, sig: Seq<u8>) -> Seq<u8> {
    cbor_head(6, 18) + cbor_array(
        seq![cbor_bytes(protected), cbor_map_head(0), cbor_bytes(payload), cbor_bytes(sig)],
    )
}

/// A COSE_Sign1 from its protected header bytes, payload and signature,
/// behind tag 18 and with an empty unprotected header; reading it gives
/// the three back.
pub fn make_sign1(protected: &[u8], payload: &[u8], signature: &[u8]) -> (r: Vec<u8>)
    ensures
        r@ == sign1_encoding(protected@, payload@, signature@),
        cose_sign1_parts_of(r@) == Some((protected@, payload@, signature@)),
{
    proof {
        reveal_with_fuel(pow256, 9);
        reveal_with_fuel(concat_all, 5);
        assert(pow256(8) == 0x1_0000_0000_0000_0000);
    }
    let n1 = protected.len();
    let n2 = payload.len();
    let n3 = signature.len();
    let mut r: Vec<u8> = Vec::new();
    write_head(&mut r, 6, 18);
    write_head(&mut r, 4, 4);
    write_bytes(&mut r, protected);
    write_head(&mut r, 5, 0);
    write_bytes(&mut r, payload);
    write_bytes(&mut r, signature);
    proof {
        let top: nat = (MAX_NESTING - 1) as nat;
        let parts = seq![cbor_bytes(protected@), cbor_map_head(0), cbor_bytes(payload@), cbor_bytes(signature@)];
        assert(concat_all(parts) =~= parts[0] + parts[1] + parts[2] + parts[3]);
        assert(r@ =~= sign1_encoding(protected@, payload@, signature@));
        lemma_scalars_are_items(0, protected@, Seq::empty(), top);
        lemma_scalars_are_items(0, payload@, Seq::empty(), top);
        lemma_scalars_are_items(0, signature@, Seq::empty(), top);
        assert(is_item_at(cbor_map_head(0), top)) by {
            let m = seq![0xa0u8];
            assert(cbor_map_head(0) =~= m);
            assert(m[0] / 32 == 5 && m[0] % 32 == 0);
            assert(cbor_head_of(m) == Some((5u8, 0nat, 1nat)));
            assert(m.subrange(1, 1) =~= Seq::<u8>::empty());
            assert(crate::cbor_scan::items_len(Seq::<u8>::empty(), 0, (top - 1) as nat) == Some(0nat));
            assert(crate::cbor_scan::item_len(m, top) == Some(1nat));
        }
        assert forall|i: int| 0 <= i < parts.len() implies is_item_at(#[trigger] parts[i], top) by {}
        lemma_array_elements_of(parts);
        assert(cbor_head(6, 18) =~= seq![0xd2u8]);
        assert(r@.subrange(1, r@.len() as int) =~= cbor_array(parts));
    }
    r
}

/// The protected header bytes, payload and signature of the COSE_Sign1
/// `cose`.
pub fn sign1_parts(cose: &[u8]) -> (r: Option<(Vec<u8>, Vec<u8>, Vec<u8>)>)
    ensures
        r is None <==> cose_sign1_parts_of(cose@) is None,
        r matches Some((a, b, c)) ==> cose_sign1_parts_of(cose@) == Some((a@, b@, c@)),
{
    read_sign1_parts(cose)
}

/// The unprotected header of the COSE_Sign1 `e` encodes: the second of
/// its four items, as it stands.
pub open spec fn sign1_unprotected_of(e: Seq<u8>) -> Option<Seq<u8>> {
    match array_elements(untagged_sign1(e)) {
        Some(p) => if p.len() == 4 {
            Some(p[1])
        } else {
            None
        },
        None => None,
    }
}

/// The value of the first key among the alternating keys and values
/// `items` that is the integer `k`.
pub open spec fn first_value_for_key(items: Seq<Seq<u8>>, k: int) -> Option<Seq<u8>>
    decreases items.len(),
{
    if items.len() < 2 {
        None
    } else if int_of(items[0]) == Some(k) {
        Some(items[1])
    } else {
        first_value_for_key(items.subrange(2, items.len() as int), k)
    }
}

/// The certificates of the delegate chain in the unprotected header of
/// `cose` (label 258): `Some(None)` when the header names none,
/// `Some(Some(certs))` when it holds a key `[type, encoding, [certificate,
/// ...]]`, `None` when the structure, the header or the chain cannot be
/// read.
pub open spec fn delegate_chain_of(cose: Seq<u8>) -> Option<Option<Seq<Seq<u8>>>> {
    match sign1_unprotected_of(cose) {
        Some(u) => match map_items(u) {
            Some(items) => match first_value_for_key(items, 258) {
                None => Some(None),
                Some(v) => match array_elements(v) {
                    Some(p) => if p.len() == 3 {
                        match array_elements(p[2]) {
                            Some(q) => if forall|i: int| 0 <= i < q.len() ==> (#[trigger] bytes_of(q[i])) is Some {
                                Some(Some(Seq::new(q.len(), |i: int| bytes_of(q[i]).unwrap())))
                            } else {
                                None
                            },
                            None => None,
                        }
                    } else {
                        None
                    },
                    None => None,
                },
            },
            None => None,
        },
        None => None,
    }
}

pub(crate) fn find_key(items: &Vec<Vec<u8>>, k: i128) -> (r: Option<usize>)
    ensures
        r is None <==> first_value_for_key(parts_view(items@), k as int) is None,
        r matches Some(i) ==> i + 1 < items@.len() && first_value_for_key(parts_view(items@), k as int)
            == Some(items@[i as int + 1]@),
{
    let ghost all = parts_view(items@);
    let mut i: usize = 0;
    proof {
        assert(all.subrange(0, all.len() as int) =~= all);
    }
    while i + 1 < items.len()
        invariant
            all == parts_view(items@),
            i % 2 == 0,
            i <= items@.len(),
            first_value_for_key(all, k as int) == first_value_for_key(all.subrange(i as int, all.len() as int), k as int),
        decreases items@.len() - i,
    {
        let ghost rest = all.subrange(i as int, all.len() as int);
        proof {
            assert(rest[0] == items@[i as int]@);
            assert(rest[1] == items@[i as int + 1]@);
        }
        match read_int(items[i].as_slice()) {
            Some(v) => if v == k {
                return Some(i);
            },
            None => {},
        }
        proof {
            assert(rest.subrange(2, rest.len() as int) =~= all.subrange(i as int + 2, all.len() as int));
        }
        i = i + 2;
    }
    None
}

/// What OpenSSL gives as the SubjectPublicKeyInfo (DER) of the
/// certificate `der`: nothing when it cannot read the certificate or its
/// key, or reports an error.
pub uninterp spec fn openssl_x509_spki(der: Seq<u8>) -> Option<Seq<u8>>;

/// OpenSSL reading a DER certificate (`X509::from_der`), taking its public
/// key and writing it as DER (`public_key_to_der`). The outcome is named,
/// not stated; it depends on the certificate alone.
#[verifier::external_body]
fn x509_spki(der: &[u8]) -> (r: Option<Vec<u8>>)
    ensures
        (match r {
            Some(s) => Some(s@),
            None => None,
        }) == openssl_x509_spki(der@),
{
    let cert = openssl::x509::X509::from_der(der).ok()?;
    cert.public_key().ok()?.public_key_to_der().ok()
}

/// Whether OpenSSL reads every certificate of a chain.
pub open spec fn certs_readable(certs: Seq<Seq<u8>>) -> bool {
    forall|i: int| 0 <= i < certs.len() ==> (#[trigger] openssl_x509_spki(certs[i])) is Some
}

/// The key a ProveOVHdr20 signature is checked with, when it names a
/// delegate chain: the SubjectPublicKeyInfo of the chain's first
/// certificate. `Ok(None)` when the header names no chain or an empty one.
/// A header or chain that cannot be read is refused, and so is a chain with
/// a certificate OpenSSL cannot read.
pub fn delegate_key(cose: &[u8]) -> (r: Result<Option<Vec<u8>>, Error>)
    ensures
        r is Ok <==> (delegate_chain_of(cose@) matches Some(chain) && match chain {
            None => true,
            Some(certs) => certs_readable(certs),
        }),
        r matches Ok(k) ==> (delegate_chain_of(cose@) matches Some(chain) && match chain {
            None => k is None,
            Some(certs) => if certs.len() == 0 {
                k is None
            } else {
                k matches Some(s) && openssl_x509_spki(certs[0]) == Some(s@)
            },
        }),
{
    proof {
        assert(cose@.subrange(0, cose@.len() as int) =~= cose@);
    }
    let body: &[u8] = match read_head(cose, 0) {
        Some((major, arg, hl)) => if major == 6 && arg == 18 {
            vstd::slice::slice_subrange(cose, hl, cose.len())
        } else {
            cose
        },
        None => cose,
    };
    let p = match split_array(body) {
        Some(p) => p,
        None => {
            return Err(Error::new("Not a COSE_Sign1 structure"));
        },
    };
    if p.len() != 4 {
        return Err(Error::new("Not a COSE_Sign1 structure"));
    }
    proof {
        assert(parts_view(p@)[1] == p@[1]@);
    }
    let items = match split_map(p[1].as_slice()) {
        Some(items) => items,
        None => {
            return Err(Error::new("Unprotected header is not a map"));
        },
    };
    let at = match find_key(&items, 258) {
        Some(i) => i,
        None => {
            return Ok(None);
        },
    };
    let n_items: usize = items.len();
    assert(at + 1 < n_items);
    let key = match split_array(items[at + 1].as_slice()) {
        Some(k) => k,
        None => {
            return Err(Error::new("Delegate chain is not a public key"));
        },
    };
    if key.len() != 3 {
        return Err(Error::new("Delegate chain is not a public key"));
    }
    proof {
        assert(parts_view(key@)[2] == key@[2]@);
    }
    let certs = match split_array(key[2].as_slice()) {
        Some(c) => c,
        None => {
            return Err(Error::new("Delegate chain is not an array of certificates"));
        },
    };
    let ghost cv = parts_view(certs@);
    let mut leaf: Option<Vec<u8>> = None;
    let mut i: usize = 0;
    while i < certs.len()
        invariant
            i <= certs@.len(),
            cv == parts_view(certs@),
            delegate_chain_of(cose@) != Some(None::<Seq<Seq<u8>>>),
            delegate_chain_of(cose@) == (if forall|j: int| 0 <= j < cv.len() ==> (#[trigger] bytes_of(cv[j])) is Some {
                Some(Some(Seq::new(cv.len(), |j: int| bytes_of(cv[j]).unwrap())))
            } else {
                None
            }),
            forall|j: int| 0 <= j < i ==> (#[trigger] bytes_of(cv[j])) is Some,
            forall|j: int| 0 <= j < i ==> (#[trigger] openssl_x509_spki(bytes_of(cv[j]).unwrap())) is Some,
            i == 0 ==> leaf is None,
            i > 0 ==> (leaf matches Some(s) && openssl_x509_spki(bytes_of(cv[0]).unwrap()) == Some(s@)),
        decreases certs@.len() - i,
    {
        proof {
            assert(cv[i as int] == certs@[i as int]@);
        }
        let der = match read_bytes(certs[i].as_slice()) {
            Some(d) => d,
            None => {
                assert(!(forall|j: int| 0 <= j < cv.len() ==> (#[trigger] bytes_of(cv[j])) is Some));
                return Err(Error::new("Delegate certificate is not a byte string"));
            },
        };
        let spki = match x509_spki(der.as_slice()) {
            Some(s) => s,
            None => {
                proof {
                    if delegate_chain_of(cose@) is Some {
                        let certs_v = Seq::new(cv.len(), |j: int| bytes_of(cv[j]).unwrap());
                        assert(certs_v[i as int] == der@);
                        assert(openssl_x509_spki(certs_v[i as int]) is None);
                        assert(!certs_readable(certs_v));
                    }
                }
                return Err(Error::new("Delegate certificate cannot be read"));
            },
        };
        if i == 0 {
            leaf = Some(spki);
        }
        i = i + 1;
    }
    proof {
        assert forall|j: int| 0 <= j < cv.len() implies (#[trigger] bytes_of(cv[j])) is Some by {}
        let certs_v = Seq::new(cv.len(), |j: int| bytes_of(cv[j]).unwrap());
        assert(delegate_chain_of(cose@) == Some(Some(certs_v)));
        assert forall|j: int| 0 <= j < certs_v.len() implies (#[trigger] openssl_x509_spki(certs_v[j])) is Some by {
            assert(certs_v[j] == bytes_of(cv[j]).unwrap());
        }
    }
    Ok(leaf)
}

/// The SubjectPublicKeyInfo (DER) OpenSSL derives from the private key
/// `der` (DER).
pub uninterp spec fn openssl_private_spki(der: Seq<u8>) -> Seq<u8>;

/// `PKey::private_key_from_der` then `public_key_to_der`: the
/// SubjectPublicKeyInfo of the private key's public half. Its bytes are
/// named, not stated; OpenSSL may fail.
#[verifier::external_body]
pub(crate) fn private_key_spki(der: &[u8]) -> (r: Option<Vec<u8>>)
    ensures
        r matches Some(s) ==> s@ == openssl_private_spki(der@),
{
    openssl::pkey::PKey::private_key_from_der(der).ok()?.public_key_to_der().ok()
}

/// OpenSSL's ECDSA signature over `msg` with the private key `der` and the
/// digest of `hash_type` (`Signer::sign_to_vec`), read back with
/// `EcdsaSig::from_der`, its two numbers as big-endian bytes padded to
/// `width` (`BigNumRef::to_vec_padded`, which refuses a number that does
/// not fit). ECDSA signatures are randomized, so only the width of what
/// comes back is stated.
#[verifier::external_body]
pub(crate) fn openssl_ecdsa_sign(der: &[u8], hash_type: HashType, msg: &[u8], width: i32) -> (r: Option<
    (Vec<u8>, Vec<u8>),
>)
    requires
        hash_type == HashType::Sha256 || hash_type == HashType::Sha384,
        width > 0,
    ensures
        r matches Some((a, b)) ==> a@.len() == width && b@.len() == width,
{
    let md = match hash_type {
        HashType::Sha384 => openssl::hash::MessageDigest::sha384(),
        _ => openssl::hash::MessageDigest::sha256(),
    };
    let key = openssl::pkey::PKey::private_key_from_der(der).ok()?;
    let mut signer = openssl::sign::Signer::new(md, &key).ok()?;
    signer.update(msg).ok()?;
    let sig = openssl::ecdsa::EcdsaSig::from_der(&signer.sign_to_vec().ok()?).ok()?;
    Some((sig.r().to_vec_padded(width).ok()?, sig.s().to_vec_padded(width).ok()?))
}

} // verus!
