//! The device's decisions during manufacturing (device initialization):
//! which protocol version a configured number selects, whether a MAC
//! address may identify the device, in which order key storages are
//! tried, and which FDO key type and CSR digest its signing key takes.
//! Talking to the manufacturing server, the TPM and the file
//! system is left to the caller.

use vstd::prelude::*;

use openssl::hash::MessageDigest;
use openssl::pkey::PKey;
use openssl::x509::{X509NameBuilder, X509ReqBuilder};

use crate::cbor_scan::MAX_NESTING;
use crate::cbor_write::is_item_at;
use crate::constants::{HashType, ProtocolVersion, PublicKeyType};
use crate::tpm::EccCurve;
use crate::cose::{openssl_ecdsa_sign, openssl_private_spki, private_key_spki};
use crate::csr::{
    assemble_csr_from_rs, assembled_csr, certification_request_info, ecdsa_sha256_alg, ecdsa_sha384_alg,
    ecdsa_sig_value_der, make_certification_request_info, CsrSigningKey,
};
use crate::ownershipvoucher::{
    device_info_ok, header_encoding, header_view, is_trim_of, OwnershipVoucherHeader,
};
use crate::kex::{hmac_sha384, openssl_hmac384};
use crate::types::HMac;
use crate::Error;

verus! {

/// The protocol version a configured FDO version number selects: 101 is
/// 1.0 (FDO 1.01), 110 is 1.1, 200 is 2.0.
pub open spec fn fdo_version_selects(v: u32) -> Option<ProtocolVersion> {
    if v == 101 {
        Some(ProtocolVersion::Version1_0)
    } else if v == 110 {
        Some(ProtocolVersion::Version1_1)
    } else if v == 200 {
        Some(ProtocolVersion::Version2_0)
    } else {
        None
    }
}

/// The protocol version for a configured FDO version number; other
/// numbers are refused.
pub fn protocol_version_from_fdo_version(v: u32) -> (r: Result<ProtocolVersion, Error>)
    ensures
        r is Ok <==> fdo_version_selects(v) is Some,
        r matches Ok(pv) ==> fdo_version_selects(v) == Some(pv),
{
    if v == 101 {
        Ok(ProtocolVersion::Version1_0)
    } else if v == 110 {
        Ok(ProtocolVersion::Version1_1)
    } else if v == 200 {
        Ok(ProtocolVersion::Version2_0)
    } else {
        Err(Error::new("Invalid FDO version. Valid values are 101, 110, or 200"))
    }
}

/// A hexadecimal digit.
pub open spec fn is_hex_digit(c: char) -> bool {
    ('0' <= c && c <= '9') || ('a' <= c && c <= 'f') || ('A' <= c && c <= 'F')
}

/// Text of the form `hh:hh:hh:hh:hh:hh`: six pairs of hexadecimal digits,
/// each pair but the last followed by `:` or `-`.
pub open spec fn is_mac_text(s: Seq<char>) -> bool {
    &&& s.len() == 17
    &&& forall|i: int| 0 <= i < 6 ==> is_hex_digit(#[trigger] s[3 * i]) && is_hex_digit(s[3 * i + 1])
    &&& forall|i: int| 0 <= i < 5 ==> (#[trigger] s[3 * i + 2] == ':' || s[3 * i + 2] == '-')
}

/// `regex::Regex::new` on `pattern`, which must be
/// `^([0-9A-Fa-f]{2}[:-]){5}([0-9A-Fa-f]{2})$`, then `is_match`: whether the whole text is
/// six hexadecimal pairs separated by `:` or `-`, which is what the
/// pattern means by the crate's documented syntax (`^` and `$` anchor at
/// the ends of the text). The pattern is valid, so building it succeeds.
#[verifier::external_body]
fn mac_pattern_matches(pattern: &str, mac: &str) -> (r: bool)
    requires
        pattern@ == "^([0-9A-Fa-f]{2}[:-]){5}([0-9A-Fa-f]{2})$"@,
    ensures
        r == is_mac_text(mac@),
{
    match regex::Regex::new(pattern) {
        Ok(re) => re.is_match(mac),
        Err(_) => false,
    }
}

/// The MAC address that identifies the device, from the contents of the
/// interface's address file: with surrounding whitespace removed, it must
/// be six hexadecimal pairs and not all zeros.
pub fn validate_mac_address(raw: &str) -> (r: Result<String, Error>)
    ensures
        r matches Ok(m) ==> is_trim_of(m@, raw@) && is_mac_text(m@) && m@ != "00:00:00:00:00:00"@,
        r is Err ==> forall|t: Seq<char>| is_trim_of(t, raw@) ==> !is_mac_text(t) || t
            == "00:00:00:00:00:00"@,
{
    let mac = crate::ownershipvoucher::str_trim(raw);
    proof {
        lemma_trim_unique(raw@);
    }
    if !mac_pattern_matches("^([0-9A-Fa-f]{2}[:-]){5}([0-9A-Fa-f]{2})$", mac) || crate::text::str_eq(mac, "00:00:00:00:00:00") {
        return Err(Error::new("Invalid MAC address"));
    }
    Ok(String::from_str(mac))
}

/// A string has one trimmed form.
proof fn lemma_trim_unique(s: Seq<char>)
    ensures
        forall|a: Seq<char>, b: Seq<char>| is_trim_of(a, s) && is_trim_of(b, s) ==> a == b,
{
    assert forall|a: Seq<char>, b: Seq<char>| is_trim_of(a, s) && is_trim_of(b, s) implies a == b by {
        crate::ownershipvoucher::lemma_trim_is_unique(a, b, s);
    }
}

/// Where the device can keep its keys.
#[derive(Debug, Clone, Copy, PartialEq, Eq, Structural)]
pub enum KeyStorageType {
    FileSystem,
    Tpm,
}

/// The storage types the device tries, in order, for a new key: those the
/// server allows (at least one), or the file system when it names none.
pub fn key_storage_attempts(allowed: Option<&Vec<KeyStorageType>>) -> (r: Result<Vec<KeyStorageType>, Error>)
    ensures
        allowed is None ==> (r matches Ok(v) && v@ == seq![KeyStorageType::FileSystem]),
        allowed matches Some(a) ==> (if a@.len() == 0 {
            r is Err
        } else {
            r matches Ok(v) && v@ == a@
        }),
{
    match allowed {
        None => {
            let mut v: Vec<KeyStorageType> = Vec::new();
            v.push(KeyStorageType::FileSystem);
            assert(v@ =~= seq![KeyStorageType::FileSystem]);
            Ok(v)
        },
        Some(a) => {
            if a.len() == 0 {
                return Err(Error::new("No key storage types allowed"));
            }
            let mut v: Vec<KeyStorageType> = Vec::new();
            let mut i: usize = 0;
            while i < a.len()
                invariant
                    i <= a@.len(),
                    v@ == a@.subrange(0, i as int),
                decreases a@.len() - i,
            {
                v.push(a[i]);
                assert(v@ =~= a@.subrange(0, i as int + 1));
                i = i + 1;
            }
            assert(a@.subrange(0, a@.len() as int) =~= a@);
            Ok(v)
        },
    }
}

/// OpenSSL's number for the NIST P-256 curve (prime256v1).
pub const NID_PRIME256V1: i32 = 415;

/// OpenSSL's number for the NIST P-384 curve (secp384r1).
pub const NID_SECP384R1: i32 = 715;

/// What the FDO public key type and the CSR digest depend on of the
/// device's signing key.
#[derive(Debug, Clone, Copy)]
pub enum SigningKeyKind {
    /// A key in a file: elliptic-curve, with OpenSSL's number of its named
    /// curve (if it has one) and its size in bits.
    Ec { curve_nid: Option<i32>, bits: u32 },
    /// A key in a file: RSA, with its size in bits.
    Rsa { bits: u32 },
    /// An ECC key held in the TPM.
    TpmEcc { curve: EccCurve },
    /// Any other kind of key.
    Other,
}

/// The FDO public key type of a signing key: P-256 and P-384 keys are
/// SECP256R1 and SECP384R1; an RSA key of 2048 bits is RSA2048RESTR and
/// any other RSA key RSAPKCS. No other key has one.
pub open spec fn key_type_for(kind: SigningKeyKind) -> Option<PublicKeyType> {
    match kind {
        SigningKeyKind::Ec { curve_nid, .. } => if curve_nid == Some(NID_PRIME256V1) {
            Some(PublicKeyType::SECP256R1)
        } else if curve_nid == Some(NID_SECP384R1) {
            Some(PublicKeyType::SECP384R1)
        } else {
            None
        },
        SigningKeyKind::Rsa { bits } => if bits == 2048 {
            Some(PublicKeyType::Rsa2048Restr)
        } else {
            Some(PublicKeyType::RsaPkcs)
        },
        SigningKeyKind::TpmEcc { curve } => match curve {
            EccCurve::NistP256 => Some(PublicKeyType::SECP256R1),
            EccCurve::NistP384 => Some(PublicKeyType::SECP384R1),
            EccCurve::Other => None,
        },
        SigningKeyKind::Other => None,
    }
}

/// The FDO public key type of the device's signing key; keys of no FDO
/// type are refused.
pub fn public_key_type(kind: SigningKeyKind) -> (r: Result<PublicKeyType, Error>)
    ensures
        key_type_for(kind) matches Some(t) ==> r == Ok::<PublicKeyType, Error>(t),
        key_type_for(kind) is None ==> r is Err,
{
    match kind {
        SigningKeyKind::Ec { curve_nid, .. } => match curve_nid {
            Some(n) => if n == NID_PRIME256V1 {
                Ok(PublicKeyType::SECP256R1)
            } else if n == NID_SECP384R1 {
                Ok(PublicKeyType::SECP384R1)
            } else {
                Err(Error::new("Unsupported EC curve"))
            },
            None => Err(Error::new("Unsupported EC curve")),
        },
        SigningKeyKind::Rsa { bits } => if bits == 2048 {
            Ok(PublicKeyType::Rsa2048Restr)
        } else {
            Ok(PublicKeyType::RsaPkcs)
        },
        SigningKeyKind::TpmEcc { curve } => match curve {
            EccCurve::NistP256 => Ok(PublicKeyType::SECP256R1),
            EccCurve::NistP384 => Ok(PublicKeyType::SECP384R1),
            EccCurve::Other => Err(Error::new("Unsupported TPM ECC curve")),
        },
        SigningKeyKind::Other => Err(Error::new("Unsupported key type")),
    }
}

/// The digest the device's certificate signing request is signed with:
/// for an elliptic-curve key in a file SHA-256 up to 256 bits and SHA-384
/// above, for an RSA key SHA-384, for any other key in a file SHA-256; for
/// a TPM key the digest of its curve (SHA-256 on P-256, SHA-384 on P-384),
/// no other curve having one.
pub open spec fn csr_digest_for(kind: SigningKeyKind) -> Option<HashType> {
    match kind {
        SigningKeyKind::Ec { bits, .. } => if bits <= 256 {
            Some(HashType::Sha256)
        } else {
            Some(HashType::Sha384)
        },
        SigningKeyKind::Rsa { .. } => Some(HashType::Sha384),
        SigningKeyKind::TpmEcc { curve } => match curve {
            EccCurve::NistP256 => Some(HashType::Sha256),
            EccCurve::NistP384 => Some(HashType::Sha384),
            EccCurve::Other => None,
        },
        SigningKeyKind::Other => Some(HashType::Sha256),
    }
}

/// The digest to sign the device's certificate signing request with.
pub fn csr_digest(kind: SigningKeyKind) -> (r: Result<HashType, Error>)
    ensures
        csr_digest_for(kind) matches Some(h) ==> r == Ok::<HashType, Error>(h),
        csr_digest_for(kind) is None ==> r is Err,
{
    match kind {
        SigningKeyKind::Ec { bits, .. } => if bits <= 256 {
            Ok(HashType::Sha256)
        } else {
            Ok(HashType::Sha384)
        },
        SigningKeyKind::Rsa { .. } => Ok(HashType::Sha384),
        SigningKeyKind::TpmEcc { curve } => match curve {
            EccCurve::NistP256 => Ok(HashType::Sha256),
            EccCurve::NistP384 => Ok(HashType::Sha384),
            EccCurve::Other => Err(Error::new("Unsupported TPM ECC curve for CSR generation")),
        },
        SigningKeyKind::Other => Ok(HashType::Sha256),
    }
}

/// OpenSSL's certificate signing request for the private key
/// `private_der` (DER): `PKey::private_key_from_der`, an `X509Name` built
/// with the one entry `field` = `value`, an `X509ReqBuilder` with that
/// subject and the key's public half, signed with the key and the digest
/// of `hash_type`, then `to_der`. For a key whose signatures are
/// randomized nothing can be stated of what comes back; it serves keys
/// that are neither elliptic-curve nor RSA keys.
#[verifier::external_body]
fn openssl_csr(private_der: &[u8], field: &str, value: &str, hash_type: HashType) -> (r: Option<Vec<u8>>)
    requires
        hash_type == HashType::Sha256 || hash_type == HashType::Sha384,
{
    let md = match hash_type {
        HashType::Sha384 => MessageDigest::sha384(),
        _ => MessageDigest::sha256(),
    };
    let key = PKey::private_key_from_der(private_der).ok()?;
    let mut name = X509NameBuilder::new().ok()?;
    name.append_entry_by_text(field, value).ok()?;
    let mut req = X509ReqBuilder::new().ok()?;
    req.set_subject_name(&name.build()).ok()?;
    req.set_pubkey(&key).ok()?;
    req.sign(&key, md).ok()?;
    req.build().to_der().ok()
}

/// What OpenSSL builds as the certificate signing request for the RSA
/// private key `private_der` (DER), with the subject `field` = `value`,
/// signed with the digest of `hash_type`: nothing when it reports an error
/// (a key it cannot read or that is not an RSA key among them).
pub uninterp spec fn openssl_rsa_csr(
    private_der: Seq<u8>,
    field: Seq<char>,
    value: Seq<char>,
    hash_type: HashType,
) -> Option<Seq<u8>>;

/// OpenSSL's certificate signing request for an RSA key: as `openssl_csr`,
/// the key taken as RSA (`PKey::rsa`, then `PKey::from_rsa`). RSA signs
/// with PKCS#1 v1.5, which is deterministic, so the outcome depends on the
/// arguments alone; it is named, not stated.
#[verifier::external_body]
fn openssl_rsa_csr_der(private_der: &[u8], field: &str, value: &str, hash_type: HashType) -> (r: Option<Vec<u8>>)
    requires
        hash_type == HashType::Sha256 || hash_type == HashType::Sha384,
    ensures
        opt_bytes(r) == openssl_rsa_csr(private_der@, field@, value@, hash_type),
{
    let md = match hash_type {
        HashType::Sha384 => MessageDigest::sha384(),
        _ => MessageDigest::sha256(),
    };
    let key = PKey::from_rsa(PKey::private_key_from_der(private_der).ok()?.rsa().ok()?).ok()?;
    let mut name = X509NameBuilder::new().ok()?;
    name.append_entry_by_text(field, value).ok()?;
    let mut req = X509ReqBuilder::new().ok()?;
    req.set_subject_name(&name.build()).ok()?;
    req.set_pubkey(&key).ok()?;
    req.sign(&key, md).ok()?;
    req.build().to_der().ok()
}

/// Optional bytes as an optional sequence.
pub open spec fn opt_bytes(o: Option<Vec<u8>>) -> Option<Seq<u8>> {
    match o {
        Some(b) => Some(b@),
        None => None,
    }
}

/// The signature algorithm identifier of an ECDSA request signed with the
/// digest `h`: ecdsa-with-SHA256 for SHA-256, ecdsa-with-SHA384 otherwise.
pub open spec fn csr_ecdsa_alg(h: HashType) -> Seq<u8> {
    if h == HashType::Sha256 {
        ecdsa_sha256_alg()
    } else {
        ecdsa_sha384_alg()
    }
}

/// The width of each ECDSA signature half with the digest `h`: 32 bytes
/// with SHA-256 (P-256), 48 with SHA-384 (P-384).
pub open spec fn csr_half_width(h: HashType) -> nat {
    if h == HashType::Sha256 {
        32
    } else {
        48
    }
}

/// The certificate signing request a device whose signing key is an
/// elliptic-curve key `private_der` sends: its to-be-signed part has the
/// subject `CN=device.fdo-rs` and the key's public half, and it is signed
/// with the digest `h` (ECDSA, whose two halves `a` and `b` are random).
pub open spec fn ecdsa_csr(private_der: Seq<u8>, h: HashType, a: Seq<u8>, b: Seq<u8>) -> Seq<u8> {
    assembled_csr(
        certification_request_info(openssl_private_spki(private_der), vstd::utf8::encode_utf8("device.fdo-rs"@)),
        ecdsa_sig_value_der(a, b),
        csr_ecdsa_alg(h),
    )
}

/// The certificate signing request of a device whose signing key is kept
/// in a file (`private_key_der`, of the kind `kind`), with the subject
/// `CN=device.fdo-rs`, self-signed with the digest `csr_digest` chooses.
///
/// For an elliptic-curve key the request is built here: its to-be-signed
/// part is fixed by the key's public half, and OpenSSL signs it (ECDSA, so
/// the signature's two halves are random, of the digest's width). For an
/// RSA key OpenSSL builds and signs the whole request with SHA-384; what it
/// builds is named. Another kind of key has OpenSSL build and sign the
/// request too, and nothing is stated of it.
/// A TPM key is refused (its request is signed in the TPM and put together
/// by `assemble_csr_from_rs` around `make_certification_request_info`). An
/// error inside OpenSSL gives no request.
pub fn generate_csr(private_key_der: &[u8], kind: SigningKeyKind) -> (r: Result<Vec<u8>, Error>)
    ensures
        kind is TpmEcc ==> r is Err,
        kind is Rsa ==> ((r is Ok <==> openssl_rsa_csr(private_key_der@, "CN"@, "device.fdo-rs"@, HashType::Sha384) is Some)
            && (r matches Ok(v) ==> openssl_rsa_csr(private_key_der@, "CN"@, "device.fdo-rs"@, HashType::Sha384)
            == Some(v@))),
        (kind is Ec && r is Ok) ==> (exists|a: Seq<u8>, b: Seq<u8>|
            #![trigger ecdsa_sig_value_der(a, b)]
            {
                let h = csr_digest_for(kind).unwrap();
                &&& a.len() == csr_half_width(h)
                &&& b.len() == csr_half_width(h)
                &&& r.unwrap()@ == ecdsa_csr(private_key_der@, h, a, b)
            }),
{
    if let SigningKeyKind::TpmEcc { .. } = kind {
        return Err(Error::new("TPM keys are signed in the TPM"));
    }
    let hash_type = csr_digest(kind)?;
    if let SigningKeyKind::Ec { .. } = kind {
        let spki = match private_key_spki(private_key_der) {
            Some(s) => s,
            None => {
                return Err(Error::new("Error reading the signing key"));
            },
        };
        let info = make_certification_request_info(spki.as_slice(), "device.fdo-rs");
        let (width, key): (i32, CsrSigningKey) = if hash_type == HashType::Sha256 {
            (32, CsrSigningKey::EcdsaNistP256)
        } else {
            (48, CsrSigningKey::EcdsaNistP384)
        };
        let (ra, sb) = match openssl_ecdsa_sign(private_key_der, hash_type, info.as_slice(), width) {
            Some(x) => x,
            None => {
                return Err(Error::new("Error signing the certificate signing request"));
            },
        };
        let res = assemble_csr_from_rs(info.as_slice(), ra.as_slice(), sb.as_slice(), key);
        proof {
            if res is Ok {
                assert(ecdsa_sig_value_der(ra@, sb@) == ecdsa_sig_value_der(ra@, sb@));
            }
        }
        return res;
    }
    if let SigningKeyKind::Rsa { .. } = kind {
        return match openssl_rsa_csr_der(private_key_der, "CN", "device.fdo-rs", hash_type) {
            Some(der) => Ok(der),
            None => Err(Error::new("Error building the certificate signing request")),
        };
    }
    match openssl_csr(private_key_der, "CN", "device.fdo-rs", hash_type) {
        Some(der) => Ok(der),
        None => Err(Error::new("Error building the certificate signing request")),
    }
}

/// The HMAC a device returns in DI.SetHMAC: HMAC-SHA-384, with the
/// device's secret, over the voucher header's encoding. A header that
/// cannot be encoded (device info with unacceptable characters, or a
/// manufacturer key that is not one CBOR item) is refused.
pub fn ov_header_hmac(hmac_key: &[u8], header: &OwnershipVoucherHeader) -> (r: Result<HMac, Error>)
    ensures
        !(device_info_ok(header.device_info@) && is_item_at(
            header.manufacturer_public_key.encoded@,
            (MAX_NESTING - 1) as nat,
        )) ==> r is Err,
        (device_info_ok(header.device_info@) && is_item_at(
            header.manufacturer_public_key.encoded@,
            (MAX_NESTING - 1) as nat,
        )) ==> (r is Ok <==> openssl_hmac384(hmac_key@, header_encoding(header_view(*header))) is Some),
        r matches Ok(h) ==> h.hash_type == HashType::HmacSha384 && openssl_hmac384(
            hmac_key@,
            header_encoding(header_view(*header)),
        ) == Some(h.value@) && h.value@.len() == 48,
{
    let encoded = header.to_cbor()?;
    match hmac_sha384(hmac_key, encoded.as_slice()) {
        Some(t) => Ok(HMac { hash_type: HashType::HmacSha384, value: t }),
        None => Err(Error::new("Error computing HMac over Ownership Voucher Header")),
    }
}

} // verus!
