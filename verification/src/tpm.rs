//! Device credentials kept in a TPM: the NV index and key handles the
//! credential lives at, the consolidated DCTPM record (a CBOR array in one
//! NV index), and what the device decides from what it read there. Talking
//! to the TPM is left to the caller.

use vstd::prelude::*;

use crate::cbor_scan::{
    array_elements, bool_of, bytes_of, int_of, parts_view, read_bool, read_bytes, read_int,
    read_text, split_array, text_bytes_of,
};
use crate::constants::{DeviceSigType, HashType, ProtocolVersion, PublicKeyType};
use crate::ownershipvoucher::{hash_pair_of, rv_info_of, rv_view, copy_bytes};
use crate::types::{Guid, HMac, RendezvousInfo};
use crate::Error;

verus! {

/// The consolidated DCTPM NV index, holding every FDO credential.
pub const DCTPM_INDEX: u32 = 0x01D1_0001;

/// The legacy DCActive NV index (one byte: 1 when active).
pub const LEGACY_DC_ACTIVE_INDEX: u32 = 0x01D1_0000;

/// The legacy DCOV NV index.
pub const LEGACY_DCOV_INDEX: u32 = 0x01D1_0002;

/// The legacy FDO certificate NV index.
pub const LEGACY_FDO_CERT_INDEX: u32 = 0x01D1_0005;

/// The persistent handle of the Device Attestation Key (ECC signing key).
pub const DAK_HANDLE: u32 = 0x8102_0002;

/// The persistent handle of the HMAC key.
pub const HMAC_KEY_HANDLE: u32 = 0x8102_0003;

/// The magic number a DCTPM record starts with ("FDO1").
pub const DCTPM_MAGIC: u32 = 0x46444F31;

/// NV index attribute profile, determining access controls.
#[derive(Debug, Clone, Copy, PartialEq, Eq, Structural)]
pub enum NvProfile {
    /// The consolidated DCTPM index: owner and auth read/write, no
    /// dictionary-attack protection, optionally platform-created.
    Dctpm,
    /// The legacy profile, kept to clean up old indices.
    LegacyB,
}

/// What the device read from its TPM.
#[derive(Debug)]
pub struct NvCredentialInfo {
    /// The DCTPM index was read and is not empty.
    pub has_dctpm: bool,
    /// The DCTPM record's bytes.
    pub raw_dctpm: Vec<u8>,
    /// The magic number of the DCTPM record (0 when unreadable).
    pub magic: u32,
    /// Whether the credential is active.
    pub active: bool,
    /// Whether the DAK handle exists.
    pub has_dak: bool,
    /// Whether the HMAC key handle exists.
    pub has_hmac_key: bool,
}

/// The magic number and active flag a DCTPM record carries in its first
/// two items, each when it has the right type.
pub open spec fn dctpm_magic_active(raw: Seq<u8>) -> (u32, bool) {
    match array_elements(raw) {
        Some(items) => if items.len() >= 2 {
            (
                match int_of(items[0]) {
                    Some(m) => m as u32,
                    None => 0,
                },
                match bool_of(items[1]) {
                    Some(b) => b,
                    None => false,
                },
            )
        } else {
            (0, false)
        },
        None => (0, false),
    }
}

/// The legacy active flag: a first byte of 1.
pub open spec fn legacy_active_of(data: Seq<u8>) -> bool {
    data.len() > 0 && data[0] == 1
}

/// Put together what was read from the TPM: the DCTPM index contents (if
/// the read succeeded), the legacy DCActive contents (read only without a
/// DCTPM record), and whether the two key handles exist.
pub fn nv_credential_info(
    dctpm: Option<Vec<u8>>,
    legacy_active: Option<Vec<u8>>,
    has_dak: bool,
    has_hmac_key: bool,
) -> (r: NvCredentialInfo)
    ensures
        r.has_dctpm == (dctpm matches Some(d) && d@.len() > 0),
        r.has_dctpm ==> (dctpm matches Some(d) && r.raw_dctpm@ == d@ && (r.magic, r.active)
            == dctpm_magic_active(d@)),
        !r.has_dctpm ==> r.raw_dctpm@.len() == 0 && r.magic == 0 && r.active == (legacy_active matches Some(
            l,
        ) && legacy_active_of(l@)),
        r.has_dak == has_dak,
        r.has_hmac_key == has_hmac_key,
{
    let mut info = NvCredentialInfo {
        has_dctpm: false,
        raw_dctpm: Vec::new(),
        magic: 0,
        active: false,
        has_dak,
        has_hmac_key,
    };
    if let Some(data) = dctpm {
        if data.len() > 0 {
            if let Some(items) = split_array(data.as_slice()) {
                if items.len() >= 2 {
                    proof {
                        assert(parts_view(items@)[0] == items@[0]@);
                        assert(parts_view(items@)[1] == items@[1]@);
                    }
                    if let Some(m) = read_int(items[0].as_slice()) {
                        info.magic = m as u32;
                    }
                    if let Some(b) = read_bool(items[1].as_slice()) {
                        info.active = b;
                    }
                }
            }
            info.raw_dctpm = data;
            info.has_dctpm = true;
        }
    }
    if !info.has_dctpm {
        if let Some(l) = legacy_active {
            info.active = l.len() > 0 && l[0] == 1;
        }
    }
    info
}

/// A device credential kept in the TPM.
#[derive(Debug)]
pub struct TpmDeviceCredential {
    pub active: bool,
    pub protver: ProtocolVersion,
    pub device_info: String,
    pub guid: Guid,
    pub rvinfo: RendezvousInfo,
    pub pubkey_hash: crate::types::Hash,
}

/// The protocol version a DCTPM record's version number stands for: 200
/// is 2.0, 110 is 1.1, 100 and 101 are 1.0.
pub open spec fn dctpm_version(v: u16) -> Option<ProtocolVersion> {
    if v == 200 {
        Some(ProtocolVersion::Version2_0)
    } else if v == 110 {
        Some(ProtocolVersion::Version1_1)
    } else if v == 100 || v == 101 {
        Some(ProtocolVersion::Version1_0)
    } else {
        None
    }
}

/// An item holding nested CBOR either directly or inside a byte string.
pub open spec fn embedded(e: Seq<u8>) -> Seq<u8> {
    match bytes_of(e) {
        Some(b) => b,
        None => e,
    }
}

/// The fields of the credential a DCTPM record holds: `[magic, active,
/// version, device info, GUID, rendezvous info, public key hash, key
/// type, ...]` (at least eight items), the version one the device knows
/// (taken to 16 bits), the GUID 16 bytes, the rendezvous info and the
/// hash given directly or inside a byte string.
pub open spec fn dctpm_credential_of(raw: Seq<u8>) -> Option<
    (ProtocolVersion, Seq<char>, Seq<u8>, Seq<Seq<(u8, Seq<u8>)>>, (HashType, Seq<u8>)),
> {
    match array_elements(raw) {
        Some(items) => if items.len() >= 8 {
            match (int_of(items[2]), text_bytes_of(items[3]), bytes_of(items[4])) {
                (Some(v), Some(t), Some(g)) => match dctpm_version(v as u16) {
                    Some(pv) => if vstd::utf8::valid_utf8(t) && g.len() == 16 {
                        match (rv_info_of(embedded(items[5])), hash_pair_of(embedded(items[6]))) {
                            (Some(rv), Some(h)) => Some((pv, vstd::utf8::decode_utf8(t), g, rv, h)),
                            _ => None,
                        }
                    } else {
                        None
                    },
                    None => None,
                },
                _ => None,
            }
        } else {
            None
        },
        None => None,
    }
}

/// The public key hash of a DCTPM record (its item 6) may be the CBOR
/// `[type, bytes]` array itself or that array inside a byte string: a
/// record reads the same either way, and the hash it yields is the one the
/// array holds.
pub proof fn lemma_dctpm_hash_either_form(raw_plain: Seq<u8>, raw_wrapped: Seq<u8>, items: Seq<Seq<u8>>, w: Seq<u8>)
    requires
        array_elements(raw_plain) == Some(items),
        items.len() > 6,
        array_elements(raw_wrapped) == Some(items.update(6, w)),
        bytes_of(w) == Some(items[6]),
        bytes_of(items[6]) is None,
    ensures
        dctpm_credential_of(raw_plain) == dctpm_credential_of(raw_wrapped),
        dctpm_credential_of(raw_plain) matches Some(c) ==> hash_pair_of(items[6]) == Some(c.4),
{
    let wrapped = items.update(6, w);
    assert(wrapped[2] == items[2] && wrapped[3] == items[3] && wrapped[4] == items[4] && wrapped[5] == items[5]);
    assert(embedded(wrapped[6]) == items[6]);
    assert(embedded(items[6]) == items[6]);
}

/// The rendezvous info of a DCTPM record (its item 5) may likewise be the
/// CBOR array itself or that array inside a byte string: a record reads
/// the same either way, with the rendezvous info the array holds.
pub proof fn lemma_dctpm_rv_either_form(raw_plain: Seq<u8>, raw_wrapped: Seq<u8>, items: Seq<Seq<u8>>, w: Seq<u8>)
    requires
        array_elements(raw_plain) == Some(items),
        items.len() > 6,
        array_elements(raw_wrapped) == Some(items.update(5, w)),
        bytes_of(w) == Some(items[5]),
        bytes_of(items[5]) is None,
    ensures
        dctpm_credential_of(raw_plain) == dctpm_credential_of(raw_wrapped),
        dctpm_credential_of(raw_plain) matches Some(c) ==> rv_info_of(items[5]) == Some(c.3),
{
    let wrapped = items.update(5, w);
    assert(wrapped[2] == items[2] && wrapped[3] == items[3] && wrapped[4] == items[4] && wrapped[6] == items[6]);
    assert(embedded(wrapped[5]) == items[5]);
    assert(embedded(items[5]) == items[5]);
}

/// Whether what was read from the TPM describes a usable credential:
/// a DCTPM record with the right magic, active, with both key handles.
pub open spec fn credential_usable(info: NvCredentialInfo) -> bool {
    info.has_dctpm && info.raw_dctpm@.len() > 0 && info.magic == DCTPM_MAGIC && info.active
        && info.has_dak && info.has_hmac_key
}

fn embedded_bytes(e: &Vec<u8>) -> (r: Vec<u8>)
    ensures
        r@ == embedded(e@),
{
    match read_bytes(e.as_slice()) {
        Some(b) => b,
        None => copy_bytes(e),
    }
}

impl TpmDeviceCredential {
    /// The credential described by what was read from the TPM: none when
    /// the TPM holds no usable credential, an error when the DCTPM record
    /// cannot be read, and the credential the record holds otherwise.
    pub fn from_nv_info(info: &NvCredentialInfo) -> (r: Result<Option<TpmDeviceCredential>, Error>)
        ensures
            !credential_usable(*info) ==> r matches Ok(None),
            credential_usable(*info) ==> (r is Ok <==> dctpm_credential_of(info.raw_dctpm@) is Some),
            credential_usable(*info) && dctpm_credential_of(info.raw_dctpm@) is Some ==> r matches Ok(Some(_)),
            r matches Ok(Some(c)) ==> (dctpm_credential_of(info.raw_dctpm@) == Some(
                (c.protver, c.device_info@, c.guid.0@, rv_view(c.rvinfo), (c.pubkey_hash.hash_type, c.pubkey_hash.value@)),
            ) && c.active),
    {
        if !info.has_dctpm || info.raw_dctpm.len() == 0 {
            return Ok(None);
        }
        if info.magic != DCTPM_MAGIC {
            return Ok(None);
        }
        if !info.active {
            return Ok(None);
        }
        if !info.has_dak || !info.has_hmac_key {
            return Ok(None);
        }
        let items = match split_array(info.raw_dctpm.as_slice()) {
            Some(items) => items,
            None => {
                return Err(Error::new("DCTPM: not a CBOR array or too short"));
            },
        };
        if items.len() < 8 {
            return Err(Error::new("DCTPM: not a CBOR array or too short"));
        }
        proof {
            let v = parts_view(items@);
            assert(v[2] == items@[2]@);
            assert(v[3] == items@[3]@);
            assert(v[4] == items@[4]@);
            assert(v[5] == items@[5]@);
            assert(v[6] == items@[6]@);
        }
        let version = match read_int(items[2].as_slice()) {
            Some(v) => v as u16,
            None => {
                return Err(Error::new("DCTPM[2] version"));
            },
        };
        let protver = if version == 200 {
            ProtocolVersion::Version2_0
        } else if version == 110 {
            ProtocolVersion::Version1_1
        } else if version == 100 || version == 101 {
            ProtocolVersion::Version1_0
        } else {
            return Err(Error::new("DCTPM version value"));
        };
        let device_info = match read_text(items[3].as_slice()) {
            Some(t) => t,
            None => {
                return Err(Error::new("DCTPM[3] device_info"));
            },
        };
        let g = match read_bytes(items[4].as_slice()) {
            Some(g) => g,
            None => {
                return Err(Error::new("DCTPM[4] guid"));
            },
        };
        let guid = Guid::from_slice(g.as_slice())?;
        let rv_bytes = embedded_bytes(&items[5]);
        let rvinfo = match crate::ownershipvoucher::read_rv_info(rv_bytes.as_slice()) {
            Some(rv) => rv,
            None => {
                return Err(Error::new("DCTPM[5] rendezvous info"));
            },
        };
        let hash_bytes = embedded_bytes(&items[6]);
        let (ht, hv) = match crate::ownershipvoucher::read_hash_pair(hash_bytes.as_slice()) {
            Some(x) => x,
            None => {
                return Err(Error::new("DCTPM[6] public key hash"));
            },
        };
        Ok(
            Some(
                TpmDeviceCredential {
                    active: true,
                    protver,
                    device_info,
                    guid,
                    rvinfo,
                    pubkey_hash: crate::types::Hash { hash_type: ht, value: hv },
                },
            ),
        )
    }

    /// Whether the credential is active.
    pub fn is_active(&self) -> (r: bool)
        ensures
            r == self.active,
    {
        self.active
    }

    /// The protocol version the credential was made for.
    pub fn protocol_version(&self) -> (r: ProtocolVersion)
        ensures
            r == self.protver,
    {
        self.protver
    }

    /// The device info.
    pub fn device_info(&self) -> (r: &str)
        ensures
            r@ == self.device_info@,
    {
        self.device_info.as_str()
    }

    /// The device GUID.
    pub fn device_guid(&self) -> (r: &Guid)
        ensures
            *r == self.guid,
    {
        &self.guid
    }

    /// Where the device finds its rendezvous servers.
    pub fn rendezvous_info(&self) -> (r: &RendezvousInfo)
        ensures
            *r == self.rvinfo,
    {
        &self.rvinfo
    }

    /// The hash of the manufacturer's public key.
    pub fn manufacturer_pubkey_hash(&self) -> (r: &crate::types::Hash)
        ensures
            *r == self.pubkey_hash,
    {
        &self.pubkey_hash
    }

    /// Compare an HMAC from the owner with the one the TPM's HMAC key
    /// computed (an HMAC-SHA256) over the same data.
    pub fn verify_hmac(&self, hmac: &HMac, computed: &[u8]) -> (r: Result<(), Error>)
        ensures
            r is Ok <==> (hmac.hash_type == HashType::HmacSha256 && hmac.value@ == computed@),
    {
        if hmac.hash_type == HashType::HmacSha256 && crate::text::bytes_eq(hmac.value.as_slice(), computed) {
            Ok(())
        } else {
            Err(Error::new("Incorrect HMAC"))
        }
    }
}

// ------------------------------------------------------------------
// Signatures made by the TPM
// ------------------------------------------------------------------

/// The curve of an ECC key in the TPM.
#[derive(Debug, Clone, Copy, PartialEq, Eq, Structural)]
pub enum EccCurve {
    NistP256,
    NistP384,
    Other,
}

/// The COSE signature algorithm (and digest) for a key on `curve`:
/// ES256 with SHA-256 on P-256, ES384 with SHA-384 on P-384.
pub fn signature_parameters(curve: EccCurve) -> (r: Result<(DeviceSigType, HashType), Error>)
    ensures
        curve == EccCurve::NistP256 ==> r == Ok::<(DeviceSigType, HashType), Error>((DeviceSigType::ES256, HashType::Sha256)),
        curve == EccCurve::NistP384 ==> r == Ok::<(DeviceSigType, HashType), Error>((DeviceSigType::ES384, HashType::Sha384)),
        curve == EccCurve::Other ==> r is Err,
{
    match curve {
        EccCurve::NistP256 => Ok((DeviceSigType::ES256, HashType::Sha256)),
        EccCurve::NistP384 => Ok((DeviceSigType::ES384, HashType::Sha384)),
        EccCurve::Other => Err(Error::new("unsupported curve")),
    }
}

/// The width of each half of a COSE ECDSA signature for an `r` of this
/// length: 32 bytes (P-256) up to 32, 48 (P-384) above.
pub open spec fn ecdsa_half_width(r_len: nat) -> nat {
    if r_len <= 32 {
        32
    } else {
        48
    }
}

/// `b` left-padded with zeros to `width` bytes.
pub open spec fn left_pad(b: Seq<u8>, width: nat) -> Seq<u8> {
    Seq::new((width - b.len()) as nat, |i: int| 0u8) + b
}

/// The COSE form of an ECDSA signature `(r, s)`: each half left-padded to
/// the key's width and put one after the other.
pub fn ecdsa_rs_to_cose(r: &[u8], s: &[u8]) -> (sig: Vec<u8>)
    requires
        r@.len() <= 48,
        s@.len() <= ecdsa_half_width(r@.len() as nat),
    ensures
        sig@ == left_pad(r@, ecdsa_half_width(r@.len() as nat)) + left_pad(
            s@,
            ecdsa_half_width(r@.len() as nat),
        ),
{
    let key_length: usize = if r.len() <= 32 {
        32
    } else {
        48
    };
    let mut sig: Vec<u8> = Vec::new();
    let mut i: usize = 0;
    while i < key_length - r.len()
        invariant
            i <= key_length - r@.len(),
            key_length == ecdsa_half_width(r@.len() as nat),
            r@.len() <= key_length,
            sig@ == Seq::new(i as nat, |j: int| 0u8),
        decreases key_length - r@.len() - i,
    {
        sig.push(0u8);
        assert(sig@ =~= Seq::new((i + 1) as nat, |j: int| 0u8));
        i = i + 1;
    }
    crate::csr::append_bytes(&mut sig, r);
    let ghost first = sig@;
    let mut k: usize = 0;
    while k < key_length - s.len()
        invariant
            k <= key_length - s@.len(),
            key_length == ecdsa_half_width(r@.len() as nat),
            s@.len() <= key_length,
            sig@ == first + Seq::new(k as nat, |j: int| 0u8),
        decreases key_length - s@.len() - k,
    {
        sig.push(0u8);
        assert(sig@ =~= first + Seq::new((k + 1) as nat, |j: int| 0u8));
        k = k + 1;
    }
    crate::csr::append_bytes(&mut sig, s);
    assert(sig@ =~= left_pad(r@, key_length as nat) + left_pad(s@, key_length as nat));
    sig
}

/// The parameters of a TPM device key of the FDO key type `t`: its curve,
/// its digest and the size of each coordinate (and of each half of the key's
/// unique string) in bytes: P-256, SHA-256 and 32 for SECP256R1; P-384,
/// SHA-384 and 48 for SECP384R1. Other key types have none.
pub open spec fn tpm_key_params_for(t: PublicKeyType) -> Option<(EccCurve, HashType, usize)> {
    match t {
        PublicKeyType::SECP256R1 => Some((EccCurve::NistP256, HashType::Sha256, 32usize)),
        PublicKeyType::SECP384R1 => Some((EccCurve::NistP384, HashType::Sha384, 48usize)),
        _ => None,
    }
}

/// The curve, digest and coordinate size of a TPM device key of type `t`;
/// other key types are refused.
pub fn tpm_key_params(t: PublicKeyType) -> (r: Result<(EccCurve, HashType, usize), Error>)
    ensures
        r is Ok <==> tpm_key_params_for(t) is Some,
        r matches Ok(p) ==> tpm_key_params_for(t) == Some(p),
{
    match t {
        PublicKeyType::SECP256R1 => Ok((EccCurve::NistP256, HashType::Sha256, 32)),
        PublicKeyType::SECP384R1 => Ok((EccCurve::NistP384, HashType::Sha384, 48)),
        _ => Err(Error::new("Unsupported key type for a TPM key")),
    }
}

} // verus!
