//! The device credential Device Initialization leaves behind: the record
//! the device keeps in a file when its keys are kept in files (and reads
//! back before TO1 and TO2), and the two NV records it writes when its keys
//! are kept in the TPM. Writing the file and the NV indices is left to the
//! caller.

use vstd::prelude::*;

use crate::cbor::{cbor_bytes, cbor_int, cbor_text};
use crate::cbor_scan::{
    array_elements, bool_of, bytes_of, parts_view, read_bool, read_bytes, read_text, read_uint,
    split_array, uint_of, MAX_NESTING,
};
use crate::cbor_write::{
    cbor_array, concat_all, is_item_at, lemma_array_elements_of, lemma_array_is_item,
    lemma_concat_push, lemma_scalars_are_items, write_bytes, write_head, write_int, write_text,
};
use crate::constants::{lemma_protocol_version_code_roundtrip, HashType, ProtocolVersion};
use crate::csr::pow256;
use crate::ownershipvoucher::{
    hash_encoding, hash_pair_of, lemma_hash_roundtrip, lemma_rv_roundtrip, read_hash_pair,
    read_rv_info, rv_encoding, rv_info_of, rv_sizes_ok, rv_view, write_hash, write_rv,
};
use crate::tpm::EccCurve;
use crate::types::{text_item, Guid, RendezvousInfo};
use crate::Error;

verus! {

// ------------------------------------------------------------------
// The file credential
// ------------------------------------------------------------------

/// A file credential as plain values: protocol version, device info,
/// GUID, rendezvous info, manufacturer public key hash, HMAC secret and
/// private signing key (DER).
pub type FileCredentialFields = (
    ProtocolVersion,
    Seq<char>,
    Seq<u8>,
    Seq<Seq<(u8, Seq<u8>)>>,
    (HashType, Seq<u8>),
    Seq<u8>,
    Seq<u8>,
);

/// The CBOR boolean `b`.
pub open spec fn cbor_bool(b: bool) -> Seq<u8> {
    if b {
        seq![0xf5u8]
    } else {
        seq![0xf4u8]
    }
}

/// The keys of a credential kept in files: `[HMAC secret, private key]`.
pub open spec fn key_storage_encoding(hmac_secret: Seq<u8>, private_key: Seq<u8>) -> Seq<u8> {
    cbor_array(seq![cbor_bytes(hmac_secret), cbor_bytes(private_key)])
}

/// The items of a file credential: `[active, protocol version, device
/// info, GUID, rendezvous info, public key hash, [HMAC secret, private
/// key]]`.
pub open spec fn file_credential_parts(active: bool, f: FileCredentialFields) -> Seq<Seq<u8>> {
    seq![
        cbor_bool(active),
        cbor_int(f.0.spec_code() as int),
        cbor_text(f.1),
        cbor_bytes(f.2),
        rv_encoding(f.3),
        hash_encoding(f.4.0, f.4.1),
        key_storage_encoding(f.5, f.6),
    ]
}

/// The encoding of a file credential.
pub open spec fn file_credential_encoding(active: bool, f: FileCredentialFields) -> Seq<u8> {
    cbor_array(file_credential_parts(active, f))
}

/// The two keys a key-storage item `e` holds.
pub open spec fn key_storage_of(e: Seq<u8>) -> Option<(Seq<u8>, Seq<u8>)> {
    match array_elements(e) {
        Some(p) => if p.len() == 2 {
            match (bytes_of(p[0]), bytes_of(p[1])) {
                (Some(a), Some(b)) => Some((a, b)),
                _ => None,
            }
        } else {
            None
        },
        None => None,
    }
}

/// The active flag and the fields of the file credential `e` encodes.
pub open spec fn file_credential_of(e: Seq<u8>) -> Option<(bool, FileCredentialFields)> {
    match array_elements(e) {
        Some(p) => if p.len() == 7 {
            match (
                bool_of(p[0]),
                uint_of(p[1]),
                text_item(p[2]),
                bytes_of(p[3]),
                rv_info_of(p[4]),
                hash_pair_of(p[5]),
                key_storage_of(p[6]),
            ) {
                (Some(a), Some(v), Some(di), Some(g), Some(rv), Some(h), Some(ks)) => if v < 0x1_0000
                    && g.len() == 16 {
                    match ProtocolVersion::spec_from_code(v as u16) {
                        Some(pv) => Some((a, (pv, di, g, rv, h, ks.0, ks.1))),
                        None => None,
                    }
                } else {
                    None
                },
                _ => None,
            }
        } else {
            None
        },
        None => None,
    }
}

/// Fields a writer can write: sizes a head can state.
pub open spec fn file_credential_encodable(f: FileCredentialFields) -> bool {
    &&& vstd::utf8::encode_utf8(f.1).len() < pow256(8)
    &&& f.2.len() == 16
    &&& rv_sizes_ok(f.3)
    &&& f.4.1.len() < pow256(8)
    &&& f.5.len() < pow256(8)
    &&& f.6.len() < pow256(8)
}

proof fn lemma_file_credential_items(active: bool, f: FileCredentialFields)
    requires
        file_credential_encodable(f),
    ensures
        forall|i: int|
            0 <= i < file_credential_parts(active, f).len() ==> is_item_at(
                #[trigger] file_credential_parts(active, f)[i],
                (MAX_NESTING - 1) as nat,
            ),
        bool_of(file_credential_parts(active, f)[0]) == Some(active),
        uint_of(file_credential_parts(active, f)[1]) == Some(f.0.spec_code() as nat),
        text_item(file_credential_parts(active, f)[2]) == Some(f.1),
        bytes_of(file_credential_parts(active, f)[3]) == Some(f.2),
        rv_info_of(file_credential_parts(active, f)[4]) == Some(f.3),
        hash_pair_of(file_credential_parts(active, f)[5]) == Some(f.4),
        key_storage_of(file_credential_parts(active, f)[6]) == Some((f.5, f.6)),
{
    let top: nat = (MAX_NESTING - 1) as nat;
    let parts = file_credential_parts(active, f);
    reveal_with_fuel(pow256, 9);
    assert(text_item(parts[2]) == Some(f.1)) by {
        broadcast use vstd::utf8::encode_utf8_valid_utf8, vstd::utf8::encode_utf8_decode_utf8;

        lemma_scalars_are_items(f.0.spec_code() as int, f.2, f.1, top);
    }
    lemma_scalars_are_items(f.0.spec_code() as int, f.2, f.1, top);
    assert(is_item_at(parts[4], top) && rv_info_of(parts[4]) == Some(f.3)) by {
        lemma_rv_roundtrip(f.3, top);
    }
    assert(is_item_at(parts[5], top) && hash_pair_of(parts[5]) == Some(f.4)) by {
        lemma_hash_roundtrip(f.4.0, f.4.1, top);
    }
    assert(is_item_at(parts[6], top) && key_storage_of(parts[6]) == Some((f.5, f.6))) by {
        let ks = seq![cbor_bytes(f.5), cbor_bytes(f.6)];
        lemma_scalars_are_items(0, f.5, f.1, (top - 1) as nat);
        lemma_scalars_are_items(0, f.6, f.1, (top - 1) as nat);
        lemma_scalars_are_items(0, f.5, f.1, top);
        lemma_scalars_are_items(0, f.6, f.1, top);
        lemma_array_is_item(ks, top);
        lemma_array_elements_of(ks);
    }
    assert(is_item_at(parts[0], top)) by {
        assert(cbor_bool(active)[0] / 32 == 7);
        assert(cbor_bool(active)[0] % 32 == 21 || cbor_bool(active)[0] % 32 == 20);
    }
    assert forall|i: int| 0 <= i < parts.len() implies is_item_at(#[trigger] parts[i], top) by {
        if i == 0 {
        } else if i == 1 {
        } else if i == 2 {
        } else if i == 3 {
        } else if i == 4 {
        } else if i == 5 {
        } else {
        }
    }
}

/// Reading a written file credential gives back its active flag and its
/// fields.
pub proof fn lemma_file_credential_roundtrip(active: bool, f: FileCredentialFields)
    requires
        file_credential_encodable(f),
    ensures
        file_credential_of(file_credential_encoding(active, f)) == Some((active, f)),
{
    lemma_file_credential_items(active, f);
    lemma_protocol_version_code_roundtrip(f.0, 0);
    reveal_with_fuel(pow256, 9);
    lemma_array_elements_of(file_credential_parts(active, f));
}

/// A device credential kept in a file: the active flag, the fields the
/// device onboards with, and its keys.
#[derive(Debug)]
pub struct FileDeviceCredential {
    pub active: bool,
    pub protver: ProtocolVersion,
    pub device_info: String,
    pub guid: Guid,
    pub rvinfo: RendezvousInfo,
    pub pubkey_hash: crate::types::Hash,
    pub hmac_secret: Vec<u8>,
    pub private_key: Vec<u8>,
}

/// The fields of a file credential.
pub open spec fn file_credential_view(c: FileDeviceCredential) -> FileCredentialFields {
    (
        c.protver,
        c.device_info@,
        c.guid.0@,
        rv_view(c.rvinfo),
        (c.pubkey_hash.hash_type, c.pubkey_hash.value@),
        c.hmac_secret@,
        c.private_key@,
    )
}

/// A file credential with the active flag `active`, the protocol version,
/// device info, GUID, rendezvous info, manufacturer public key hash, HMAC
/// secret and private signing key (DER). Reading it back gives these
/// again.
#[verifier::rlimit(100)]
#[verifier::spinoff_prover]
fn encode_file_credential(
    active: bool,
    protocol_version: ProtocolVersion,
    device_info: &str,
    guid: &Guid,
    rv: &RendezvousInfo,
    pubkey_hash: &crate::types::Hash,
    hmac_secret: &[u8],
    private_key_der: &[u8],
) -> (r: Vec<u8>)
    ensures
        r@ == file_credential_encoding(
            active,
            (
                protocol_version,
                device_info@,
                guid.0@,
                rv_view(*rv),
                (pubkey_hash.hash_type, pubkey_hash.value@),
                hmac_secret@,
                private_key_der@,
            ),
        ),
        file_credential_of(r@) == Some(
            (
                active,
                (
                    protocol_version,
                    device_info@,
                    guid.0@,
                    rv_view(*rv),
                    (pubkey_hash.hash_type, pubkey_hash.value@),
                    hmac_secret@,
                    private_key_der@,
                ),
            ),
        ),
{
    proof {
        reveal_with_fuel(pow256, 9);
        assert(pow256(8) == 0x1_0000_0000_0000_0000);
    }
    let ghost f: FileCredentialFields = (
        protocol_version,
        device_info@,
        guid.0@,
        rv_view(*rv),
        (pubkey_hash.hash_type, pubkey_hash.value@),
        hmac_secret@,
        private_key_der@,
    );
    let ghost parts = file_credential_parts(active, f);
    let n1 = device_info.as_bytes().len();
    let n2 = pubkey_hash.value.len();
    let n3 = hmac_secret.len();
    let n4 = private_key_der.len();
    let mut buf: Vec<u8> = Vec::new();
    write_head(&mut buf, 4, 7);
    let ghost b0 = buf@;
    proof {
        assert(parts.subrange(0, 0) =~= Seq::<Seq<u8>>::empty());
    }
    let simple: u64 = if active {
        21
    } else {
        20
    };
    write_head(&mut buf, 7, simple);
    proof {
        assert(crate::cbor::cbor_head(7, simple as nat) =~= cbor_bool(active));
        assert(buf@ =~= b0 + cbor_bool(active));
        lemma_concat_push(parts.subrange(0, 0), parts[0]);
        assert(parts.subrange(0, 1) =~= parts.subrange(0, 0).push(parts[0]));
    }
    write_head(&mut buf, 0, protocol_version.code() as u64);
    proof {
        lemma_concat_push(parts.subrange(0, 1), parts[1]);
        assert(parts.subrange(0, 2) =~= parts.subrange(0, 1).push(parts[1]));
    }
    write_text(&mut buf, device_info);
    proof {
        lemma_concat_push(parts.subrange(0, 2), parts[2]);
        assert(parts.subrange(0, 3) =~= parts.subrange(0, 2).push(parts[2]));
    }
    write_bytes(&mut buf, guid.0.as_slice());
    proof {
        lemma_concat_push(parts.subrange(0, 3), parts[3]);
        assert(parts.subrange(0, 4) =~= parts.subrange(0, 3).push(parts[3]));
    }
    write_rv(&mut buf, rv);
    proof {
        lemma_concat_push(parts.subrange(0, 4), parts[4]);
        assert(parts.subrange(0, 5) =~= parts.subrange(0, 4).push(parts[4]));
    }
    write_hash(&mut buf, pubkey_hash.hash_type, pubkey_hash.value.as_slice());
    proof {
        lemma_concat_push(parts.subrange(0, 5), parts[5]);
        assert(parts.subrange(0, 6) =~= parts.subrange(0, 5).push(parts[5]));
    }
    let ghost b6 = buf@;
    write_head(&mut buf, 4, 2);
    write_bytes(&mut buf, hmac_secret);
    write_bytes(&mut buf, private_key_der);
    proof {
        reveal_with_fuel(concat_all, 3);
        let ks = seq![cbor_bytes(hmac_secret@), cbor_bytes(private_key_der@)];
        assert(concat_all(ks) =~= ks[0] + ks[1]);
        assert(buf@ =~= b6 + key_storage_encoding(hmac_secret@, private_key_der@));
        lemma_concat_push(parts.subrange(0, 6), parts[6]);
        assert(parts.subrange(0, 7) =~= parts.subrange(0, 6).push(parts[6]));
        assert(parts.subrange(0, 7) =~= parts);
        assert(buf@ =~= file_credential_encoding(active, f));
        lemma_file_credential_roundtrip(active, f);
    }
    buf
}

/// The file credential Device Initialization writes: active, with the
/// protocol version, device info, GUID and rendezvous info of the voucher
/// header it received, the hash of the manufacturer's public key, and the
/// device's HMAC secret and private signing key (DER). Reading it back
/// gives these again.
pub fn file_credential_bytes(
    protocol_version: ProtocolVersion,
    device_info: &str,
    guid: &Guid,
    rv: &RendezvousInfo,
    pubkey_hash: &crate::types::Hash,
    hmac_secret: &[u8],
    private_key_der: &[u8],
) -> (r: Vec<u8>)
    ensures
        r@ == file_credential_encoding(
            true,
            (
                protocol_version,
                device_info@,
                guid.0@,
                rv_view(*rv),
                (pubkey_hash.hash_type, pubkey_hash.value@),
                hmac_secret@,
                private_key_der@,
            ),
        ),
        file_credential_of(r@) == Some(
            (
                true,
                (
                    protocol_version,
                    device_info@,
                    guid.0@,
                    rv_view(*rv),
                    (pubkey_hash.hash_type, pubkey_hash.value@),
                    hmac_secret@,
                    private_key_der@,
                ),
            ),
        ),
{
    encode_file_credential(true, protocol_version, device_info, guid, rv, pubkey_hash, hmac_secret, private_key_der)
}

impl FileDeviceCredential {
    /// The credential's encoding, with its active flag; reading it back
    /// gives the credential again. Onboarding writes a credential back
    /// deactivated once TO2 is done.
    pub fn to_cbor(&self) -> (r: Vec<u8>)
        ensures
            r@ == file_credential_encoding(self.active, file_credential_view(*self)),
            file_credential_of(r@) == Some((self.active, file_credential_view(*self))),
    {
        encode_file_credential(
            self.active,
            self.protver,
            self.device_info.as_str(),
            &self.guid,
            &self.rvinfo,
            &self.pubkey_hash,
            self.hmac_secret.as_slice(),
            self.private_key.as_slice(),
        )
    }

    /// Read a file credential from its encoding.
    pub fn from_cbor(d: &[u8]) -> (r: Result<FileDeviceCredential, Error>)
        ensures
            r is Ok <==> file_credential_of(d@) is Some,
            r matches Ok(c) ==> file_credential_of(d@) == Some((c.active, file_credential_view(c))),
    {
        let p = match split_array(d) {
            Some(p) => p,
            None => {
                return Err(Error::new("Device credential is not a CBOR array"));
            },
        };
        if p.len() != 7 {
            return Err(Error::new("Device credential must have 7 elements"));
        }
        proof {
            let v = parts_view(p@);
            assert(v[0] == p@[0]@);
            assert(v[1] == p@[1]@);
            assert(v[2] == p@[2]@);
            assert(v[3] == p@[3]@);
            assert(v[4] == p@[4]@);
            assert(v[5] == p@[5]@);
            assert(v[6] == p@[6]@);
        }
        let active = read_bool(p[0].as_slice());
        let version = read_uint(p[1].as_slice());
        let device_info = read_text(p[2].as_slice());
        let guid = read_bytes(p[3].as_slice());
        let rvinfo = read_rv_info(p[4].as_slice());
        let hash = read_hash_pair(p[5].as_slice());
        let keys = read_key_storage(p[6].as_slice());
        match (active, version, device_info, guid, rvinfo, hash, keys) {
            (Some(a), Some(v), Some(di), Some(g), Some(rv), Some((ht, hv)), Some((hmac, pk))) => {
                if v >= 0x1_0000 {
                    return Err(Error::new("Unknown protocol version"));
                }
                let pv = match ProtocolVersion::from_code(v as u16) {
                    Some(pv) => pv,
                    None => {
                        return Err(Error::new("Unknown protocol version"));
                    },
                };
                if g.len() != 16 {
                    return Err(Error::new("GUID must be 16 bytes"));
                }
                let guid_arr: [u8; 16] = [
                    g[0], g[1], g[2], g[3], g[4], g[5], g[6], g[7], g[8], g[9], g[10], g[11], g[12],
                    g[13], g[14], g[15],
                ];
                proof {
                    assert(guid_arr@ =~= g@);
                }
                Ok(
                    FileDeviceCredential {
                        active: a,
                        protver: pv,
                        device_info: di,
                        guid: Guid(guid_arr),
                        rvinfo: rv,
                        pubkey_hash: crate::types::Hash { hash_type: ht, value: hv },
                        hmac_secret: hmac,
                        private_key: pk,
                    },
                )
            },
            _ => Err(Error::new("Invalid device credential field")),
        }
    }
}

fn read_key_storage(e: &[u8]) -> (r: Option<(Vec<u8>, Vec<u8>)>)
    ensures
        r is None <==> key_storage_of(e@) is None,
        r matches Some((a, b)) ==> key_storage_of(e@) == Some((a@, b@)),
{
    let p = match split_array(e) {
        Some(p) => p,
        None => {
            return None;
        },
    };
    if p.len() != 2 {
        return None;
    }
    proof {
        assert(parts_view(p@)[0] == p@[0]@);
        assert(parts_view(p@)[1] == p@[1]@);
    }
    match (read_bytes(p[0].as_slice()), read_bytes(p[1].as_slice())) {
        (Some(a), Some(b)) => Some((a, b)),
        _ => None,
    }
}

// ------------------------------------------------------------------
// The NV records of a credential kept in the TPM
// ------------------------------------------------------------------

/// The DCTPM NV record: the 16 GUID bytes followed by the device info's
/// UTF-8 bytes.
pub open spec fn dctpm_nv_encoding(guid: Seq<u8>, device_info: Seq<char>) -> Seq<u8> {
    guid + vstd::utf8::encode_utf8(device_info)
}

/// The DCTPM NV record Device Initialization writes for a device whose
/// keys are in the TPM.
pub fn dctpm_nv_bytes(guid: &Guid, device_info: &str) -> (r: Vec<u8>)
    ensures
        r@ == dctpm_nv_encoding(guid.0@, device_info@),
{
    let mut r = vstd::slice::slice_to_vec(guid.0.as_slice());
    crate::csr::append_bytes(&mut r, device_info.as_bytes());
    r
}

/// The key-type number the DCOV record carries for a TPM key on `curve`:
/// 10 (SECP256R1) on P-256, 11 (SECP384R1) on P-384, 0 on another curve.
pub open spec fn dcov_key_type_for(curve: EccCurve) -> u8 {
    match curve {
        EccCurve::NistP256 => 10,
        EccCurve::NistP384 => 11,
        EccCurve::Other => 0,
    }
}

/// The key-type number of the DCOV record for a TPM key on `curve`.
pub fn dcov_key_type(curve: EccCurve) -> (r: u8)
    ensures
        r == dcov_key_type_for(curve),
{
    match curve {
        EccCurve::NistP256 => 10,
        EccCurve::NistP384 => 11,
        EccCurve::Other => 0,
    }
}

/// The items of the DCOV NV record: `[protocol version, rendezvous info,
/// manufacturer public key hash, key type, HMAC key handle]`.
pub open spec fn dcov_parts(
    pv: ProtocolVersion,
    rv: Seq<Seq<(u8, Seq<u8>)>>,
    h: (HashType, Seq<u8>),
    key_type: u8,
    hmac_handle: u32,
) -> Seq<Seq<u8>> {
    seq![
        cbor_int(pv.spec_code() as int),
        rv_encoding(rv),
        hash_encoding(h.0, h.1),
        cbor_int(key_type as int),
        cbor_int(hmac_handle as int),
    ]
}

/// The DCOV NV record.
pub open spec fn dcov_nv_encoding(
    pv: ProtocolVersion,
    rv: Seq<Seq<(u8, Seq<u8>)>>,
    h: (HashType, Seq<u8>),
    key_type: u8,
    hmac_handle: u32,
) -> Seq<u8> {
    cbor_array(dcov_parts(pv, rv, h, key_type, hmac_handle))
}

/// The DCOV NV record Device Initialization writes for a device whose
/// keys are in the TPM.
pub fn dcov_nv_bytes(
    protocol_version: ProtocolVersion,
    rv: &RendezvousInfo,
    pubkey_hash: &crate::types::Hash,
    key_type: u8,
    hmac_handle: u32,
) -> (r: Vec<u8>)
    ensures
        r@ == dcov_nv_encoding(
            protocol_version,
            rv_view(*rv),
            (pubkey_hash.hash_type, pubkey_hash.value@),
            key_type,
            hmac_handle,
        ),
{
    let ghost parts = dcov_parts(
        protocol_version,
        rv_view(*rv),
        (pubkey_hash.hash_type, pubkey_hash.value@),
        key_type,
        hmac_handle,
    );
    let mut buf: Vec<u8> = Vec::new();
    write_head(&mut buf, 4, 5);
    proof {
        assert(parts.subrange(0, 0) =~= Seq::<Seq<u8>>::empty());
    }
    write_head(&mut buf, 0, protocol_version.code() as u64);
    proof {
        lemma_concat_push(parts.subrange(0, 0), parts[0]);
        assert(parts.subrange(0, 1) =~= parts.subrange(0, 0).push(parts[0]));
    }
    write_rv(&mut buf, rv);
    proof {
        lemma_concat_push(parts.subrange(0, 1), parts[1]);
        assert(parts.subrange(0, 2) =~= parts.subrange(0, 1).push(parts[1]));
    }
    write_hash(&mut buf, pubkey_hash.hash_type, pubkey_hash.value.as_slice());
    proof {
        lemma_concat_push(parts.subrange(0, 2), parts[2]);
        assert(parts.subrange(0, 3) =~= parts.subrange(0, 2).push(parts[2]));
    }
    write_head(&mut buf, 0, key_type as u64);
    proof {
        lemma_concat_push(parts.subrange(0, 3), parts[3]);
        assert(parts.subrange(0, 4) =~= parts.subrange(0, 3).push(parts[3]));
    }
    write_head(&mut buf, 0, hmac_handle as u64);
    proof {
        lemma_concat_push(parts.subrange(0, 4), parts[4]);
        assert(parts.subrange(0, 5) =~= parts.subrange(0, 4).push(parts[4]));
        assert(parts.subrange(0, 5) =~= parts);
    }
    buf
}

/// The NV records read back as what was written: the DCTPM record's first
/// 16 bytes are the GUID and the rest decodes (UTF-8) to the device info;
/// the DCOV record is an array of five items, which read as the protocol
/// version's number, the rendezvous info, the public key hash, the key
/// type and the HMAC key handle.
pub proof fn lemma_nv_records_read_back(
    guid: Seq<u8>,
    device_info: Seq<char>,
    pv: ProtocolVersion,
    rv: Seq<Seq<(u8, Seq<u8>)>>,
    h: (HashType, Seq<u8>),
    key_type: u8,
    hmac_handle: u32,
)
    requires
        guid.len() == 16,
        rv_sizes_ok(rv),
        h.1.len() < pow256(8),
    ensures
        dctpm_nv_encoding(guid, device_info).subrange(0, 16) == guid,
        vstd::utf8::valid_utf8(dctpm_nv_encoding(guid, device_info).subrange(
            16,
            dctpm_nv_encoding(guid, device_info).len() as int,
        )),
        vstd::utf8::decode_utf8(
            dctpm_nv_encoding(guid, device_info).subrange(16, dctpm_nv_encoding(guid, device_info).len() as int),
        ) == device_info,
        array_elements(dcov_nv_encoding(pv, rv, h, key_type, hmac_handle)) == Some(
            dcov_parts(pv, rv, h, key_type, hmac_handle),
        ),
        uint_of(dcov_parts(pv, rv, h, key_type, hmac_handle)[0]) == Some(pv.spec_code() as nat),
        rv_info_of(dcov_parts(pv, rv, h, key_type, hmac_handle)[1]) == Some(rv),
        hash_pair_of(dcov_parts(pv, rv, h, key_type, hmac_handle)[2]) == Some(h),
        uint_of(dcov_parts(pv, rv, h, key_type, hmac_handle)[3]) == Some(key_type as nat),
        uint_of(dcov_parts(pv, rv, h, key_type, hmac_handle)[4]) == Some(hmac_handle as nat),
{
    broadcast use vstd::utf8::encode_utf8_valid_utf8, vstd::utf8::encode_utf8_decode_utf8;

    let d = dctpm_nv_encoding(guid, device_info);
    assert(d.subrange(0, 16) =~= guid);
    assert(d.subrange(16, d.len() as int) =~= vstd::utf8::encode_utf8(device_info));
    let top: nat = (MAX_NESTING - 1) as nat;
    reveal_with_fuel(pow256, 9);
    let parts = dcov_parts(pv, rv, h, key_type, hmac_handle);
    lemma_scalars_are_items(pv.spec_code() as int, Seq::empty(), Seq::empty(), top);
    lemma_scalars_are_items(key_type as int, Seq::empty(), Seq::empty(), top);
    lemma_scalars_are_items(hmac_handle as int, Seq::empty(), Seq::empty(), top);
    lemma_rv_roundtrip(rv, top);
    lemma_hash_roundtrip(h.0, h.1, top);
    assert forall|i: int| 0 <= i < parts.len() implies is_item_at(#[trigger] parts[i], top) by {}
    lemma_array_elements_of(parts);
}

} // verus!
