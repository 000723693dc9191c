use vstd::prelude::*;

use crate::constants::{HashType, MessageType, ProtocolVersion};
use crate::messages::{required_encryption, valid_previous_message, EncryptionRequirement};
use crate::cbor::{cbor_array_head, cbor_bytes, cbor_int};
use crate::cbor_scan::{
    array_elements, bool_of, read_bool, bytes_of, int_of, read_int, is_null_item, parts_view, read_bytes, read_null, read_uint, split_array,
    uint_of, MAX_NESTING,
};
use crate::cbor_write::{
    cbor_array, cbor_null, concat_all, is_item_at, lemma_array_elements_of, lemma_scalars_are_items,
    lemma_concat_push, write_bytes, write_head, write_int, write_null,
};
use crate::csr::pow256;
use crate::ownershipvoucher::{
    cose_payload_of, hash_encoding, hash_pair_of, write_hash, lemma_rv_roundtrip, read_hash_pair, opt_bytes_encoding, read_rv_info, rv_encoding, rv_info_of,
    rv_view, write_rv, OwnershipVoucherEntry,
};
use crate::Error;
use crate::types::{
    capability_flags_encoding, capability_flags_of, capability_flags_view, read_sig_info, service_info_of, service_info_view, sig_info_of, SigInfo,
    COSESign, CapabilityFlags, CipherSuite, Guid, HMac, KexSuite, Nonce, RendezvousInfo, ServiceInfo,
};

verus! {

/// The largest message the device accepts, announced in HelloDeviceProbe.
pub const MAX_MESSAGE_SIZE: u16 = 65535;

/// TO2.HelloDeviceProbe (type 80): the device opens TO2.
#[derive(Debug)]
pub struct HelloDeviceProbe {
    pub capability_flags: CapabilityFlags,
    pub guid: Guid,
    pub max_device_message_size: u16,
    pub hash_types: Vec<i8>,
    pub sugar: Vec<u8>,
}

impl HelloDeviceProbe {
    /// A probe for device `guid`, announcing the largest message size.
    pub fn new(guid: Guid, capability_flags: CapabilityFlags, hash_types: Vec<i8>, sugar: Vec<
        u8,
    >) -> (r: HelloDeviceProbe)
        ensures
            r.guid == guid,
            r.capability_flags == capability_flags,
            r.max_device_message_size == MAX_MESSAGE_SIZE,
            r.hash_types@ == hash_types@,
            r.sugar@ == sugar@,
    {
        HelloDeviceProbe {
            capability_flags,
            guid,
            max_device_message_size: MAX_MESSAGE_SIZE,
            hash_types,
            sugar,
        }
    }

    /// The device GUID.
    pub fn guid(&self) -> (r: &Guid)
        ensures
            *r == self.guid,
    {
        &self.guid
    }

    /// The device's capability flags.
    pub fn capability_flags(&self) -> (r: &CapabilityFlags)
        ensures
            *r == self.capability_flags,
    {
        &self.capability_flags
    }
}

impl HelloDeviceProbe {
    /// The message number.
    pub fn message_type() -> (r: MessageType)
        ensures
            r == MessageType::TO2HelloDeviceProbe,
    {
        MessageType::TO2HelloDeviceProbe
    }

    /// The protocol version the message belongs to.
    pub fn protocol_version() -> (r: ProtocolVersion)
        ensures
            r == ProtocolVersion::Version2_0,
    {
        ProtocolVersion::Version2_0
    }

    /// Whether the message may follow one of type `message_type`.
    pub fn is_valid_previous_message(message_type: Option<MessageType>) -> (r: bool)
        ensures
            r == valid_previous_message(MessageType::TO2HelloDeviceProbe, message_type),
    {
        match message_type {
            None => true,
            _ => false,
        }
    }

    /// Whether the message must travel encrypted.
    pub fn encryption_requirement() -> (r: Option<EncryptionRequirement>)
        ensures
            r == Some(required_encryption(MessageType::TO2HelloDeviceProbe)),
    {
        Some(EncryptionRequirement::MustNotBeEncrypted)
    }
}

/// TO2.HelloDeviceAck20 (type 81): the owner's answer to the probe.
#[derive(Debug)]
pub struct HelloDeviceAck20 {
    pub capability_flags: CapabilityFlags,
    pub guid: Guid,
    pub max_owner_message_size: u16,
    pub kex_suites: Vec<KexSuite>,
    pub cipher_suites: Vec<CipherSuite>,
    pub nonce_to2_prove_dv_prep: Nonce,
    pub hash_prev: crate::types::Hash,
}

impl HelloDeviceAck20 {
    /// The owner's capability flags.
    pub fn capability_flags(&self) -> (r: &CapabilityFlags)
        ensures
            *r == self.capability_flags,
    {
        &self.capability_flags
    }

    /// The device GUID the owner answers for.
    pub fn guid(&self) -> (r: &Guid)
        ensures
            *r == self.guid,
    {
        &self.guid
    }

    /// The largest message the owner accepts.
    pub fn max_owner_message_size(&self) -> (r: u16)
        ensures
            r == self.max_owner_message_size,
    {
        self.max_owner_message_size
    }

    /// The key exchange suites the owner offers.
    pub fn kex_suites(&self) -> (r: &[KexSuite])
        ensures
            r@ == self.kex_suites@,
    {
        self.kex_suites.as_slice()
    }

    /// The cipher suites the owner offers.
    pub fn cipher_suites(&self) -> (r: &[CipherSuite])
        ensures
            r@ == self.cipher_suites@,
    {
        self.cipher_suites.as_slice()
    }

    /// The nonce the device must echo in ProveDevice20.
    pub fn nonce_to2_prove_dv_prep(&self) -> (r: &Nonce)
        ensures
            *r == self.nonce_to2_prove_dv_prep,
    {
        &self.nonce_to2_prove_dv_prep
    }

    /// The hash of the probe.
    pub fn hash_prev(&self) -> (r: &crate::types::Hash)
        ensures
            *r == self.hash_prev,
    {
        &self.hash_prev
    }
}

impl HelloDeviceAck20 {
    /// The message number.
    pub fn message_type() -> (r: MessageType)
        ensures
            r == MessageType::TO2HelloDeviceAck20,
    {
        MessageType::TO2HelloDeviceAck20
    }

    /// The protocol version the message belongs to.
    pub fn protocol_version() -> (r: ProtocolVersion)
        ensures
            r == ProtocolVersion::Version2_0,
    {
        ProtocolVersion::Version2_0
    }

    /// Whether the message may follow one of type `message_type`.
    pub fn is_valid_previous_message(message_type: Option<MessageType>) -> (r: bool)
        ensures
            r == valid_previous_message(MessageType::TO2HelloDeviceAck20, message_type),
    {
        match message_type {
            Some(MessageType::TO2HelloDeviceProbe) => true,
            _ => false,
        }
    }

    /// Whether the message must travel encrypted.
    pub fn encryption_requirement() -> (r: Option<EncryptionRequirement>)
        ensures
            r == Some(required_encryption(MessageType::TO2HelloDeviceAck20)),
    {
        Some(EncryptionRequirement::MustNotBeEncrypted)
    }
}

/// TO2.ProveDevice20 (type 82): the device proves itself first.
#[derive(Debug)]
pub struct ProveDevice20(pub COSESign);

impl ProveDevice20 {
    /// A message carrying `token`.
    pub fn new(token: COSESign) -> (r: ProveDevice20)
        ensures
            r.0 == token,
    {
        ProveDevice20(token)
    }

    /// The signed token.
    pub fn token(&self) -> (r: &COSESign)
        ensures
            *r == self.0,
    {
        &self.0
    }

    /// The signed token, taking the message apart.
    pub fn into_token(self) -> (r: COSESign)
        ensures
            r == self.0,
    {
        self.0
    }
}

impl ProveDevice20 {
    /// The message number.
    pub fn message_type() -> (r: MessageType)
        ensures
            r == MessageType::TO2ProveDevice20,
    {
        MessageType::TO2ProveDevice20
    }

    /// The protocol version the message belongs to.
    pub fn protocol_version() -> (r: ProtocolVersion)
        ensures
            r == ProtocolVersion::Version2_0,
    {
        ProtocolVersion::Version2_0
    }

    /// Whether the message may follow one of type `message_type`.
    pub fn is_valid_previous_message(message_type: Option<MessageType>) -> (r: bool)
        ensures
            r == valid_previous_message(MessageType::TO2ProveDevice20, message_type),
    {
        match message_type {
            Some(MessageType::TO2HelloDeviceAck20) => true,
            _ => false,
        }
    }

    /// Whether the message must travel encrypted.
    pub fn encryption_requirement() -> (r: Option<EncryptionRequirement>)
        ensures
            r == Some(required_encryption(MessageType::TO2ProveDevice20)),
    {
        Some(EncryptionRequirement::MustNotBeEncrypted)
    }
}

/// The payload of TO2.ProveOVHdr20: the voucher header's encoding, the
/// number of voucher entries, the header's HMAC, the echoed nonce, the
/// owner's signature information, its key exchange parameter, the hash of
/// HelloDeviceProbe and the largest message the owner accepts.
#[derive(Debug)]
pub struct TO2ProveOVHdr20Payload {
    pub ov_header: Vec<u8>,
    pub num_ov_entries: u16,
    pub hmac: HMac,
    pub nonce_to2_prove_ov: Nonce,
    pub b_signature_info: SigInfo,
    pub xb_key_exchange: Vec<u8>,
    pub hello_device_hash: crate::types::Hash,
    pub max_owner_message_size: u16,
}

/// The payload as plain values.
pub type ProveOvHdrFields = (
    Seq<u8>,
    u16,
    (HashType, Seq<u8>),
    Seq<u8>,
    (i8, Seq<u8>),
    Seq<u8>,
    (HashType, Seq<u8>),
    u16,
);

pub open spec fn prove_ov_hdr_payload_view(m: TO2ProveOVHdr20Payload) -> ProveOvHdrFields {
    (
        m.ov_header@,
        m.num_ov_entries,
        (m.hmac.hash_type, m.hmac.value@),
        m.nonce_to2_prove_ov.0@,
        (m.b_signature_info.sig_type, m.b_signature_info.info@),
        m.xb_key_exchange@,
        (m.hello_device_hash.hash_type, m.hello_device_hash.value@),
        m.max_owner_message_size,
    )
}

/// The ProveOVHdr20 payload `d` encodes: an array of the eight fields.
pub open spec fn prove_ov_hdr_payload_of(d: Seq<u8>) -> Option<ProveOvHdrFields> {
    match array_elements(d) {
        Some(p) => if p.len() == 8 {
            match (bytes_of(p[0]), uint_of(p[1]), hash_pair_of(p[2]), bytes_of(p[3])) {
                (Some(h), Some(n), Some(hm), Some(nonce)) => match (
                    sig_info_of(p[4]),
                    bytes_of(p[5]),
                    hash_pair_of(p[6]),
                    uint_of(p[7]),
                ) {
                    (Some(si), Some(xb), Some(hh), Some(m)) => if n < 0x1_0000 && m < 0x1_0000 {
                        Some((h, n as u16, hm, nonce, si, xb, hh, m as u16))
                    } else {
                        None
                    },
                    _ => None,
                },
                _ => None,
            }
        } else {
            None
        },
        None => None,
    }
}

impl TO2ProveOVHdr20Payload {
    /// Read the payload from its CBOR encoding.
    pub fn from_cbor(d: &[u8]) -> (r: Result<TO2ProveOVHdr20Payload, Error>)
        ensures
            r is Ok <==> prove_ov_hdr_payload_of(d@) is Some,
            r matches Ok(m) ==> prove_ov_hdr_payload_of(d@) == Some(prove_ov_hdr_payload_view(m)),
    {
        let p = match split_array(d) {
            Some(p) => p,
            None => {
                return Err(Error::new("ProveOVHdr20 payload is not a CBOR array"));
            },
        };
        if p.len() != 8 {
            return Err(Error::new("ProveOVHdr20 payload must have 8 elements"));
        }
        proof {
            let v = parts_view(p@);
            assert(v[0] == p@[0]@);
            assert(v[1] == p@[1]@);
            assert(v[2] == p@[2]@);
            assert(v[3] == p@[3]@);
            assert(v[4] == p@[4]@);
            assert(v[5] == p@[5]@);
            assert(v[6] == p@[6]@);
            assert(v[7] == p@[7]@);
        }
        let h = read_bytes(p[0].as_slice());
        let n = read_uint(p[1].as_slice());
        let hm = read_hash_pair(p[2].as_slice());
        let nonce = read_bytes(p[3].as_slice());
        let si = read_sig_info(p[4].as_slice());
        let xb = read_bytes(p[5].as_slice());
        let hh = read_hash_pair(p[6].as_slice());
        let m = read_uint(p[7].as_slice());
        match (h, n, hm, nonce, si, xb, hh, m) {
            (Some(h), Some(n), Some(hm), Some(nonce), Some(si), Some(xb), Some(hh), Some(m)) => {
                if n >= 0x1_0000 || m >= 0x1_0000 {
                    return Err(Error::new("ProveOVHdr20 payload number out of range"));
                }
                Ok(
                    TO2ProveOVHdr20Payload {
                        ov_header: h,
                        num_ov_entries: n as u16,
                        hmac: HMac { hash_type: hm.0, value: hm.1 },
                        nonce_to2_prove_ov: Nonce(nonce),
                        b_signature_info: si,
                        xb_key_exchange: xb,
                        hello_device_hash: crate::types::Hash { hash_type: hh.0, value: hh.1 },
                        max_owner_message_size: m as u16,
                    },
                )
            },
            _ => Err(Error::new("Invalid ProveOVHdr20 payload field")),
        }
    }
}

/// TO2.ProveOVHdr20 (type 83): the owner proves the voucher header.
#[derive(Debug)]
pub struct ProveOVHdr20(pub COSESign);

impl ProveOVHdr20 {
    /// A message carrying `token`.
    pub fn new(token: COSESign) -> (r: ProveOVHdr20)
        ensures
            r.0 == token,
    {
        ProveOVHdr20(token)
    }

    /// The signed token.
    pub fn token(&self) -> (r: &COSESign)
        ensures
            *r == self.0,
    {
        &self.0
    }

    /// The signed token, taking the message apart.
    pub fn into_token(self) -> (r: COSESign)
        ensures
            r == self.0,
    {
        self.0
    }
}

impl ProveOVHdr20 {
    /// The message number.
    pub fn message_type() -> (r: MessageType)
        ensures
            r == MessageType::TO2ProveOVHdr20,
    {
        MessageType::TO2ProveOVHdr20
    }

    /// The protocol version the message belongs to.
    pub fn protocol_version() -> (r: ProtocolVersion)
        ensures
            r == ProtocolVersion::Version2_0,
    {
        ProtocolVersion::Version2_0
    }

    /// Whether the message may follow one of type `message_type`.
    pub fn is_valid_previous_message(message_type: Option<MessageType>) -> (r: bool)
        ensures
            r == valid_previous_message(MessageType::TO2ProveOVHdr20, message_type),
    {
        match message_type {
            Some(MessageType::TO2ProveDevice20) => true,
            _ => false,
        }
    }

    /// Whether the message must travel encrypted.
    pub fn encryption_requirement() -> (r: Option<EncryptionRequirement>)
        ensures
            r == Some(required_encryption(MessageType::TO2ProveOVHdr20)),
    {
        Some(EncryptionRequirement::MustNotBeEncrypted)
    }
}

/// TO2.GetOVNextEntry20 (type 84): the device asks for a voucher entry.
#[derive(Debug)]
pub struct GetOVNextEntry20 {
    pub entry_num: u8,
}

impl GetOVNextEntry20 {
    /// A request for entry `entry_num`.
    pub fn new(entry_num: u8) -> (r: GetOVNextEntry20)
        ensures
            r.entry_num == entry_num,
    {
        GetOVNextEntry20 { entry_num }
    }

    /// The entry asked for.
    pub fn entry_num(&self) -> (r: u8)
        ensures
            r == self.entry_num,
    {
        self.entry_num
    }
}

impl GetOVNextEntry20 {
    /// The message number.
    pub fn message_type() -> (r: MessageType)
        ensures
            r == MessageType::TO2GetOVNextEntry20,
    {
        MessageType::TO2GetOVNextEntry20
    }

    /// The protocol version the message belongs to.
    pub fn protocol_version() -> (r: ProtocolVersion)
        ensures
            r == ProtocolVersion::Version2_0,
    {
        ProtocolVersion::Version2_0
    }

    /// Whether the message may follow one of type `message_type`.
    pub fn is_valid_previous_message(message_type: Option<MessageType>) -> (r: bool)
        ensures
            r == valid_previous_message(MessageType::TO2GetOVNextEntry20, message_type),
    {
        match message_type {
            Some(MessageType::TO2ProveOVHdr20) | Some(MessageType::TO2OVNextEntry20) => true,
            _ => false,
        }
    }

    /// Whether the message must travel encrypted.
    pub fn encryption_requirement() -> (r: Option<EncryptionRequirement>)
        ensures
            r == Some(required_encryption(MessageType::TO2GetOVNextEntry20)),
    {
        Some(EncryptionRequirement::MustNotBeEncrypted)
    }
}

/// TO2.OVNextEntry20 (type 85): the owner sends a voucher entry.
#[derive(Debug)]
pub struct OVNextEntry20 {
    pub entry_num: u8,
    pub entry: OwnershipVoucherEntry,
}

impl OVNextEntry20 {
    /// Entry number `entry_num`, holding `entry`.
    pub fn new(entry_num: u8, entry: OwnershipVoucherEntry) -> (r: OVNextEntry20)
        ensures
            r.entry_num == entry_num,
            r.entry == entry,
    {
        OVNextEntry20 { entry_num, entry }
    }

    /// The entry's number.
    pub fn entry_num(&self) -> (r: u8)
        ensures
            r == self.entry_num,
    {
        self.entry_num
    }

    /// The entry.
    pub fn entry(&self) -> (r: &OwnershipVoucherEntry)
        ensures
            *r == self.entry,
    {
        &self.entry
    }

    /// The entry, taking the message apart.
    pub fn into_entry(self) -> (r: OwnershipVoucherEntry)
        ensures
            r == self.entry,
    {
        self.entry
    }
}

/// The entry number and entry bytes an OVNextEntry20 encoding `d`
/// carries: `[entry number, entry bytes]`, the entry being a COSE_Sign1
/// with a payload.
pub open spec fn ov_next_entry_of(d: Seq<u8>) -> Option<(u8, Seq<u8>)> {
    match array_elements(d) {
        Some(p) => if p.len() == 2 {
            match (uint_of(p[0]), bytes_of(p[1])) {
                (Some(n), Some(e)) => if n < 256 && cose_payload_of(e) is Some {
                    Some((n as u8, e))
                } else {
                    None
                },
                _ => None,
            }
        } else {
            None
        },
        None => None,
    }
}

/// The encoding of an OVNextEntry20.
pub open spec fn ov_next_entry_encoding(n: u8, e: Seq<u8>) -> Seq<u8> {
    cbor_array(seq![cbor_int(n as int), cbor_bytes(e)])
}

impl OVNextEntry20 {
    /// The message's CBOR encoding: the entry number and the entry's
    /// encoding in a byte string.
    pub fn to_cbor(&self) -> (r: Vec<u8>)
        ensures
            r@ == ov_next_entry_encoding(self.entry_num, self.entry.0.0@),
            cose_payload_of(self.entry.0.0@) is Some ==> ov_next_entry_of(r@) == Some(
                (self.entry_num, self.entry.0.0@),
            ),
    {
        proof {
            reveal_with_fuel(pow256, 9);
            reveal_with_fuel(concat_all, 3);
            assert(pow256(8) == 0x1_0000_0000_0000_0000);
        }
        let e = self.entry.to_cbor();
        let n = e.len();
        let mut buf: Vec<u8> = Vec::new();
        write_head(&mut buf, 4, 2);
        write_head(&mut buf, 0, self.entry_num as u64);
        write_bytes(&mut buf, e.as_slice());
        proof {
            let parts = seq![cbor_int(self.entry_num as int), cbor_bytes(e@)];
            assert(concat_all(parts) =~= cbor_int(self.entry_num as int) + cbor_bytes(e@));
            assert(buf@ =~= ov_next_entry_encoding(self.entry_num, e@));
            lemma_scalars_are_items(self.entry_num as int, e@, Seq::empty(), (MAX_NESTING - 1) as nat);
            assert forall|i: int| 0 <= i < parts.len() implies is_item_at(
                #[trigger] parts[i],
                (MAX_NESTING - 1) as nat,
            ) by {}
            lemma_array_elements_of(parts);
        }
        buf
    }

    /// Read the message: an entry number below 256 and a byte string
    /// holding a COSE_Sign1 with a payload.
    pub fn from_cbor(d: &[u8]) -> (r: Result<OVNextEntry20, Error>)
        ensures
            r is Ok <==> ov_next_entry_of(d@) is Some,
            r matches Ok(m) ==> ov_next_entry_of(d@) == Some((m.entry_num, m.entry.0.0@)),
    {
        let p = match split_array(d) {
            Some(p) => p,
            None => {
                return Err(Error::new("OVNextEntry20 is not a CBOR array"));
            },
        };
        if p.len() != 2 {
            return Err(Error::new("OVNextEntry20 must have 2 elements"));
        }
        proof {
            assert(parts_view(p@)[0] == p@[0]@);
            assert(parts_view(p@)[1] == p@[1]@);
        }
        let n = match read_uint(p[0].as_slice()) {
            Some(n) => n,
            None => {
                return Err(Error::new("OVNextEntry20 entry number is not an unsigned integer"));
            },
        };
        if n >= 256 {
            return Err(Error::new("OVNextEntry20 entry number out of range"));
        }
        let e = match read_bytes(p[1].as_slice()) {
            Some(e) => e,
            None => {
                return Err(Error::new("OVNextEntry20 entry is not a byte string"));
            },
        };
        let entry = OwnershipVoucherEntry::from_cbor(e.as_slice())?;
        Ok(OVNextEntry20 { entry_num: n as u8, entry })
    }
}

impl OVNextEntry20 {
    /// The message number.
    pub fn message_type() -> (r: MessageType)
        ensures
            r == MessageType::TO2OVNextEntry20,
    {
        MessageType::TO2OVNextEntry20
    }

    /// The protocol version the message belongs to.
    pub fn protocol_version() -> (r: ProtocolVersion)
        ensures
            r == ProtocolVersion::Version2_0,
    {
        ProtocolVersion::Version2_0
    }

    /// Whether the message may follow one of type `message_type`.
    pub fn is_valid_previous_message(message_type: Option<MessageType>) -> (r: bool)
        ensures
            r == valid_previous_message(MessageType::TO2OVNextEntry20, message_type),
    {
        match message_type {
            Some(MessageType::TO2GetOVNextEntry20) => true,
            _ => false,
        }
    }

    /// Whether the message must travel encrypted.
    pub fn encryption_requirement() -> (r: Option<EncryptionRequirement>)
        ensures
            r == Some(required_encryption(MessageType::TO2OVNextEntry20)),
    {
        Some(EncryptionRequirement::MustNotBeEncrypted)
    }
}

/// TO2.DeviceSvcInfoRdy20 (type 86): the device is ready for ServiceInfo.
#[derive(Debug)]
pub struct DeviceSvcInfoRdy20 {
    pub max_owner_service_info_sz: Option<u16>,
}

impl DeviceSvcInfoRdy20 {
    /// A ready message announcing `max_owner_service_info_sz`.
    pub fn new(max_owner_service_info_sz: Option<u16>) -> (r: DeviceSvcInfoRdy20)
        ensures
            r.max_owner_service_info_sz == max_owner_service_info_sz,
    {
        DeviceSvcInfoRdy20 { max_owner_service_info_sz }
    }
}

impl DeviceSvcInfoRdy20 {
    /// The message number.
    pub fn message_type() -> (r: MessageType)
        ensures
            r == MessageType::TO2DeviceSvcInfoRdy20,
    {
        MessageType::TO2DeviceSvcInfoRdy20
    }

    /// The protocol version the message belongs to.
    pub fn protocol_version() -> (r: ProtocolVersion)
        ensures
            r == ProtocolVersion::Version2_0,
    {
        ProtocolVersion::Version2_0
    }

    /// Whether the message may follow one of type `message_type`.
    pub fn is_valid_previous_message(message_type: Option<MessageType>) -> (r: bool)
        ensures
            r == valid_previous_message(MessageType::TO2DeviceSvcInfoRdy20, message_type),
    {
        match message_type {
            Some(MessageType::TO2OVNextEntry20) | Some(MessageType::TO2ProveOVHdr20) => true,
            _ => false,
        }
    }

    /// Whether the message must travel encrypted.
    pub fn encryption_requirement() -> (r: Option<EncryptionRequirement>)
        ensures
            r == Some(required_encryption(MessageType::TO2DeviceSvcInfoRdy20)),
    {
        Some(EncryptionRequirement::MustBeEncrypted)
    }
}

/// TO2.SetupDevice20 (type 87): the owner's replacement credentials.
#[derive(Debug)]
pub struct SetupDevice20 {
    pub nonce_to2_setup_dv: Nonce,
    pub replacement_guid: Option<Guid>,
    pub replacement_rv_info: Option<RendezvousInfo>,
    pub max_device_service_info_sz: u16,
}

impl SetupDevice20 {
    /// The nonce the device echoes in Done20.
    pub fn nonce_to2_setup_dv(&self) -> (r: &Nonce)
        ensures
            *r == self.nonce_to2_setup_dv,
    {
        &self.nonce_to2_setup_dv
    }

    /// The GUID the device takes on, if the owner replaces it.
    pub fn replacement_guid(&self) -> (r: Option<&Guid>)
        ensures
            r is None <==> self.replacement_guid is None,
            r matches Some(g) ==> self.replacement_guid == Some(*g),
    {
        self.replacement_guid.as_ref()
    }

    /// The rendezvous information the device takes on, if replaced.
    pub fn replacement_rv_info(&self) -> (r: Option<&RendezvousInfo>)
        ensures
            r is None <==> self.replacement_rv_info is None,
            r matches Some(g) ==> self.replacement_rv_info == Some(*g),
    {
        self.replacement_rv_info.as_ref()
    }

    /// The largest ServiceInfo the owner accepts from the device.
    pub fn max_device_service_info_sz(&self) -> (r: u16)
        ensures
            r == self.max_device_service_info_sz,
    {
        self.max_device_service_info_sz
    }
}

/// SetupDevice20 as plain values: the nonce, the replacement GUID and
/// rendezvous information if any, and the largest ServiceInfo the owner
/// accepts.
pub type SetupDeviceFields = (Seq<u8>, Option<Seq<u8>>, Option<Seq<Seq<(u8, Seq<u8>)>>>, u16);

pub open spec fn setup_device_view(m: SetupDevice20) -> SetupDeviceFields {
    (
        m.nonce_to2_setup_dv.0@,
        match m.replacement_guid {
            Some(g) => Some(g.0@),
            None => None,
        },
        match m.replacement_rv_info {
            Some(r) => Some(rv_view(r)),
            None => None,
        },
        m.max_device_service_info_sz,
    )
}

/// The encoding of SetupDevice20: `[nonce, GUID or null, rendezvous
/// information or null, size]`.
pub open spec fn setup_device_encoding(f: SetupDeviceFields) -> Seq<u8> {
    cbor_array(
        seq![
            cbor_bytes(f.0),
            opt_bytes_encoding(f.1),
            match f.2 {
                Some(r) => rv_encoding(r),
                None => cbor_null(),
            },
            cbor_int(f.3 as int),
        ],
    )
}

/// The SetupDevice20 `d` encodes.
pub open spec fn setup_device_of(d: Seq<u8>) -> Option<SetupDeviceFields> {
    match array_elements(d) {
        Some(p) => if p.len() == 4 {
            let guid = if is_null_item(p[1]) {
                Some(None)
            } else {
                match bytes_of(p[1]) {
                    Some(g) => if g.len() == 16 {
                        Some(Some(g))
                    } else {
                        None
                    },
                    None => None,
                }
            };
            let rv = if is_null_item(p[2]) {
                Some(None)
            } else {
                match rv_info_of(p[2]) {
                    Some(r) => Some(Some(r)),
                    None => None,
                }
            };
            match (bytes_of(p[0]), guid, rv, uint_of(p[3])) {
                (Some(n), Some(g), Some(r), Some(m)) => if m < 0x1_0000 {
                    Some((n, g, r, m as u16))
                } else {
                    None
                },
                _ => None,
            }
        } else {
            None
        },
        None => None,
    }
}

impl SetupDevice20 {
    /// The message's CBOR encoding.
    #[verifier::rlimit(80)]
    #[verifier::spinoff_prover]
    pub fn to_cbor(&self) -> (r: Vec<u8>)
        ensures
            r@ == setup_device_encoding(setup_device_view(*self)),
            setup_device_of(r@) == Some(setup_device_view(*self)),
    {
        proof {
            reveal_with_fuel(pow256, 9);
            reveal_with_fuel(concat_all, 5);
            assert(pow256(8) == 0x1_0000_0000_0000_0000);
        }
        let ghost f = setup_device_view(*self);
        let ghost parts = seq![
            cbor_bytes(f.0),
            opt_bytes_encoding(f.1),
            match f.2 {
                Some(r) => rv_encoding(r),
                None => cbor_null(),
            },
            cbor_int(f.3 as int),
        ];
        let top: u32 = MAX_NESTING - 1;
        let n0 = self.nonce_to2_setup_dv.0.len();
        let mut buf: Vec<u8> = Vec::new();
        write_head(&mut buf, 4, 4);
        write_bytes(&mut buf, self.nonce_to2_setup_dv.0.as_slice());
        proof {
            lemma_scalars_are_items(f.3 as int, f.0, Seq::empty(), top as nat);
        }
        match &self.replacement_guid {
            Some(g) => {
                write_bytes(&mut buf, g.0.as_slice());
                proof {
                    lemma_scalars_are_items(0, g.0@, Seq::empty(), top as nat);
                    assert(!is_null_item(cbor_bytes(g.0@))) by {
                        assert(cbor_bytes(g.0@)[0] / 32 == 2);
                    }
                }
            },
            None => {
                write_null(&mut buf);
            },
        }
        match &self.replacement_rv_info {
            Some(rv) => {
                write_rv(&mut buf, rv);
                proof {
                    lemma_rv_roundtrip(rv_view(*rv), top as nat);
                    assert(!is_null_item(rv_encoding(rv_view(*rv)))) by {
                        assert(rv_encoding(rv_view(*rv))[0] / 32 == 4);
                    }
                }
            },
            None => {
                write_null(&mut buf);
            },
        }
        write_head(&mut buf, 0, self.max_device_service_info_sz as u64);
        proof {
            assert(concat_all(parts) =~= parts[0] + parts[1] + parts[2] + parts[3]);
            assert(buf@ =~= setup_device_encoding(f));
            assert forall|i: int| 0 <= i < parts.len() implies is_item_at(#[trigger] parts[i], top as nat) by {}
            lemma_array_elements_of(parts);
            assert(uint_of(parts[3]) == Some(f.3 as nat));
        }
        buf
    }

    /// Read the message from its CBOR encoding.
    pub fn from_cbor(d: &[u8]) -> (r: Result<SetupDevice20, Error>)
        ensures
            r is Ok <==> setup_device_of(d@) is Some,
            r matches Ok(m) ==> setup_device_of(d@) == Some(setup_device_view(m)),
    {
        let p = match split_array(d) {
            Some(p) => p,
            None => {
                return Err(Error::new("SetupDevice20 is not a CBOR array"));
            },
        };
        if p.len() != 4 {
            return Err(Error::new("SetupDevice20 must have 4 elements"));
        }
        proof {
            let v = parts_view(p@);
            assert(v[0] == p@[0]@);
            assert(v[1] == p@[1]@);
            assert(v[2] == p@[2]@);
            assert(v[3] == p@[3]@);
        }
        let nonce = match read_bytes(p[0].as_slice()) {
            Some(n) => n,
            None => {
                return Err(Error::new("SetupDevice20 nonce is not a byte string"));
            },
        };
        let guid = if read_null(p[1].as_slice()) {
            None
        } else {
            match read_bytes(p[1].as_slice()) {
                Some(g) => match Guid::from_slice(g.as_slice()) {
                    Ok(g) => Some(g),
                    Err(e) => {
                        return Err(e);
                    },
                },
                None => {
                    return Err(Error::new("SetupDevice20 GUID is not a byte string"));
                },
            }
        };
        let rv = if read_null(p[2].as_slice()) {
            None
        } else {
            match read_rv_info(p[2].as_slice()) {
                Some(r) => Some(r),
                None => {
                    return Err(Error::new("Invalid SetupDevice20 rendezvous information"));
                },
            }
        };
        let m = match read_uint(p[3].as_slice()) {
            Some(m) => m,
            None => {
                return Err(Error::new("SetupDevice20 size is not an unsigned integer"));
            },
        };
        if m >= 0x1_0000 {
            return Err(Error::new("SetupDevice20 size out of range"));
        }
        Ok(
            SetupDevice20 {
                nonce_to2_setup_dv: Nonce(nonce),
                replacement_guid: guid,
                replacement_rv_info: rv,
                max_device_service_info_sz: m as u16,
            },
        )
    }
}

impl SetupDevice20 {
    /// The message number.
    pub fn message_type() -> (r: MessageType)
        ensures
            r == MessageType::TO2SetupDevice20,
    {
        MessageType::TO2SetupDevice20
    }

    /// The protocol version the message belongs to.
    pub fn protocol_version() -> (r: ProtocolVersion)
        ensures
            r == ProtocolVersion::Version2_0,
    {
        ProtocolVersion::Version2_0
    }

    /// Whether the message may follow one of type `message_type`.
    pub fn is_valid_previous_message(message_type: Option<MessageType>) -> (r: bool)
        ensures
            r == valid_previous_message(MessageType::TO2SetupDevice20, message_type),
    {
        match message_type {
            Some(MessageType::TO2DeviceSvcInfoRdy20) => true,
            _ => false,
        }
    }

    /// Whether the message must travel encrypted.
    pub fn encryption_requirement() -> (r: Option<EncryptionRequirement>)
        ensures
            r == Some(required_encryption(MessageType::TO2SetupDevice20)),
    {
        Some(EncryptionRequirement::MustBeEncrypted)
    }
}

/// TO2.DeviceSvcInfo20 (type 88): a round of the device's ServiceInfo.
#[derive(Debug)]
pub struct DeviceSvcInfo20 {
    pub is_more_service_info: bool,
    pub service_info: ServiceInfo,
}

impl DeviceSvcInfo20 {
    /// A round carrying `service_info`.
    pub fn new(is_more_service_info: bool, service_info: ServiceInfo) -> (r: DeviceSvcInfo20)
        ensures
            r.is_more_service_info == is_more_service_info,
            r.service_info == service_info,
    {
        DeviceSvcInfo20 { is_more_service_info, service_info }
    }

    /// Whether the device has more to send.
    pub fn is_more_service_info(&self) -> (r: bool)
        ensures
            r == self.is_more_service_info,
    {
        self.is_more_service_info
    }

    /// The round's entries.
    pub fn service_info(&self) -> (r: &ServiceInfo)
        ensures
            *r == self.service_info,
    {
        &self.service_info
    }
}

impl DeviceSvcInfo20 {
    /// The message number.
    pub fn message_type() -> (r: MessageType)
        ensures
            r == MessageType::TO2DeviceSvcInfo20,
    {
        MessageType::TO2DeviceSvcInfo20
    }

    /// The protocol version the message belongs to.
    pub fn protocol_version() -> (r: ProtocolVersion)
        ensures
            r == ProtocolVersion::Version2_0,
    {
        ProtocolVersion::Version2_0
    }

    /// Whether the message may follow one of type `message_type`.
    pub fn is_valid_previous_message(message_type: Option<MessageType>) -> (r: bool)
        ensures
            r == valid_previous_message(MessageType::TO2DeviceSvcInfo20, message_type),
    {
        match message_type {
            Some(MessageType::TO2SetupDevice20) | Some(MessageType::TO2OwnerSvcInfo20) => true,
            _ => false,
        }
    }

    /// Whether the message must travel encrypted.
    pub fn encryption_requirement() -> (r: Option<EncryptionRequirement>)
        ensures
            r == Some(required_encryption(MessageType::TO2DeviceSvcInfo20)),
    {
        Some(EncryptionRequirement::MustBeEncrypted)
    }
}

/// TO2.OwnerSvcInfo20 (type 89): a round of the owner's ServiceInfo.
#[derive(Debug)]
pub struct OwnerSvcInfo20 {
    pub is_more_service_info: bool,
    pub is_done: bool,
    pub service_info: ServiceInfo,
}

impl OwnerSvcInfo20 {
    /// Whether the owner has more to send.
    pub fn is_more_service_info(&self) -> (r: bool)
        ensures
            r == self.is_more_service_info,
    {
        self.is_more_service_info
    }

    /// Whether the ServiceInfo exchange is over.
    pub fn is_done(&self) -> (r: bool)
        ensures
            r == self.is_done,
    {
        self.is_done
    }

    /// The round's entries.
    pub fn service_info(&self) -> (r: &ServiceInfo)
        ensures
            *r == self.service_info,
    {
        &self.service_info
    }
}

impl OwnerSvcInfo20 {
    /// The message number.
    pub fn message_type() -> (r: MessageType)
        ensures
            r == MessageType::TO2OwnerSvcInfo20,
    {
        MessageType::TO2OwnerSvcInfo20
    }

    /// The protocol version the message belongs to.
    pub fn protocol_version() -> (r: ProtocolVersion)
        ensures
            r == ProtocolVersion::Version2_0,
    {
        ProtocolVersion::Version2_0
    }

    /// Whether the message may follow one of type `message_type`.
    pub fn is_valid_previous_message(message_type: Option<MessageType>) -> (r: bool)
        ensures
            r == valid_previous_message(MessageType::TO2OwnerSvcInfo20, message_type),
    {
        match message_type {
            Some(MessageType::TO2DeviceSvcInfo20) => true,
            _ => false,
        }
    }

    /// Whether the message must travel encrypted.
    pub fn encryption_requirement() -> (r: Option<EncryptionRequirement>)
        ensures
            r == Some(required_encryption(MessageType::TO2OwnerSvcInfo20)),
    {
        Some(EncryptionRequirement::MustBeEncrypted)
    }
}

/// TO2.Done20 (type 90): the device is done; the replacement HMAC travels
/// here.
#[derive(Debug)]
pub struct Done20 {
    pub nonce_to2_setup_dv: Nonce,
    pub replacement_hmac: Option<HMac>,
}

impl Done20 {
    /// A done message echoing `nonce_to2_setup_dv`.
    pub fn new(nonce_to2_setup_dv: Nonce, replacement_hmac: Option<HMac>) -> (r: Done20)
        ensures
            r.nonce_to2_setup_dv == nonce_to2_setup_dv,
            r.replacement_hmac == replacement_hmac,
    {
        Done20 { nonce_to2_setup_dv, replacement_hmac }
    }

    /// The echoed nonce.
    pub fn nonce_to2_setup_dv(&self) -> (r: &Nonce)
        ensures
            *r == self.nonce_to2_setup_dv,
    {
        &self.nonce_to2_setup_dv
    }

    /// The HMAC over the replacement voucher header, if any.
    pub fn replacement_hmac(&self) -> (r: Option<&HMac>)
        ensures
            r is None <==> self.replacement_hmac is None,
            r matches Some(h) ==> self.replacement_hmac == Some(*h),
    {
        self.replacement_hmac.as_ref()
    }
}

impl Done20 {
    /// The message number.
    pub fn message_type() -> (r: MessageType)
        ensures
            r == MessageType::TO2Done20,
    {
        MessageType::TO2Done20
    }

    /// The protocol version the message belongs to.
    pub fn protocol_version() -> (r: ProtocolVersion)
        ensures
            r == ProtocolVersion::Version2_0,
    {
        ProtocolVersion::Version2_0
    }

    /// Whether the message may follow one of type `message_type`.
    pub fn is_valid_previous_message(message_type: Option<MessageType>) -> (r: bool)
        ensures
            r == valid_previous_message(MessageType::TO2Done20, message_type),
    {
        match message_type {
            Some(MessageType::TO2OwnerSvcInfo20) | Some(MessageType::TO2SetupDevice20) => true,
            _ => false,
        }
    }

    /// Whether the message must travel encrypted.
    pub fn encryption_requirement() -> (r: Option<EncryptionRequirement>)
        ensures
            r == Some(required_encryption(MessageType::TO2Done20)),
    {
        Some(EncryptionRequirement::MustBeEncrypted)
    }
}

/// TO2.DoneAck20 (type 91): the owner's acknowledgement.
#[derive(Debug)]
pub struct DoneAck20 {
    pub nonce_to2_prove_ov: Nonce,
}

impl DoneAck20 {
    /// The echoed nonce.
    pub fn nonce_to2_prove_ov(&self) -> (r: &Nonce)
        ensures
            *r == self.nonce_to2_prove_ov,
    {
        &self.nonce_to2_prove_ov
    }
}

impl DoneAck20 {
    /// The message number.
    pub fn message_type() -> (r: MessageType)
        ensures
            r == MessageType::TO2DoneAck20,
    {
        MessageType::TO2DoneAck20
    }

    /// The protocol version the message belongs to.
    pub fn protocol_version() -> (r: ProtocolVersion)
        ensures
            r == ProtocolVersion::Version2_0,
    {
        ProtocolVersion::Version2_0
    }

    /// Whether the message may follow one of type `message_type`.
    pub fn is_valid_previous_message(message_type: Option<MessageType>) -> (r: bool)
        ensures
            r == valid_previous_message(MessageType::TO2DoneAck20, message_type),
    {
        match message_type {
            Some(MessageType::TO2Done20) => true,
            _ => false,
        }
    }

    /// Whether the message must travel encrypted.
    pub fn encryption_requirement() -> (r: Option<EncryptionRequirement>)
        ensures
            r == Some(required_encryption(MessageType::TO2DoneAck20)),
    {
        Some(EncryptionRequirement::MustBeEncrypted)
    }
}

/// The fields an OwnerSvcInfo20 encoding `d` carries: `[more service info,
/// done, ServiceInfo]`.
pub open spec fn owner_svc_info_of(d: Seq<u8>) -> Option<(bool, bool, Seq<(Seq<char>, Seq<u8>)>)> {
    match array_elements(d) {
        Some(p) => if p.len() == 3 {
            match (bool_of(p[0]), bool_of(p[1]), service_info_of(p[2])) {
                (Some(m), Some(dn), Some(si)) => Some((m, dn, si)),
                _ => None,
            }
        } else {
            None
        },
        None => None,
    }
}

impl OwnerSvcInfo20 {
    /// Read an OwnerSvcInfo20 message.
    pub fn from_cbor(d: &[u8]) -> (r: Result<OwnerSvcInfo20, Error>)
        ensures
            r is Ok <==> owner_svc_info_of(d@) is Some,
            r matches Ok(m) ==> owner_svc_info_of(d@) == Some(
                (m.is_more_service_info, m.is_done, service_info_view(m.service_info)),
            ),
    {
        let p = match split_array(d) {
            Some(p) => p,
            None => {
                return Err(Error::new("OwnerSvcInfo20 is not a CBOR array"));
            },
        };
        if p.len() != 3 {
            return Err(Error::new("OwnerSvcInfo20 must have 3 elements"));
        }
        proof {
            assert(parts_view(p@)[0] == p@[0]@);
            assert(parts_view(p@)[1] == p@[1]@);
            assert(parts_view(p@)[2] == p@[2]@);
        }
        let more = read_bool(p[0].as_slice());
        let done = read_bool(p[1].as_slice());
        match (more, done) {
            (Some(m), Some(dn)) => match ServiceInfo::from_cbor(p[2].as_slice()) {
                Ok(si) => Ok(OwnerSvcInfo20 { is_more_service_info: m, is_done: dn, service_info: si }),
                Err(e) => Err(e),
            },
            _ => Err(Error::new("OwnerSvcInfo20 flags are not booleans")),
        }
    }
}

/// The nonce a DoneAck20 encoding `d` carries: `[nonce]`.
pub open spec fn done_ack_of(d: Seq<u8>) -> Option<Seq<u8>> {
    match array_elements(d) {
        Some(p) => if p.len() == 1 {
            bytes_of(p[0])
        } else {
            None
        },
        None => None,
    }
}

impl DoneAck20 {
    /// Read a DoneAck20 message.
    pub fn from_cbor(d: &[u8]) -> (r: Result<DoneAck20, Error>)
        ensures
            r is Ok <==> done_ack_of(d@) is Some,
            r matches Ok(m) ==> done_ack_of(d@) == Some(m.nonce_to2_prove_ov.0@),
    {
        let p = match split_array(d) {
            Some(p) => p,
            None => {
                return Err(Error::new("DoneAck20 is not a CBOR array"));
            },
        };
        if p.len() != 1 {
            return Err(Error::new("DoneAck20 must have 1 element"));
        }
        proof {
            assert(parts_view(p@)[0] == p@[0]@);
        }
        match read_bytes(p[0].as_slice()) {
            Some(n) => Ok(DoneAck20 { nonce_to2_prove_ov: Nonce(n) }),
            None => Err(Error::new("DoneAck20 nonce is not a byte string")),
        }
    }
}

// ------------------------------------------------------------------
// HelloDeviceAck20 on the wire
// ------------------------------------------------------------------

/// The encoding of an array of small integers.
pub open spec fn code_array_encoding(codes: Seq<i8>) -> Seq<u8> {
    cbor_array(codes.map_values(|c: i8| cbor_int(c as int)))
}

/// The numbers of key exchange suites.
pub open spec fn kex_codes(s: Seq<KexSuite>) -> Seq<i8> {
    s.map_values(|k: KexSuite| k.spec_code())
}

/// The numbers of cipher suites.
pub open spec fn cipher_codes(s: Seq<CipherSuite>) -> Seq<i8> {
    s.map_values(|c: CipherSuite| c.spec_code())
}

/// The encoding of HelloDeviceAck20: `[capability flags, GUID, largest
/// owner message, [key exchange suite, ...], [cipher suite, ...], nonce,
/// hash of the probe]`. ProveDevice20 binds to the hash of these bytes.
pub open spec fn hello_device_ack_encoding(m: HelloDeviceAck20) -> Seq<u8> {
    cbor_array(
        seq![
            capability_flags_encoding(capability_flags_view(m.capability_flags)),
            cbor_bytes(m.guid.0@),
            cbor_int(m.max_owner_message_size as int),
            code_array_encoding(kex_codes(m.kex_suites@)),
            code_array_encoding(cipher_codes(m.cipher_suites@)),
            cbor_bytes(m.nonce_to2_prove_dv_prep.0@),
            hash_encoding(m.hash_prev.hash_type, m.hash_prev.value@),
        ],
    )
}

/// The small integer item `e` encodes.
pub open spec fn i8_item(e: Seq<u8>) -> Option<i8> {
    match int_of(e) {
        Some(v) => if -128 <= v <= 127 {
            Some(v as i8)
        } else {
            None
        },
        None => None,
    }
}

/// The key exchange suite item `e` names.
pub open spec fn kex_item(e: Seq<u8>) -> Option<KexSuite> {
    match i8_item(e) {
        Some(c) => KexSuite::spec_from_code(c),
        None => None,
    }
}

/// The cipher suite item `e` names.
pub open spec fn cipher_item(e: Seq<u8>) -> Option<CipherSuite> {
    match i8_item(e) {
        Some(c) => CipherSuite::spec_from_code(c),
        None => None,
    }
}

/// The key exchange suites of the array `e` encodes.
pub open spec fn kex_suites_of(e: Seq<u8>) -> Option<Seq<KexSuite>> {
    match array_elements(e) {
        Some(q) => if forall|i: int| 0 <= i < q.len() ==> (#[trigger] kex_item(q[i])) is Some {
            Some(Seq::new(q.len(), |i: int| kex_item(q[i]).unwrap()))
        } else {
            None
        },
        None => None,
    }
}

/// The cipher suites of the array `e` encodes.
pub open spec fn cipher_suites_of(e: Seq<u8>) -> Option<Seq<CipherSuite>> {
    match array_elements(e) {
        Some(q) => if forall|i: int| 0 <= i < q.len() ==> (#[trigger] cipher_item(q[i])) is Some {
            Some(Seq::new(q.len(), |i: int| cipher_item(q[i]).unwrap()))
        } else {
            None
        },
        None => None,
    }
}

/// The fields a HelloDeviceAck20 encoding `d` carries.
pub open spec fn hello_device_ack_of(d: Seq<u8>) -> Option<
    (
        (Seq<u8>, Option<Seq<Seq<char>>>),
        Seq<u8>,
        u16,
        Seq<KexSuite>,
        Seq<CipherSuite>,
        Seq<u8>,
        (HashType, Seq<u8>),
    ),
> {
    match array_elements(d) {
        Some(p) => if p.len() == 7 {
            match (
                capability_flags_of(p[0]),
                bytes_of(p[1]),
                uint_of(p[2]),
                kex_suites_of(p[3]),
                cipher_suites_of(p[4]),
                bytes_of(p[5]),
                hash_pair_of(p[6]),
            ) {
                (Some(cf), Some(g), Some(n), Some(k), Some(c), Some(nonce), Some(h)) => if g.len() == 16
                    && n < 0x1_0000 {
                    Some((cf, g, n as u16, k, c, nonce, h))
                } else {
                    None
                },
                _ => None,
            }
        } else {
            None
        },
        None => None,
    }
}

fn write_code_array(buf: &mut Vec<u8>, codes: &Vec<i8>)
    ensures
        final(buf)@ == old(buf)@ + code_array_encoding(codes@),
{
    let ghost b0 = buf@;
    let ghost q = codes@.map_values(|c: i8| cbor_int(c as int));
    write_head(buf, 4, codes.len() as u64);
    let mut i: usize = 0;
    while i < codes.len()
        invariant
            i <= codes@.len(),
            q == codes@.map_values(|c: i8| cbor_int(c as int)),
            buf@ == b0 + cbor_array_head(codes@.len() as nat) + concat_all(q.subrange(0, i as int)),
        decreases codes@.len() - i,
    {
        write_int(buf, codes[i] as i64);
        proof {
            lemma_concat_push(q.subrange(0, i as int), q[i as int]);
            assert(q.subrange(0, i as int + 1) =~= q.subrange(0, i as int).push(q[i as int]));
        }
        i = i + 1;
    }
    proof {
        assert(q.subrange(0, codes@.len() as int) =~= q);
        assert(buf@ =~= b0 + code_array_encoding(codes@));
    }
}

fn read_i8_items(e: &[u8]) -> (r: Option<Vec<i8>>)
    ensures
        r is None <==> (array_elements(e@) matches Some(q) ==> !(forall|i: int| 0 <= i < q.len() ==> (#[trigger] i8_item(q[i])) is Some)),
        r matches Some(v) ==> (array_elements(e@) matches Some(q) && v@.len() == q.len() && forall|i: int|
            0 <= i < q.len() ==> i8_item(q[i]) == Some(#[trigger] v@[i])),
{
    let q = match split_array(e) {
        Some(q) => q,
        None => {
            return None;
        },
    };
    let ghost qv = parts_view(q@);
    let mut out: Vec<i8> = Vec::new();
    let mut i: usize = 0;
    while i < q.len()
        invariant
            i <= q@.len(),
            qv == parts_view(q@),
            array_elements(e@) == Some(qv),
            out@.len() == i,
            forall|j: int| 0 <= j < i ==> i8_item(qv[j]) == Some(#[trigger] out@[j]),
        decreases q@.len() - i,
    {
        proof {
            assert(qv[i as int] == q@[i as int]@);
        }
        let v = match read_int(q[i].as_slice()) {
            Some(v) => v,
            None => {
                assert(i8_item(qv[i as int]) is None);
                return None;
            },
        };
        if v < -128 || v > 127 {
            assert(i8_item(qv[i as int]) is None);
            return None;
        }
        out.push(v as i8);
        i = i + 1;
    }
    proof {
        assert forall|j: int| 0 <= j < qv.len() implies (#[trigger] i8_item(qv[j])) is Some by {
            assert(i8_item(qv[j]) == Some(out@[j]));
        }
    }
    Some(out)
}

fn read_kex_suites(e: &[u8]) -> (r: Option<Vec<KexSuite>>)
    ensures
        r is None <==> kex_suites_of(e@) is None,
        r matches Some(v) ==> kex_suites_of(e@) == Some(v@),
{
    let codes = match read_i8_items(e) {
        Some(c) => c,
        None => {
            proof {
                if array_elements(e@) is Some {
                    let q = array_elements(e@).unwrap();
                    let j = choose|j: int| 0 <= j < q.len() && !((#[trigger] i8_item(q[j])) is Some);
                    assert(kex_item(q[j]) is None);
                }
            }
            return None;
        },
    };
    let ghost q = array_elements(e@).unwrap();
    let mut out: Vec<KexSuite> = Vec::new();
    let mut i: usize = 0;
    while i < codes.len()
        invariant
            i <= codes@.len(),
            array_elements(e@) == Some(q),
            codes@.len() == q.len(),
            forall|j: int| 0 <= j < q.len() ==> i8_item(q[j]) == Some(#[trigger] codes@[j]),
            out@.len() == i,
            forall|j: int| 0 <= j < i ==> kex_item(q[j]) == Some(#[trigger] out@[j]),
        decreases codes@.len() - i,
    {
        assert(i8_item(q[i as int]) == Some(codes@[i as int]));
        match KexSuite::from_code(codes[i]) {
            Some(k) => {
                out.push(k);
            },
            None => {
                assert(kex_item(q[i as int]) is None);
                assert(!(forall|j: int| 0 <= j < q.len() ==> (#[trigger] kex_item(q[j])) is Some));
                return None;
            },
        }
        i = i + 1;
    }
    proof {
        assert forall|j: int| 0 <= j < q.len() implies (#[trigger] kex_item(q[j])) is Some by {
            assert(kex_item(q[j]) == Some(out@[j]));
        }
        assert(out@ =~= Seq::new(q.len(), |j: int| kex_item(q[j]).unwrap()));
    }
    Some(out)
}

fn read_cipher_suites(e: &[u8]) -> (r: Option<Vec<CipherSuite>>)
    ensures
        r is None <==> cipher_suites_of(e@) is None,
        r matches Some(v) ==> cipher_suites_of(e@) == Some(v@),
{
    let codes = match read_i8_items(e) {
        Some(c) => c,
        None => {
            proof {
                if array_elements(e@) is Some {
                    let q = array_elements(e@).unwrap();
                    let j = choose|j: int| 0 <= j < q.len() && !((#[trigger] i8_item(q[j])) is Some);
                    assert(cipher_item(q[j]) is None);
                }
            }
            return None;
        },
    };
    let ghost q = array_elements(e@).unwrap();
    let mut out: Vec<CipherSuite> = Vec::new();
    let mut i: usize = 0;
    while i < codes.len()
        invariant
            i <= codes@.len(),
            array_elements(e@) == Some(q),
            codes@.len() == q.len(),
            forall|j: int| 0 <= j < q.len() ==> i8_item(q[j]) == Some(#[trigger] codes@[j]),
            out@.len() == i,
            forall|j: int| 0 <= j < i ==> cipher_item(q[j]) == Some(#[trigger] out@[j]),
        decreases codes@.len() - i,
    {
        assert(i8_item(q[i as int]) == Some(codes@[i as int]));
        match CipherSuite::from_code(codes[i]) {
            Some(c) => {
                out.push(c);
            },
            None => {
                assert(cipher_item(q[i as int]) is None);
                assert(!(forall|j: int| 0 <= j < q.len() ==> (#[trigger] cipher_item(q[j])) is Some));
                return None;
            },
        }
        i = i + 1;
    }
    proof {
        assert forall|j: int| 0 <= j < q.len() implies (#[trigger] cipher_item(q[j])) is Some by {
            assert(cipher_item(q[j]) == Some(out@[j]));
        }
        assert(out@ =~= Seq::new(q.len(), |j: int| cipher_item(q[j]).unwrap()));
    }
    Some(out)
}

fn kex_code_vec(v: &Vec<KexSuite>) -> (r: Vec<i8>)
    ensures
        r@ == kex_codes(v@),
{
    let mut out: Vec<i8> = Vec::new();
    let mut i: usize = 0;
    while i < v.len()
        invariant
            i <= v@.len(),
            out@ == kex_codes(v@).subrange(0, i as int),
        decreases v@.len() - i,
    {
        out.push(v[i].code());
        i = i + 1;
        assert(out@ =~= kex_codes(v@).subrange(0, i as int));
    }
    assert(out@ =~= kex_codes(v@));
    out
}

fn cipher_code_vec(v: &Vec<CipherSuite>) -> (r: Vec<i8>)
    ensures
        r@ == cipher_codes(v@),
{
    let mut out: Vec<i8> = Vec::new();
    let mut i: usize = 0;
    while i < v.len()
        invariant
            i <= v@.len(),
            out@ == cipher_codes(v@).subrange(0, i as int),
        decreases v@.len() - i,
    {
        out.push(v[i].code());
        i = i + 1;
        assert(out@ =~= cipher_codes(v@).subrange(0, i as int));
    }
    assert(out@ =~= cipher_codes(v@));
    out
}

impl HelloDeviceAck20 {
    /// The message's CBOR encoding, which ProveDevice20 binds to.
    #[verifier::rlimit(40)]
    pub fn to_cbor(&self) -> (r: Vec<u8>)
        ensures
            r@ == hello_device_ack_encoding(*self),
    {
        let ghost parts = seq![
            capability_flags_encoding(capability_flags_view(self.capability_flags)),
            cbor_bytes(self.guid.0@),
            cbor_int(self.max_owner_message_size as int),
            code_array_encoding(kex_codes(self.kex_suites@)),
            code_array_encoding(cipher_codes(self.cipher_suites@)),
            cbor_bytes(self.nonce_to2_prove_dv_prep.0@),
            hash_encoding(self.hash_prev.hash_type, self.hash_prev.value@),
        ];
        let kex = kex_code_vec(&self.kex_suites);
        let ciphers = cipher_code_vec(&self.cipher_suites);
        let mut buf: Vec<u8> = Vec::new();
        write_head(&mut buf, 4, 7);
        proof {
            assert(parts.subrange(0, 0) =~= Seq::<Seq<u8>>::empty());
        }
        let flags = self.capability_flags.to_cbor();
        crate::csr::append_bytes(&mut buf, flags.as_slice());
        proof {
            lemma_concat_push(parts.subrange(0, 0), parts[0]);
            assert(parts.subrange(0, 1) =~= parts.subrange(0, 0).push(parts[0]));
        }
        write_bytes(&mut buf, self.guid.0.as_slice());
        proof {
            lemma_concat_push(parts.subrange(0, 1), parts[1]);
            assert(parts.subrange(0, 2) =~= parts.subrange(0, 1).push(parts[1]));
        }
        write_head(&mut buf, 0, self.max_owner_message_size as u64);
        proof {
            lemma_concat_push(parts.subrange(0, 2), parts[2]);
            assert(parts.subrange(0, 3) =~= parts.subrange(0, 2).push(parts[2]));
        }
        write_code_array(&mut buf, &kex);
        proof {
            lemma_concat_push(parts.subrange(0, 3), parts[3]);
            assert(parts.subrange(0, 4) =~= parts.subrange(0, 3).push(parts[3]));
        }
        write_code_array(&mut buf, &ciphers);
        proof {
            lemma_concat_push(parts.subrange(0, 4), parts[4]);
            assert(parts.subrange(0, 5) =~= parts.subrange(0, 4).push(parts[4]));
        }
        write_bytes(&mut buf, self.nonce_to2_prove_dv_prep.0.as_slice());
        proof {
            lemma_concat_push(parts.subrange(0, 5), parts[5]);
            assert(parts.subrange(0, 6) =~= parts.subrange(0, 5).push(parts[5]));
        }
        write_hash(&mut buf, self.hash_prev.hash_type, self.hash_prev.value.as_slice());
        proof {
            lemma_concat_push(parts.subrange(0, 6), parts[6]);
            assert(parts.subrange(0, 7) =~= parts.subrange(0, 6).push(parts[6]));
            assert(parts.subrange(0, 7) =~= parts);
            assert(buf@ =~= hello_device_ack_encoding(*self));
        }
        buf
    }

    /// Read a HelloDeviceAck20 message.
    pub fn from_cbor(d: &[u8]) -> (r: Result<HelloDeviceAck20, Error>)
        ensures
            r is Ok <==> hello_device_ack_of(d@) is Some,
            r matches Ok(m) ==> hello_device_ack_of(d@) == Some(
                (
                    capability_flags_view(m.capability_flags),
                    m.guid.0@,
                    m.max_owner_message_size,
                    m.kex_suites@,
                    m.cipher_suites@,
                    m.nonce_to2_prove_dv_prep.0@,
                    (m.hash_prev.hash_type, m.hash_prev.value@),
                ),
            ),
    {
        let p = match split_array(d) {
            Some(p) => p,
            None => {
                return Err(Error::new("HelloDeviceAck20 is not a CBOR array"));
            },
        };
        if p.len() != 7 {
            return Err(Error::new("HelloDeviceAck20 must have 7 elements"));
        }
        proof {
            let v = parts_view(p@);
            assert(v[0] == p@[0]@);
            assert(v[1] == p@[1]@);
            assert(v[2] == p@[2]@);
            assert(v[3] == p@[3]@);
            assert(v[4] == p@[4]@);
            assert(v[5] == p@[5]@);
            assert(v[6] == p@[6]@);
        }
        let cf = CapabilityFlags::from_cbor(p[0].as_slice());
        let g = read_bytes(p[1].as_slice());
        let n = read_uint(p[2].as_slice());
        let k = read_kex_suites(p[3].as_slice());
        let c = read_cipher_suites(p[4].as_slice());
        let nonce = read_bytes(p[5].as_slice());
        let h = read_hash_pair(p[6].as_slice());
        match (cf, g, n, k, c, nonce, h) {
            (Ok(cf), Some(g), Some(n), Some(k), Some(c), Some(nonce), Some((ht, hv))) => {
                if g.len() != 16 || n >= 0x1_0000 {
                    return Err(Error::new("Invalid HelloDeviceAck20 GUID or size"));
                }
                let guid: [u8; 16] = [
                    g[0], g[1], g[2], g[3], g[4], g[5], g[6], g[7], g[8], g[9], g[10], g[11], g[12],
                    g[13], g[14], g[15],
                ];
                proof {
                    assert(guid@ =~= g@);
                }
                Ok(
                    HelloDeviceAck20 {
                        capability_flags: cf,
                        guid: Guid(guid),
                        max_owner_message_size: n as u16,
                        kex_suites: k,
                        cipher_suites: c,
                        nonce_to2_prove_dv_prep: Nonce(nonce),
                        hash_prev: crate::types::Hash { hash_type: ht, value: hv },
                    },
                )
            },
            _ => Err(Error::new("Invalid HelloDeviceAck20 field")),
        }
    }
}

} // verus!
