use vstd::prelude::*;

use crate::constants::{MessageType, ProtocolVersion};
use crate::messages::{required_encryption, valid_previous_message, EncryptionRequirement};
use crate::ownershipvoucher::OwnershipVoucherHeader;
use crate::cbor::cbor_bytes;
use crate::cbor_scan::{
    array_elements, bytes_of, is_null_item, parts_view, read_bytes, read_null, split_array, MAX_NESTING,
};
use crate::cbor_write::{
    cbor_array, concat_all, is_item_at, lemma_array_elements_of, lemma_item_deeper,
    lemma_scalars_are_items, write_bytes, write_head, write_null,
};
use crate::csr::pow256;
use crate::ownershipvoucher::{
    device_info_ok, header_encoding, header_fields_of, header_view, lemma_header_roundtrip,
    opt_bytes_encoding, opt_bytes_view, HeaderFields, Serializable,
};
use crate::types::{
    capability_flags_encodable, capability_flags_encoding, capability_flags_of, capability_flags_view,
    device_mfg_info_encoding, device_mfg_info_of, device_mfg_info_view, lemma_capability_flags_roundtrip,
    CapabilityFlags, CapabilityFlagsFields, DeviceMfgInfo, HMac,
};
use crate::Error;

verus! {

/// DI.SetCredentials (type 11): the manufacturer hands the device its
/// ownership voucher header.
#[derive(Debug)]
pub struct SetCredentials {
    pub ov_header: OwnershipVoucherHeader,
}

impl SetCredentials {
    /// A message carrying `ov_header`.
    pub fn new(ov_header: OwnershipVoucherHeader) -> (r: SetCredentials)
        ensures
            r.ov_header == ov_header,
    {
        SetCredentials { ov_header }
    }

    /// The voucher header.
    pub fn ov_header(&self) -> (r: &OwnershipVoucherHeader)
        ensures
            *r == self.ov_header,
    {
        &self.ov_header
    }

    /// The voucher header, taking the message apart.
    pub fn into_ov_header(self) -> (r: OwnershipVoucherHeader)
        ensures
            r == self.ov_header,
    {
        self.ov_header
    }
}

impl SetCredentials {
    /// The message number.
    pub fn message_type() -> (r: MessageType)
        ensures
            r == MessageType::DISetCredentials,
    {
        MessageType::DISetCredentials
    }

    /// The protocol version the message belongs to.
    pub fn protocol_version() -> (r: ProtocolVersion)
        ensures
            r == ProtocolVersion::Version2_0,
    {
        ProtocolVersion::Version2_0
    }

    /// Whether the message may follow one of type `message_type`.
    pub fn is_valid_previous_message(message_type: Option<MessageType>) -> (r: bool)
        ensures
            r == valid_previous_message(MessageType::DISetCredentials, message_type),
    {
        match message_type {
            Some(MessageType::DIAppStart) => true,
            _ => false,
        }
    }

    /// Whether the message must travel encrypted.
    pub fn encryption_requirement() -> (r: Option<EncryptionRequirement>)
        ensures
            r == Some(required_encryption(MessageType::DISetCredentials)),
    {
        Some(EncryptionRequirement::MustNotBeEncrypted)
    }
}

/// The voucher header fields a SetCredentials encoding `d` carries: `d` is
/// an array of one byte string, which is the header's encoding.
pub open spec fn set_credentials_of(d: Seq<u8>) -> Option<HeaderFields> {
    match array_elements(d) {
        Some(p) => if p.len() == 1 {
            match bytes_of(p[0]) {
                Some(h) => header_fields_of(h),
                None => None,
            }
        } else {
            None
        },
        None => None,
    }
}

/// The encoding of a SetCredentials whose header encodes as `h`.
pub open spec fn set_credentials_encoding(h: Seq<u8>) -> Seq<u8> {
    cbor_array(seq![cbor_bytes(h)])
}

impl SetCredentials {
    /// The message's CBOR encoding: the header's encoding inside a byte
    /// string, alone in an array. The header must be encodable.
    pub fn to_cbor(&self) -> (r: Result<Vec<u8>, Error>)
        ensures
            r is Ok <==> (device_info_ok(self.ov_header.device_info@) && is_item_at(
                self.ov_header.manufacturer_public_key.encoded@,
                (MAX_NESTING - 1) as nat,
            )),
            r matches Ok(b) ==> b@ == set_credentials_encoding(header_encoding(header_view(self.ov_header)))
                && set_credentials_of(b@) == Some(header_view(self.ov_header)),
    {
        proof {
            reveal_with_fuel(pow256, 9);
            reveal_with_fuel(concat_all, 2);
            assert(pow256(8) == 0x1_0000_0000_0000_0000);
        }
        let h = self.ov_header.to_cbor()?;
        let n = h.len();
        let mut buf: Vec<u8> = Vec::new();
        write_head(&mut buf, 4, 1);
        write_bytes(&mut buf, h.as_slice());
        proof {
            let parts = seq![cbor_bytes(h@)];
            assert(concat_all(parts) =~= cbor_bytes(h@));
            assert(buf@ =~= set_credentials_encoding(h@));
            lemma_scalars_are_items(0, h@, Seq::empty(), (MAX_NESTING - 1) as nat);
            assert forall|i: int| 0 <= i < parts.len() implies is_item_at(
                #[trigger] parts[i],
                (MAX_NESTING - 1) as nat,
            ) by {}
            lemma_array_elements_of(parts);
            lemma_header_roundtrip(header_view(self.ov_header));
        }
        Ok(buf)
    }

    /// Read the message: an array holding the header's encoding in a byte
    /// string.
    pub fn from_cbor(d: &[u8]) -> (r: Result<SetCredentials, Error>)
        ensures
            r is Ok <==> set_credentials_of(d@) is Some,
            r matches Ok(m) ==> set_credentials_of(d@) == Some(header_view(m.ov_header)),
    {
        let p = match split_array(d) {
            Some(p) => p,
            None => {
                return Err(Error::new("SetCredentials is not a CBOR array"));
            },
        };
        if p.len() != 1 {
            return Err(Error::new("SetCredentials must have 1 element"));
        }
        proof {
            assert(parts_view(p@)[0] == p@[0]@);
        }
        let h = match read_bytes(p[0].as_slice()) {
            Some(h) => h,
            None => {
                return Err(Error::new("SetCredentials header is not a byte string"));
            },
        };
        let ov_header = OwnershipVoucherHeader::from_cbor(h.as_slice())?;
        Ok(SetCredentials { ov_header })
    }
}

/// DI.SetHMAC (type 12): the device returns the HMAC of the voucher header.
#[derive(Debug)]
pub struct SetHMAC {
    pub hmac: HMac,
}

impl SetHMAC {
    /// A message carrying `hmac`.
    pub fn new(hmac: HMac) -> (r: SetHMAC)
        ensures
            r.hmac == hmac,
    {
        SetHMAC { hmac }
    }

    /// The HMAC.
    pub fn hmac(&self) -> (r: &HMac)
        ensures
            *r == self.hmac,
    {
        &self.hmac
    }
}

impl SetHMAC {
    /// The message number.
    pub fn message_type() -> (r: MessageType)
        ensures
            r == MessageType::DISetHMAC,
    {
        MessageType::DISetHMAC
    }

    /// The protocol version the message belongs to.
    pub fn protocol_version() -> (r: ProtocolVersion)
        ensures
            r == ProtocolVersion::Version2_0,
    {
        ProtocolVersion::Version2_0
    }

    /// Whether the message may follow one of type `message_type`.
    pub fn is_valid_previous_message(message_type: Option<MessageType>) -> (r: bool)
        ensures
            r == valid_previous_message(MessageType::DISetHMAC, message_type),
    {
        match message_type {
            Some(MessageType::DISetCredentials) => true,
            _ => false,
        }
    }

    /// Whether the message must travel encrypted.
    pub fn encryption_requirement() -> (r: Option<EncryptionRequirement>)
        ensures
            r == Some(required_encryption(MessageType::DISetHMAC)),
    {
        Some(EncryptionRequirement::MustNotBeEncrypted)
    }
}

/// DI.Done (type 13): the manufacturer acknowledges; the message is an
/// empty array.
#[derive(Debug)]
pub struct Done {}

impl Done {
    /// The message number.
    pub fn message_type() -> (r: MessageType)
        ensures
            r == MessageType::DIDone,
    {
        MessageType::DIDone
    }

    /// The protocol version the message belongs to.
    pub fn protocol_version() -> (r: ProtocolVersion)
        ensures
            r == ProtocolVersion::Version2_0,
    {
        ProtocolVersion::Version2_0
    }

    /// Whether the message may follow one of type `message_type`.
    pub fn is_valid_previous_message(message_type: Option<MessageType>) -> (r: bool)
        ensures
            r == valid_previous_message(MessageType::DIDone, message_type),
    {
        match message_type {
            Some(MessageType::DISetHMAC) => true,
            _ => false,
        }
    }

    /// Whether the message must travel encrypted.
    pub fn encryption_requirement() -> (r: Option<EncryptionRequirement>)
        ensures
            r == Some(required_encryption(MessageType::DIDone)),
    {
        Some(EncryptionRequirement::MustNotBeEncrypted)
    }
}

/// DI.AppStart (type 10): the device opens Device Initialization with its
/// manufacturing information, carried as the bytes of its CBOR encoding,
/// and its capability flags.
#[derive(Debug)]
pub struct AppStart {
    pub info: Option<Vec<u8>>,
    pub capability_flags: CapabilityFlags,
}

/// An AppStart as plain values.
pub type AppStartFields = (Option<Seq<u8>>, CapabilityFlagsFields);

pub open spec fn app_start_view(a: AppStart) -> AppStartFields {
    (opt_bytes_view(a.info), capability_flags_view(a.capability_flags))
}

/// The encoding of an AppStart: `[info bytes or null, capability flags]`.
pub open spec fn app_start_encoding(f: AppStartFields) -> Seq<u8> {
    cbor_array(seq![opt_bytes_encoding(f.0), capability_flags_encoding(f.1)])
}

/// The AppStart `d` encodes.
pub open spec fn app_start_of(d: Seq<u8>) -> Option<AppStartFields> {
    match array_elements(d) {
        Some(p) => if p.len() == 2 {
            let info = if is_null_item(p[0]) {
                Some(None)
            } else {
                match bytes_of(p[0]) {
                    Some(b) => Some(Some(b)),
                    None => None,
                }
            };
            match (info, capability_flags_of(p[1])) {
                (Some(i), Some(c)) => Some((i, c)),
                _ => None,
            }
        } else {
            None
        },
        None => None,
    }
}

/// Reading a written AppStart gives it back.
pub proof fn lemma_app_start_roundtrip(f: AppStartFields)
    requires
        f.0 matches Some(b) ==> b.len() < pow256(8),
        capability_flags_encodable(f.1),
    ensures
        app_start_of(app_start_encoding(f)) == Some(f),
{
    let top: nat = (MAX_NESTING - 1) as nat;
    reveal_with_fuel(pow256, 9);
    lemma_capability_flags_roundtrip(f.1);
    lemma_item_deeper(capability_flags_encoding(f.1), 2, top);
    match f.0 {
        Some(b) => {
            lemma_scalars_are_items(0, b, Seq::empty(), top);
            assert(!is_null_item(cbor_bytes(b))) by {
                assert(cbor_bytes(b)[0] / 32 == 2);
            }
        },
        None => {
            lemma_scalars_are_items(0, Seq::empty(), Seq::empty(), top);
        },
    }
    let parts = seq![opt_bytes_encoding(f.0), capability_flags_encoding(f.1)];
    assert forall|i: int| 0 <= i < parts.len() implies is_item_at(#[trigger] parts[i], top) by {}
    lemma_array_elements_of(parts);
}

impl AppStart {
    /// The AppStart presenting `info`, as its CBOR encoding, and
    /// `capability_flags`.
    pub fn new(info: &DeviceMfgInfo, capability_flags: CapabilityFlags) -> (r: AppStart)
        ensures
            r.info matches Some(b) && b@ == device_mfg_info_encoding(device_mfg_info_view(*info)),
            device_mfg_info_of(r.info.unwrap()@) == Some(device_mfg_info_view(*info)),
            capability_flags_view(r.capability_flags) == capability_flags_view(capability_flags),
    {
        AppStart { info: Some(info.to_cbor()), capability_flags }
    }

    /// The device's capability flags.
    pub fn capability_flags(&self) -> (r: &CapabilityFlags)
        ensures
            *r == self.capability_flags,
    {
        &self.capability_flags
    }

    /// The message's CBOR encoding.
    pub fn to_cbor(&self) -> (r: Vec<u8>)
        ensures
            r@ == app_start_encoding(app_start_view(*self)),
            app_start_of(r@) == Some(app_start_view(*self)),
    {
        proof {
            reveal_with_fuel(pow256, 9);
            reveal_with_fuel(concat_all, 3);
            assert(pow256(8) == 0x1_0000_0000_0000_0000);
        }
        let ghost f = app_start_view(*self);
        let mut buf: Vec<u8> = Vec::new();
        write_head(&mut buf, 4, 2);
        match &self.info {
            Some(b) => {
                let n = b.len();
                write_bytes(&mut buf, b.as_slice());
            },
            None => {
                write_null(&mut buf);
            },
        }
        let caps = self.capability_flags.to_cbor();
        crate::csr::append_bytes(&mut buf, caps.as_slice());
        proof {
            assert(concat_all(seq![opt_bytes_encoding(f.0), capability_flags_encoding(f.1)])
                =~= opt_bytes_encoding(f.0) + capability_flags_encoding(f.1));
            assert(buf@ =~= app_start_encoding(f));
            lemma_app_start_roundtrip(f);
        }
        buf
    }

    /// Read an AppStart from its CBOR encoding.
    pub fn from_cbor(d: &[u8]) -> (r: Result<AppStart, Error>)
        ensures
            r is Ok <==> app_start_of(d@) is Some,
            r matches Ok(a) ==> app_start_of(d@) == Some(app_start_view(a)),
    {
        let p = match split_array(d) {
            Some(p) => p,
            None => {
                return Err(Error::new("AppStart is not a CBOR array"));
            },
        };
        if p.len() != 2 {
            return Err(Error::new("AppStart must have 2 elements"));
        }
        proof {
            assert(parts_view(p@)[0] == p@[0]@);
            assert(parts_view(p@)[1] == p@[1]@);
        }
        let info = if read_null(p[0].as_slice()) {
            None
        } else {
            match read_bytes(p[0].as_slice()) {
                Some(b) => Some(b),
                None => {
                    return Err(Error::new("AppStart info is not a byte string"));
                },
            }
        };
        let capability_flags = CapabilityFlags::from_cbor(p[1].as_slice())?;
        Ok(AppStart { info, capability_flags })
    }
}

impl AppStart {
    /// The message number.
    pub fn message_type() -> (r: MessageType)
        ensures
            r == MessageType::DIAppStart,
    {
        MessageType::DIAppStart
    }

    /// The protocol version the message belongs to.
    pub fn protocol_version() -> (r: ProtocolVersion)
        ensures
            r == ProtocolVersion::Version2_0,
    {
        ProtocolVersion::Version2_0
    }

    /// Whether the message may follow one of type `message_type`: it
    /// opens the protocol.
    pub fn is_valid_previous_message(message_type: Option<MessageType>) -> (r: bool)
        ensures
            r == valid_previous_message(MessageType::DIAppStart, message_type),
    {
        message_type.is_none()
    }

    /// Whether the message must travel encrypted.
    pub fn encryption_requirement() -> (r: Option<EncryptionRequirement>)
        ensures
            r == Some(required_encryption(MessageType::DIAppStart)),
    {
        Some(EncryptionRequirement::MustNotBeEncrypted)
    }
}

impl Done {
    /// The message's CBOR encoding: an empty array.
    pub fn to_cbor(&self) -> (r: Vec<u8>)
        ensures
            r@ == cbor_array(Seq::empty()),
            array_elements(r@) == Some(Seq::<Seq<u8>>::empty()),
    {
        let r = vec![0x80u8];
        proof {
            reveal_with_fuel(pow256, 9);
            assert(cbor_array(Seq::<Seq<u8>>::empty()) =~= r@);
            lemma_array_elements_of(Seq::<Seq<u8>>::empty());
        }
        r
    }

    /// Read the message: an empty array.
    pub fn from_cbor(d: &[u8]) -> (r: Result<Done, Error>)
        ensures
            r is Ok <==> (array_elements(d@) matches Some(p) && p.len() == 0),
    {
        match split_array(d) {
            Some(p) => if p.len() == 0 {
                Ok(Done {})
            } else {
                Err(Error::new("Done must be an empty array"))
            },
            None => Err(Error::new("Done is not a CBOR array")),
        }
    }
}

impl Serializable for AppStart {
    fn deserialize_data(data: &[u8]) -> (r: Result<AppStart, Error>)
        ensures
            r is Ok <==> app_start_of(data@) is Some,
            r matches Ok(a) ==> app_start_of(data@) == Some(app_start_view(a)),
    {
        AppStart::from_cbor(data)
    }

    fn serialize_data(&self) -> (r: Result<Vec<u8>, Error>)
        ensures
            r matches Ok(b) && b@ == app_start_encoding(app_start_view(*self)),
    {
        Ok(self.to_cbor())
    }
}

impl Serializable for Done {
    fn deserialize_data(data: &[u8]) -> (r: Result<Done, Error>)
        ensures
            r is Ok <==> (array_elements(data@) matches Some(p) && p.len() == 0),
    {
        Done::from_cbor(data)
    }

    fn serialize_data(&self) -> (r: Result<Vec<u8>, Error>)
        ensures
            r matches Ok(b) && b@ == cbor_array(Seq::<Seq<u8>>::empty()),
    {
        Ok(self.to_cbor())
    }
}

impl Serializable for SetCredentials {
    fn deserialize_data(data: &[u8]) -> (r: Result<SetCredentials, Error>)
        ensures
            r is Ok <==> set_credentials_of(data@) is Some,
            r matches Ok(m) ==> set_credentials_of(data@) == Some(header_view(m.ov_header)),
    {
        SetCredentials::from_cbor(data)
    }

    fn serialize_data(&self) -> (r: Result<Vec<u8>, Error>)
        ensures
            r is Ok <==> (device_info_ok(self.ov_header.device_info@) && is_item_at(
                self.ov_header.manufacturer_public_key.encoded@,
                (MAX_NESTING - 1) as nat,
            )),
            r matches Ok(b) ==> set_credentials_of(b@) == Some(header_view(self.ov_header)),
    {
        self.to_cbor()
    }
}

} // verus!
