use vstd::prelude::*;

use crate::constants::{MessageType, ProtocolVersion};
use crate::messages::{required_encryption, valid_previous_message, EncryptionRequirement};
use crate::cbor::cbor_bytes;
use crate::cbor_scan::{array_elements, bytes_of, is_null_item, parts_view, read_bytes, read_null, split_array, MAX_NESTING};
use crate::cbor_write::{
    cbor_array, concat_all, is_item_at, lemma_array_elements_of, lemma_item_deeper, lemma_scalars_are_items,
    write_bytes, write_head,
};
use crate::csr::pow256;
use crate::ownershipvoucher::{cose_payload_of, read_cose_payload};
use crate::types::{
    lemma_sig_info_roundtrip, lemma_texts_roundtrip, read_sig_info, read_texts, sig_info_encoding, sig_info_of,
    strings_of, texts_array_of, texts_encoding, write_sig_info, write_texts, COSESign, CapabilityFlags, Guid,
    Nonce, SigInfo,
};
use crate::Error;

verus! {

/// TO1.HelloRV (type 30): the device asks a rendezvous server for its
/// owner. The capability flags are sent flattened, as their bytes only.
#[derive(Debug)]
pub struct HelloRV {
    pub guid: Guid,
    pub a_signature_info: SigInfo,
    pub capability_flags: Vec<u8>,
}

impl HelloRV {
    /// A HelloRV for device `guid`; of the capability flags only their
    /// bytes are kept.
    pub fn new(guid: Guid, a_signature_info: SigInfo, capability_flags: CapabilityFlags) -> (r:
        HelloRV)
        ensures
            r.guid == guid,
            r.a_signature_info == a_signature_info,
            r.capability_flags@ == capability_flags.flags@,
    {
        HelloRV { guid, a_signature_info, capability_flags: capability_flags.flags }
    }

    /// The device GUID.
    pub fn guid(&self) -> (r: &Guid)
        ensures
            *r == self.guid,
    {
        &self.guid
    }

    /// The device's signature information.
    pub fn a_signature_info(&self) -> (r: &SigInfo)
        ensures
            *r == self.a_signature_info,
    {
        &self.a_signature_info
    }
}

/// The encoding of a HelloRV: `[GUID, signature information, capability
/// flag bytes]`.
pub open spec fn hello_rv_encoding(m: HelloRV) -> Seq<u8> {
    cbor_array(
        seq![
            cbor_bytes(m.guid.0@),
            sig_info_encoding(m.a_signature_info.sig_type, m.a_signature_info.info@),
            cbor_bytes(m.capability_flags@),
        ],
    )
}

impl HelloRV {
    /// The message's CBOR encoding.
    pub fn to_cbor(&self) -> (r: Vec<u8>)
        ensures
            r@ == hello_rv_encoding(*self),
    {
        proof {
            reveal_with_fuel(concat_all, 4);
        }
        let mut buf: Vec<u8> = Vec::new();
        write_head(&mut buf, 4, 3);
        write_bytes(&mut buf, self.guid.0.as_slice());
        write_sig_info(&mut buf, &self.a_signature_info);
        write_bytes(&mut buf, self.capability_flags.as_slice());
        proof {
            let parts = seq![
                cbor_bytes(self.guid.0@),
                sig_info_encoding(self.a_signature_info.sig_type, self.a_signature_info.info@),
                cbor_bytes(self.capability_flags@),
            ];
            assert(concat_all(parts) =~= parts[0] + parts[1] + parts[2]);
            assert(buf@ =~= hello_rv_encoding(*self));
        }
        buf
    }
}


impl HelloRV {
    /// The message number.
    pub fn message_type() -> (r: MessageType)
        ensures
            r == MessageType::TO1HelloRV,
    {
        MessageType::TO1HelloRV
    }

    /// The protocol version the message belongs to.
    pub fn protocol_version() -> (r: ProtocolVersion)
        ensures
            r == ProtocolVersion::Version2_0,
    {
        ProtocolVersion::Version2_0
    }

    /// Whether the message may follow one of type `message_type`.
    pub fn is_valid_previous_message(message_type: Option<MessageType>) -> (r: bool)
        ensures
            r == valid_previous_message(MessageType::TO1HelloRV, message_type),
    {
        match message_type {
            None => true,
            _ => false,
        }
    }

    /// Whether the message must travel encrypted.
    pub fn encryption_requirement() -> (r: Option<EncryptionRequirement>)
        ensures
            r == Some(required_encryption(MessageType::TO1HelloRV)),
    {
        Some(EncryptionRequirement::MustNotBeEncrypted)
    }
}

/// TO1.HelloRVAck (type 31): the rendezvous server's challenge.
#[derive(Debug)]
pub struct HelloRVAck {
    pub nonce4: Nonce,
    pub b_signature_info: SigInfo,
    pub capability_flags: Vec<u8>,
    pub vendor_unique: Option<Vec<String>>,
}

impl HelloRVAck {
    /// The challenge nonce.
    pub fn nonce4(&self) -> (r: &Nonce)
        ensures
            *r == self.nonce4,
    {
        &self.nonce4
    }

    /// The server's signature information.
    pub fn b_signature_info(&self) -> (r: &SigInfo)
        ensures
            *r == self.b_signature_info,
    {
        &self.b_signature_info
    }
}

/// HelloRVAck as plain values: the nonce, the signature information, the
/// capability flag bytes and the vendor-unique strings, if any.
pub type HelloRvAckFields = (Seq<u8>, (i8, Seq<u8>), Seq<u8>, Option<Seq<Seq<char>>>);

pub open spec fn hello_rv_ack_view(m: HelloRVAck) -> HelloRvAckFields {
    (
        m.nonce4.0@,
        (m.b_signature_info.sig_type, m.b_signature_info.info@),
        m.capability_flags@,
        match m.vendor_unique {
            Some(v) => Some(strings_of(v@)),
            None => None,
        },
    )
}

/// The encoding of a HelloRVAck: `[nonce, signature information,
/// capability flag bytes]`, with the vendor-unique strings as a fourth
/// item when there are any.
pub open spec fn hello_rv_ack_encoding(f: HelloRvAckFields) -> Seq<u8> {
    let front = seq![cbor_bytes(f.0), sig_info_encoding(f.1.0, f.1.1), cbor_bytes(f.2)];
    match f.3 {
        Some(l) => cbor_array(front.push(texts_encoding(l))),
        None => cbor_array(front),
    }
}

/// The HelloRVAck `d` encodes: an array of three items, or four when the
/// last holds the vendor-unique strings (or null).
pub open spec fn hello_rv_ack_of(d: Seq<u8>) -> Option<HelloRvAckFields> {
    match array_elements(d) {
        Some(p) => if p.len() == 3 || p.len() == 4 {
            let vendor = if p.len() == 4 {
                if is_null_item(p[3]) {
                    Some(None)
                } else {
                    match texts_array_of(p[3]) {
                        Some(t) => Some(Some(t)),
                        None => None,
                    }
                }
            } else {
                Some(None)
            };
            match (bytes_of(p[0]), sig_info_of(p[1]), bytes_of(p[2]), vendor) {
                (Some(n), Some(si), Some(f), Some(v)) => Some((n, si, f, v)),
                _ => None,
            }
        } else {
            None
        },
        None => None,
    }
}

impl HelloRVAck {
    /// The message's CBOR encoding.
    #[verifier::rlimit(40)]
    pub fn to_cbor(&self) -> (r: Vec<u8>)
        ensures
            r@ == hello_rv_ack_encoding(hello_rv_ack_view(*self)),
            hello_rv_ack_of(r@) == Some(hello_rv_ack_view(*self)),
    {
        proof {
            reveal_with_fuel(pow256, 9);
            reveal_with_fuel(concat_all, 5);
            assert(pow256(8) == 0x1_0000_0000_0000_0000);
        }
        let ghost f = hello_rv_ack_view(*self);
        let ghost front = seq![cbor_bytes(f.0), sig_info_encoding(f.1.0, f.1.1), cbor_bytes(f.2)];
        let top: u32 = MAX_NESTING - 1;
        let n0 = self.nonce4.0.len();
        let n2 = self.capability_flags.len();
        let mut buf: Vec<u8> = Vec::new();
        match &self.vendor_unique {
            Some(_) => write_head(&mut buf, 4, 4),
            None => write_head(&mut buf, 4, 3),
        }
        write_bytes(&mut buf, self.nonce4.0.as_slice());
        write_sig_info(&mut buf, &self.b_signature_info);
        write_bytes(&mut buf, self.capability_flags.as_slice());
        proof {
            lemma_scalars_are_items(0, f.0, Seq::empty(), top as nat);
            lemma_scalars_are_items(0, f.2, Seq::empty(), top as nat);
            lemma_sig_info_roundtrip(f.1.0, f.1.1);
            lemma_item_deeper(sig_info_encoding(f.1.0, f.1.1), 1, top as nat);
        }
        match &self.vendor_unique {
            Some(list) => {
                write_texts(&mut buf, list);
                proof {
                    let parts = front.push(texts_encoding(strings_of(list@)));
                    assert(concat_all(parts) =~= parts[0] + parts[1] + parts[2] + parts[3]);
                    assert(buf@ =~= hello_rv_ack_encoding(f));
                    lemma_texts_roundtrip(strings_of(list@));
                    lemma_item_deeper(texts_encoding(strings_of(list@)), 1, top as nat);
                    assert forall|i: int| 0 <= i < parts.len() implies is_item_at(#[trigger] parts[i], top as nat) by {}
                    lemma_array_elements_of(parts);
                }
            },
            None => {
                proof {
                    assert(concat_all(front) =~= front[0] + front[1] + front[2]);
                    assert(buf@ =~= hello_rv_ack_encoding(f));
                    assert forall|i: int| 0 <= i < front.len() implies is_item_at(#[trigger] front[i], top as nat) by {}
                    lemma_array_elements_of(front);
                }
            },
        }
        buf
    }

    /// Read the message from its CBOR encoding.
    pub fn from_cbor(d: &[u8]) -> (r: Result<HelloRVAck, Error>)
        ensures
            r is Ok <==> hello_rv_ack_of(d@) is Some,
            r matches Ok(m) ==> hello_rv_ack_of(d@) == Some(hello_rv_ack_view(m)),
    {
        let p = match split_array(d) {
            Some(p) => p,
            None => {
                return Err(Error::new("HelloRVAck is not a CBOR array"));
            },
        };
        if p.len() != 3 && p.len() != 4 {
            return Err(Error::new("HelloRVAck must have 3 or 4 elements"));
        }
        proof {
            let v = parts_view(p@);
            assert(v[0] == p@[0]@);
            assert(v[1] == p@[1]@);
            assert(v[2] == p@[2]@);
            if p@.len() == 4 {
                assert(v[3] == p@[3]@);
            }
        }
        let vendor_unique = if p.len() == 4 {
            if read_null(p[3].as_slice()) {
                None
            } else {
                match read_texts(p[3].as_slice()) {
                    Some(l) => Some(l),
                    None => {
                        return Err(Error::new("HelloRVAck vendor-unique strings are invalid"));
                    },
                }
            }
        } else {
            None
        };
        match (read_bytes(p[0].as_slice()), read_sig_info(p[1].as_slice()), read_bytes(p[2].as_slice())) {
            (Some(n), Some(si), Some(f)) => Ok(
                HelloRVAck { nonce4: Nonce(n), b_signature_info: si, capability_flags: f, vendor_unique },
            ),
            _ => Err(Error::new("Invalid HelloRVAck field")),
        }
    }
}


impl HelloRVAck {
    /// The message number.
    pub fn message_type() -> (r: MessageType)
        ensures
            r == MessageType::TO1HelloRVAck,
    {
        MessageType::TO1HelloRVAck
    }

    /// The protocol version the message belongs to.
    pub fn protocol_version() -> (r: ProtocolVersion)
        ensures
            r == ProtocolVersion::Version2_0,
    {
        ProtocolVersion::Version2_0
    }

    /// Whether the message may follow one of type `message_type`.
    pub fn is_valid_previous_message(message_type: Option<MessageType>) -> (r: bool)
        ensures
            r == valid_previous_message(MessageType::TO1HelloRVAck, message_type),
    {
        match message_type {
            Some(MessageType::TO1HelloRV) => true,
            _ => false,
        }
    }

    /// Whether the message must travel encrypted.
    pub fn encryption_requirement() -> (r: Option<EncryptionRequirement>)
        ensures
            r == Some(required_encryption(MessageType::TO1HelloRVAck)),
    {
        Some(EncryptionRequirement::MustNotBeEncrypted)
    }
}

/// TO1.ProveToRV (type 32): the device's signed proof.
#[derive(Debug)]
pub struct ProveToRV(pub COSESign);

impl ProveToRV {
    /// A proof carrying `token`.
    pub fn new(token: COSESign) -> (r: ProveToRV)
        ensures
            r.0 == token,
    {
        ProveToRV(token)
    }

    /// The signed token.
    pub fn token(&self) -> (r: &COSESign)
        ensures
            *r == self.0,
    {
        &self.0
    }
}

impl ProveToRV {
    /// The message number.
    pub fn message_type() -> (r: MessageType)
        ensures
            r == MessageType::TO1ProveToRV,
    {
        MessageType::TO1ProveToRV
    }

    /// The protocol version the message belongs to.
    pub fn protocol_version() -> (r: ProtocolVersion)
        ensures
            r == ProtocolVersion::Version2_0,
    {
        ProtocolVersion::Version2_0
    }

    /// Whether the message may follow one of type `message_type`.
    pub fn is_valid_previous_message(message_type: Option<MessageType>) -> (r: bool)
        ensures
            r == valid_previous_message(MessageType::TO1ProveToRV, message_type),
    {
        match message_type {
            Some(MessageType::TO1HelloRVAck) => true,
            _ => false,
        }
    }

    /// Whether the message must travel encrypted.
    pub fn encryption_requirement() -> (r: Option<EncryptionRequirement>)
        ensures
            r == Some(required_encryption(MessageType::TO1ProveToRV)),
    {
        Some(EncryptionRequirement::MustNotBeEncrypted)
    }
}

/// TO1.RVRedirect (type 33): the signed blob naming the owner's addresses.
#[derive(Debug)]
pub struct RVRedirect(pub COSESign);

impl RVRedirect {
    /// A redirect carrying `to1d`.
    pub fn new(to1d: COSESign) -> (r: RVRedirect)
        ensures
            r.0 == to1d,
    {
        RVRedirect(to1d)
    }

    /// The signed blob.
    pub fn to1d(&self) -> (r: &COSESign)
        ensures
            *r == self.0,
    {
        &self.0
    }

    /// The signed blob, taking the message apart.
    pub fn into_to1d(self) -> (r: COSESign)
        ensures
            r == self.0,
    {
        self.0
    }
}

impl RVRedirect {
    /// The message number.
    pub fn message_type() -> (r: MessageType)
        ensures
            r == MessageType::TO1RVRedirect,
    {
        MessageType::TO1RVRedirect
    }

    /// The protocol version the message belongs to.
    pub fn protocol_version() -> (r: ProtocolVersion)
        ensures
            r == ProtocolVersion::Version2_0,
    {
        ProtocolVersion::Version2_0
    }

    /// Whether the message may follow one of type `message_type`.
    pub fn is_valid_previous_message(message_type: Option<MessageType>) -> (r: bool)
        ensures
            r == valid_previous_message(MessageType::TO1RVRedirect, message_type),
    {
        match message_type {
            Some(MessageType::TO1ProveToRV) => true,
            _ => false,
        }
    }

    /// Whether the message must travel encrypted.
    pub fn encryption_requirement() -> (r: Option<EncryptionRequirement>)
        ensures
            r == Some(required_encryption(MessageType::TO1RVRedirect)),
    {
        Some(EncryptionRequirement::MustNotBeEncrypted)
    }
}

impl RVRedirect {
    /// Read an RVRedirect message: the message is the TO1D COSE_Sign1
    /// itself, which must carry a payload.
    pub fn from_cbor(d: &[u8]) -> (r: Result<RVRedirect, Error>)
        ensures
            r is Ok <==> cose_payload_of(d@) is Some,
            r matches Ok(m) ==> m.0.0@ == d@,
    {
        match read_cose_payload(d) {
            Some(_) => Ok(RVRedirect(COSESign(vstd::slice::slice_to_vec(d)))),
            None => Err(Error::new("RVRedirect is not a COSE_Sign1 structure")),
        }
    }
}

} // verus!
