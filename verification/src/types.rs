//! Core value types of the protocol: device identifiers, nonces, hashes,
//! signature information, capability flags and ServiceInfo.

use vstd::prelude::*;

use crate::cbor::{cbor_array_head, cbor_bytes, cbor_int, cbor_text};
use crate::cbor_scan::{
    array_elements, bytes_of, int_of, is_null_item, parts_view, read_bytes, read_int, read_null,
    read_text, read_uint, split_array, text_bytes_of, uint_of, MAX_NESTING,
};
use crate::cbor_write::{
    cbor_array, cbor_null, concat_all, is_item_at, lemma_array_elements_of, lemma_array_is_item,
    lemma_concat_push, lemma_item_deeper, lemma_scalars_are_items, write_bytes, write_head,
    write_int, write_null, write_text,
};
use crate::constants::{
    lemma_public_key_encoding_code_roundtrip, lemma_public_key_type_code_roundtrip, HashType,
    ProtocolVersion, PublicKeyEncoding, PublicKeyType,
};
use crate::csr::pow256;
use crate::Error;

verus! {

// ------------------------------------------------------------------
// Guid
// ------------------------------------------------------------------

/// Device identifier (128 bits).
#[derive(Clone, PartialEq, Eq, Debug)]
pub struct Guid(pub [u8; 16]);

pub open spec fn hex_char(n: u8) -> char {
    if n == 0 {
        '0'
    } else if n == 1 {
        '1'
    } else if n == 2 {
        '2'
    } else if n == 3 {
        '3'
    } else if n == 4 {
        '4'
    } else if n == 5 {
        '5'
    } else if n == 6 {
        '6'
    } else if n == 7 {
        '7'
    } else if n == 8 {
        '8'
    } else if n == 9 {
        '9'
    } else if n == 10 {
        'a'
    } else if n == 11 {
        'b'
    } else if n == 12 {
        'c'
    } else if n == 13 {
        'd'
    } else if n == 14 {
        'e'
    } else if n == 15 {
        'f'
    } else {
        '?'
    }
}

/// Two hexadecimal digits of a byte, high nibble first.
pub open spec fn hex_byte(b: u8) -> Seq<char> {
    seq![hex_char(b / 16), hex_char(b % 16)]
}

/// Whether a dash precedes the byte at position `i` in the UUID text form
/// (groups of 4, 2, 2, 2 and 6 bytes).
pub open spec fn uuid_dash_before(i: int) -> bool {
    i == 4 || i == 6 || i == 8 || i == 10
}

/// The UUID text of the first `n` bytes of `b`.
pub open spec fn uuid_text(b: Seq<u8>, n: nat) -> Seq<char>
    decreases n,
{
    if n == 0 {
        Seq::empty()
    } else {
        uuid_text(b, (n - 1) as nat) + (if uuid_dash_before(n - 1) {
            seq!['-']
        } else {
            Seq::empty()
        }) + hex_byte(b[n - 1])
    }
}

/// The lower-case hexadecimal digit of a nibble.
fn hex_digit(n: u8) -> (r: &'static str)
    requires
        n < 16,
    ensures
        r@ == seq![hex_char(n)],
{
    match n {
        0 => {
            proof {
                reveal_strlit("0");
            }
            "0"
        },
        1 => {
            proof {
                reveal_strlit("1");
            }
            "1"
        },
        2 => {
            proof {
                reveal_strlit("2");
            }
            "2"
        },
        3 => {
            proof {
                reveal_strlit("3");
            }
            "3"
        },
        4 => {
            proof {
                reveal_strlit("4");
            }
            "4"
        },
        5 => {
            proof {
                reveal_strlit("5");
            }
            "5"
        },
        6 => {
            proof {
                reveal_strlit("6");
            }
            "6"
        },
        7 => {
            proof {
                reveal_strlit("7");
            }
            "7"
        },
        8 => {
            proof {
                reveal_strlit("8");
            }
            "8"
        },
        9 => {
            proof {
                reveal_strlit("9");
            }
            "9"
        },
        10 => {
            proof {
                reveal_strlit("a");
            }
            "a"
        },
        11 => {
            proof {
                reveal_strlit("b");
            }
            "b"
        },
        12 => {
            proof {
                reveal_strlit("c");
            }
            "c"
        },
        13 => {
            proof {
                reveal_strlit("d");
            }
            "d"
        },
        14 => {
            proof {
                reveal_strlit("e");
            }
            "e"
        },
        15 => {
            proof {
                reveal_strlit("f");
            }
            "f"
        },
        _ => {
            proof {
                reveal_strlit("?");
            }
            "?"
        },
    }
}

impl Guid {
    /// A GUID with the given bytes.
    pub fn new(bytes: [u8; 16]) -> (r: Guid)
        ensures
            r.0@ == bytes@,
    {
        Guid(bytes)
    }

    /// The GUID's bytes.
    pub fn as_bytes(&self) -> (r: &[u8; 16])
        ensures
            r@ == self.0@,
    {
        &self.0
    }

    /// A GUID read from a byte string, which must hold exactly 16 bytes.
    pub fn from_slice(bytes: &[u8]) -> (r: Result<Guid, Error>)
        ensures
            bytes@.len() == 16 <==> r is Ok,
            r matches Ok(g) ==> g.0@ == bytes@,
    {
        if bytes.len() != 16 {
            return Err(Error::new("Guid must be 16 bytes"));
        }
        let arr: [u8; 16] = [
            bytes[0],
            bytes[1],
            bytes[2],
            bytes[3],
            bytes[4],
            bytes[5],
            bytes[6],
            bytes[7],
            bytes[8],
            bytes[9],
            bytes[10],
            bytes[11],
            bytes[12],
            bytes[13],
            bytes[14],
            bytes[15],
        ];
        assert(arr@ =~= bytes@);
        Ok(Guid(arr))
    }

    /// The GUID in UUID text form: 32 lower-case hexadecimal digits in
    /// groups of 8-4-4-4-12, separated by dashes.
    pub fn to_uuid_string(&self) -> (r: String)
        ensures
            r@ == uuid_text(self.0@, 16),
    {
        let mut s = String::new();
        let mut i: usize = 0;
        while i < 16
            invariant
                i <= 16,
                s@ == uuid_text(self.0@, i as nat),
            decreases 16 - i,
        {
            if i == 4 || i == 6 || i == 8 || i == 10 {
                proof {
                    reveal_strlit("-");
                }
                s.append("-");
            }
            let b = self.0[i];
            s.append(hex_digit(b / 16));
            s.append(hex_digit(b % 16));
            i = i + 1;
            assert(s@ =~= uuid_text(self.0@, i as nat));
        }
        s
    }
}

// ------------------------------------------------------------------
// Nonce
// ------------------------------------------------------------------

/// Random challenge value.
#[derive(Clone, PartialEq, Eq, Debug)]
pub struct Nonce(pub Vec<u8>);

impl Nonce {
    /// A nonce holding `bytes`.
    pub fn new(bytes: Vec<u8>) -> (r: Nonce)
        ensures
            r.0@ == bytes@,
    {
        Nonce(bytes)
    }

    /// The nonce's bytes.
    pub fn as_bytes(&self) -> (r: &[u8])
        ensures
            r@ == self.0@,
    {
        self.0.as_slice()
    }
}

// ------------------------------------------------------------------
// Hash, HMac, SigInfo
// ------------------------------------------------------------------

/// A cryptographic hash value with its algorithm.
#[derive(Clone, Debug)]
pub struct Hash {
    pub hash_type: HashType,
    pub value: Vec<u8>,
}

impl Hash {
    /// A hash of type `hash_type` with digest `value`.
    pub fn new(hash_type: HashType, value: Vec<u8>) -> (r: Hash)
        ensures
            r.hash_type == hash_type,
            r.value@ == value@,
    {
        Hash { hash_type, value }
    }

    /// The hash algorithm.
    pub fn get_type(&self) -> (r: HashType)
        ensures
            r == self.hash_type,
    {
        self.hash_type
    }

    /// The digest.
    pub fn value(&self) -> (r: &[u8])
        ensures
            r@ == self.value@,
    {
        self.value.as_slice()
    }
}

/// An HMAC value with its algorithm.
#[derive(Clone, Debug)]
pub struct HMac {
    pub hash_type: HashType,
    pub value: Vec<u8>,
}

impl HMac {
    /// An HMAC of type `hash_type` with value `value`.
    pub fn new(hash_type: HashType, value: Vec<u8>) -> (r: HMac)
        ensures
            r.hash_type == hash_type,
            r.value@ == value@,
    {
        HMac { hash_type, value }
    }
}

/// Signature algorithm information.
#[derive(Clone, Debug)]
pub struct SigInfo {
    pub sig_type: i8,
    pub info: Vec<u8>,
}

impl SigInfo {
    /// Signature information for algorithm `sig_type`.
    pub fn new(sig_type: i8, info: Vec<u8>) -> (r: SigInfo)
        ensures
            r.sig_type == sig_type,
            r.info@ == info@,
    {
        SigInfo { sig_type, info }
    }
}

/// The signature information `e` encodes: `[signature type, info bytes]`.
pub open spec fn sig_info_of(e: Seq<u8>) -> Option<(i8, Seq<u8>)> {
    match array_elements(e) {
        Some(p) => if p.len() == 2 {
            match (int_of(p[0]), bytes_of(p[1])) {
                (Some(t), Some(b)) => if -128 <= t < 128 {
                    Some((t as i8, b))
                } else {
                    None
                },
                _ => None,
            }
        } else {
            None
        },
        None => None,
    }
}

/// The encoding of signature information.
pub open spec fn sig_info_encoding(t: i8, info: Seq<u8>) -> Seq<u8> {
    cbor_array(seq![cbor_int(t as int), cbor_bytes(info)])
}

/// Reading written signature information gives it back; what is written
/// is one item nested at most one deep.
pub proof fn lemma_sig_info_roundtrip(t: i8, info: Seq<u8>)
    requires
        info.len() < pow256(8),
    ensures
        sig_info_of(sig_info_encoding(t, info)) == Some((t, info)),
        is_item_at(sig_info_encoding(t, info), 1),
{
    reveal_with_fuel(pow256, 9);
    let top: nat = (MAX_NESTING - 1) as nat;
    lemma_scalars_are_items(t as int, info, Seq::empty(), top);
    lemma_scalars_are_items(t as int, info, Seq::empty(), 0);
    let parts = seq![cbor_int(t as int), cbor_bytes(info)];
    assert forall|i: int| 0 <= i < parts.len() implies is_item_at(#[trigger] parts[i], top) by {}
    assert forall|i: int| 0 <= i < parts.len() implies is_item_at(#[trigger] parts[i], 0) by {}
    lemma_array_elements_of(parts);
    lemma_array_is_item(parts, 1);
}

/// Append the encoding of `s`.
pub(crate) fn write_sig_info(buf: &mut Vec<u8>, s: &SigInfo)
    ensures
        final(buf)@ == old(buf)@ + sig_info_encoding(s.sig_type, s.info@),
        s.info@.len() < pow256(8),
{
    proof {
        reveal_with_fuel(pow256, 9);
        reveal_with_fuel(concat_all, 3);
    }
    let ghost b0 = buf@;
    let n = s.info.len();
    write_head(buf, 4, 2);
    write_int(buf, s.sig_type as i64);
    write_bytes(buf, s.info.as_slice());
    proof {
        assert(concat_all(seq![cbor_int(s.sig_type as int), cbor_bytes(s.info@)]) =~= cbor_int(
            s.sig_type as int,
        ) + cbor_bytes(s.info@));
        assert(buf@ =~= b0 + sig_info_encoding(s.sig_type, s.info@));
    }
}

/// The signature information `e` encodes.
pub(crate) fn read_sig_info(e: &[u8]) -> (r: Option<SigInfo>)
    ensures
        r is None <==> sig_info_of(e@) is None,
        r matches Some(s) ==> sig_info_of(e@) == Some((s.sig_type, s.info@)),
{
    let p = match split_array(e) {
        Some(p) => p,
        None => {
            return None;
        },
    };
    if p.len() != 2 {
        return None;
    }
    proof {
        assert(parts_view(p@)[0] == p@[0]@);
        assert(parts_view(p@)[1] == p@[1]@);
    }
    match (read_int(p[0].as_slice()), read_bytes(p[1].as_slice())) {
        (Some(t), Some(b)) => if -128 <= t && t < 128 {
            Some(SigInfo { sig_type: t as i8, info: b })
        } else {
            None
        },
        _ => None,
    }
}

// ------------------------------------------------------------------
// CapabilityFlags
// ------------------------------------------------------------------

/// Capability flags exchanged for FDO 2.0 version negotiation. In the first
/// flags byte, bit 0 announces delegate support and bit 1 FDO 2.0 support.
#[derive(Clone, Debug)]
pub struct CapabilityFlags {
    pub flags: Vec<u8>,
    pub vendor_unique: Option<Vec<String>>,
}

/// Whether bit `bit` of the first flags byte is set.
pub open spec fn capability_bit(flags: Seq<u8>, bit: nat) -> bool {
    flags.len() > 0 && (flags[0] as nat / vstd::arithmetic::power2::pow2(bit)) % 2 == 1
}

/// Whether the flags announce support for protocol version `v`. Capability
/// flags only exist in FDO 2.0, and only announce that version.
pub open spec fn capability_supports_version(flags: Seq<u8>, v: ProtocolVersion) -> bool {
    match v {
        ProtocolVersion::Version2_0 => capability_bit(flags, 1),
        _ => false,
    }
}

impl CapabilityFlags {
    /// The flags of an FDO 2.0 participant: bit 1 set, nothing else.
    pub fn new_v20() -> (r: CapabilityFlags)
        ensures
            r.flags@ == seq![2u8],
            r.vendor_unique is None,
    {
        CapabilityFlags { flags: vec![2u8], vendor_unique: None }
    }

    /// The flags an FDO 2.0 client sends: FDO 2.0, no delegate support.
    pub fn new_v20_client() -> (r: CapabilityFlags)
        ensures
            r.flags@ == seq![2u8],
            r.vendor_unique is None,
    {
        CapabilityFlags::new_v20()
    }

    /// Flags given as raw bytes, with no vendor-unique entries.
    pub fn from_flags(flags: Vec<u8>) -> (r: CapabilityFlags)
        ensures
            r.flags@ == flags@,
            r.vendor_unique is None,
    {
        CapabilityFlags { flags, vendor_unique: None }
    }

    /// Whether these flags announce support for protocol version `v`.
    pub fn supports_version(&self, v: ProtocolVersion) -> (r: bool)
        ensures
            r == capability_supports_version(self.flags@, v),
    {
        match v {
            ProtocolVersion::Version2_0 => {
                proof {
                    vstd::arithmetic::power2::lemma2_to64();
                }
                self.flags.len() > 0 && (self.flags[0] / 2) % 2 == 1
            },
            _ => false,
        }
    }

    /// Whether these flags announce delegate support.
    pub fn supports_delegate(&self) -> (r: bool)
        ensures
            r == capability_bit(self.flags@, 0),
    {
        proof {
            vstd::arithmetic::power2::lemma2_to64();
        }
        self.flags.len() > 0 && self.flags[0] % 2 == 1
    }
}

/// Key exchange suites.
#[derive(Debug, Clone, Copy, PartialEq, Eq, Structural)]
pub enum KexSuite {
    Ecdh256,
    Ecdh384,
    Asymkex2048,
    Asymkex3072,
}

impl KexSuite {
    pub open spec fn spec_code(self) -> i8 {
        match self {
            KexSuite::Ecdh256 => 1,
            KexSuite::Ecdh384 => 2,
            KexSuite::Asymkex2048 => 3,
            KexSuite::Asymkex3072 => 4,
        }
    }

    pub open spec fn spec_from_code(c: i8) -> Option<KexSuite> {
        if c == 1 {
            Some(KexSuite::Ecdh256)
        } else if c == 2 {
            Some(KexSuite::Ecdh384)
        } else if c == 3 {
            Some(KexSuite::Asymkex2048)
        } else if c == 4 {
            Some(KexSuite::Asymkex3072)
        } else {
            None
        }
    }

    /// The wire integer of this value.
    pub fn code(&self) -> (r: i8)
        ensures
            r == self.spec_code(),
    {
        match self {
            KexSuite::Ecdh256 => 1,
            KexSuite::Ecdh384 => 2,
            KexSuite::Asymkex2048 => 3,
            KexSuite::Asymkex3072 => 4,
        }
    }

    /// The value whose wire integer is `c`, if any.
    pub fn from_code(c: i8) -> (r: Option<KexSuite>)
        ensures
            r == KexSuite::spec_from_code(c),
    {
        if c == 1 {
            Some(KexSuite::Ecdh256)
        } else if c == 2 {
            Some(KexSuite::Ecdh384)
        } else if c == 3 {
            Some(KexSuite::Asymkex2048)
        } else if c == 4 {
            Some(KexSuite::Asymkex3072)
        } else {
            None
        }
    }

}

/// Decoding the wire integer of a kex suite gives it back, and a wire
/// integer that decodes is the integer of what it decodes to.
pub proof fn lemma_kex_suite_code_roundtrip(v: KexSuite, c: i8)
    ensures
        KexSuite::spec_from_code(v.spec_code()) == Some(v),
        KexSuite::spec_from_code(c) matches Some(w) ==> w.spec_code() == c,
{
}

/// Encryption cipher suites.
#[derive(Debug, Clone, Copy, PartialEq, Eq, Structural)]
pub enum CipherSuite {
    A128Gcm,
    A256Gcm,
    Aes128Cbc,
    Aes256Cbc,
    AesCcm64_128_128,
    AesCcm64_128_256,
}

impl CipherSuite {
    pub open spec fn spec_code(self) -> i8 {
        match self {
            CipherSuite::A128Gcm => 1,
            CipherSuite::A256Gcm => 2,
            CipherSuite::Aes128Cbc => 3,
            CipherSuite::Aes256Cbc => 4,
            CipherSuite::AesCcm64_128_128 => 32,
            CipherSuite::AesCcm64_128_256 => 33,
        }
    }

    pub open spec fn spec_from_code(c: i8) -> Option<CipherSuite> {
        if c == 1 {
            Some(CipherSuite::A128Gcm)
        } else if c == 2 {
            Some(CipherSuite::A256Gcm)
        } else if c == 3 {
            Some(CipherSuite::Aes128Cbc)
        } else if c == 4 {
            Some(CipherSuite::Aes256Cbc)
        } else if c == 32 {
            Some(CipherSuite::AesCcm64_128_128)
        } else if c == 33 {
            Some(CipherSuite::AesCcm64_128_256)
        } else {
            None
        }
    }

    /// The wire integer of this value.
    pub fn code(&self) -> (r: i8)
        ensures
            r == self.spec_code(),
    {
        match self {
            CipherSuite::A128Gcm => 1,
            CipherSuite::A256Gcm => 2,
            CipherSuite::Aes128Cbc => 3,
            CipherSuite::Aes256Cbc => 4,
            CipherSuite::AesCcm64_128_128 => 32,
            CipherSuite::AesCcm64_128_256 => 33,
        }
    }

    /// The value whose wire integer is `c`, if any.
    pub fn from_code(c: i8) -> (r: Option<CipherSuite>)
        ensures
            r == CipherSuite::spec_from_code(c),
    {
        if c == 1 {
            Some(CipherSuite::A128Gcm)
        } else if c == 2 {
            Some(CipherSuite::A256Gcm)
        } else if c == 3 {
            Some(CipherSuite::Aes128Cbc)
        } else if c == 4 {
            Some(CipherSuite::Aes256Cbc)
        } else if c == 32 {
            Some(CipherSuite::AesCcm64_128_128)
        } else if c == 33 {
            Some(CipherSuite::AesCcm64_128_256)
        } else {
            None
        }
    }

}

/// Decoding the wire integer of a cipher suite gives it back, and a wire
/// integer that decodes is the integer of what it decodes to.
pub proof fn lemma_cipher_suite_code_roundtrip(v: CipherSuite, c: i8)
    ensures
        CipherSuite::spec_from_code(v.spec_code()) == Some(v),
        CipherSuite::spec_from_code(c) matches Some(w) ==> w.spec_code() == c,
{
}

// ------------------------------------------------------------------
// COSESign
// ------------------------------------------------------------------

/// A COSE_Sign1 structure, kept as its encoded bytes.
#[derive(Clone, Debug)]
pub struct COSESign(pub Vec<u8>);

impl COSESign {
    /// A COSE_Sign1 from its encoded bytes.
    pub fn from_bytes(bytes: Vec<u8>) -> (r: COSESign)
        ensures
            r.0@ == bytes@,
    {
        COSESign(bytes)
    }

    /// The encoded bytes.
    pub fn as_bytes(&self) -> (r: &[u8])
        ensures
            r@ == self.0@,
    {
        self.0.as_slice()
    }
}

// ------------------------------------------------------------------
// ServiceInfo
// ------------------------------------------------------------------

/// Key/value pairs exchanged during the ServiceInfo rounds.
#[derive(Clone, Debug)]
pub struct ServiceInfo(pub Vec<(String, Vec<u8>)>);

impl ServiceInfo {
    /// No entries.
    pub fn new() -> (r: ServiceInfo)
        ensures
            r.0@.len() == 0,
    {
        ServiceInfo(Vec::new())
    }

    /// Append the entry `key` = `value`; earlier entries are kept, in order.
    pub fn add(&mut self, key: String, value: Vec<u8>)
        ensures
            final(self).0@ == old(self).0@.push((key, value)),
    {
        self.0.push((key, value));
    }
}

impl Default for ServiceInfo {
    fn default() -> (r: ServiceInfo)
        ensures
            r.0@.len() == 0,
    {
        ServiceInfo::new()
    }
}

/// ServiceInfo as plain values: the keys and values, in order.
pub open spec fn service_info_view(si: ServiceInfo) -> Seq<(Seq<char>, Seq<u8>)> {
    si.0@.map_values(|e: (String, Vec<u8>)| (e.0@, e.1@))
}

/// The encoding of one entry: `[key, value bytes]`.
pub open spec fn si_entry_encoding(e: (Seq<char>, Seq<u8>)) -> Seq<u8> {
    cbor_array(seq![cbor_text(e.0), cbor_bytes(e.1)])
}

/// The encoding of ServiceInfo: an array of its entries.
pub open spec fn service_info_encoding(v: Seq<(Seq<char>, Seq<u8>)>) -> Seq<u8> {
    cbor_array(v.map_values(|e: (Seq<char>, Seq<u8>)| si_entry_encoding(e)))
}

/// The entry `e` encodes.
pub open spec fn si_entry_of(e: Seq<u8>) -> Option<(Seq<char>, Seq<u8>)> {
    match array_elements(e) {
        Some(p) => if p.len() == 2 {
            match (text_item(p[0]), bytes_of(p[1])) {
                (Some(k), Some(v)) => Some((k, v)),
                _ => None,
            }
        } else {
            None
        },
        None => None,
    }
}

/// The ServiceInfo entries `d` encodes: an array whose every item is an
/// entry.
pub open spec fn service_info_of(d: Seq<u8>) -> Option<Seq<(Seq<char>, Seq<u8>)>> {
    match array_elements(d) {
        Some(q) => if forall|i: int| 0 <= i < q.len() ==> (#[trigger] si_entry_of(q[i])) is Some {
            Some(Seq::new(q.len(), |i: int| si_entry_of(q[i]).unwrap()))
        } else {
            None
        },
        None => None,
    }
}

/// ServiceInfo a writer can write: sizes a head can state.
pub open spec fn service_info_encodable(v: Seq<(Seq<char>, Seq<u8>)>) -> bool {
    &&& v.len() < pow256(8)
    &&& forall|i: int| 0 <= i < v.len() ==> vstd::utf8::encode_utf8((#[trigger] v[i]).0).len() < pow256(8)
        && v[i].1.len() < pow256(8)
}

/// Reading written ServiceInfo gives its entries back.
pub proof fn lemma_service_info_roundtrip(v: Seq<(Seq<char>, Seq<u8>)>)
    requires
        service_info_encodable(v),
    ensures
        service_info_of(service_info_encoding(v)) == Some(v),
{
    broadcast use vstd::utf8::encode_utf8_valid_utf8, vstd::utf8::encode_utf8_decode_utf8;

    reveal_with_fuel(pow256, 9);
    let top: nat = (MAX_NESTING - 1) as nat;
    let q = v.map_values(|e: (Seq<char>, Seq<u8>)| si_entry_encoding(e));
    assert forall|i: int| 0 <= i < q.len() implies is_item_at(#[trigger] q[i], top) && si_entry_of(q[i])
        == Some(v[i]) by {
        let e = v[i];
        lemma_scalars_are_items(0, e.1, e.0, top);
        lemma_scalars_are_items(0, e.1, e.0, 0);
        let parts = seq![cbor_text(e.0), cbor_bytes(e.1)];
        assert forall|j: int| 0 <= j < parts.len() implies is_item_at(#[trigger] parts[j], top) by {}
        assert forall|j: int| 0 <= j < parts.len() implies is_item_at(#[trigger] parts[j], 0) by {}
        lemma_array_elements_of(parts);
        lemma_array_is_item(parts, 1);
        lemma_item_deeper(si_entry_encoding(e), 1, top);
    }
    lemma_array_elements_of(q);
    assert(Seq::new(q.len(), |i: int| si_entry_of(q[i]).unwrap()) =~= v);
}

impl ServiceInfo {
    /// The entries' CBOR encoding.
    pub fn to_cbor(&self) -> (r: Vec<u8>)
        ensures
            r@ == service_info_encoding(service_info_view(*self)),
            service_info_of(r@) == Some(service_info_view(*self)),
    {
        proof {
            reveal_with_fuel(pow256, 9);
            reveal_with_fuel(concat_all, 3);
        }
        let ghost v = service_info_view(*self);
        let ghost q = v.map_values(|e: (Seq<char>, Seq<u8>)| si_entry_encoding(e));
        let mut buf: Vec<u8> = Vec::new();
        write_head(&mut buf, 4, self.0.len() as u64);
        let mut i: usize = 0;
        while i < self.0.len()
            invariant
                i <= self.0@.len(),
                v == service_info_view(*self),
                q == v.map_values(|e: (Seq<char>, Seq<u8>)| si_entry_encoding(e)),
                buf@ == cbor_array_head(self.0@.len() as nat) + concat_all(q.subrange(0, i as int)),
                forall|j: int| 0 <= j < i ==> vstd::utf8::encode_utf8((#[trigger] v[j]).0).len() < pow256(8)
                    && v[j].1.len() < pow256(8),
                pow256(8) == 0x1_0000_0000_0000_0000,
            decreases self.0@.len() - i,
        {
            let key = self.0[i].0.as_str();
            let value = self.0[i].1.as_slice();
            let nk = key.as_bytes().len();
            let nv = value.len();
            let ghost b0 = buf@;
            write_head(&mut buf, 4, 2);
            write_text(&mut buf, key);
            write_bytes(&mut buf, value);
            proof {
                reveal_with_fuel(concat_all, 3);
                let e = v[i as int];
                assert(e == (self.0@[i as int].0@, self.0@[i as int].1@));
                assert(concat_all(seq![cbor_text(e.0), cbor_bytes(e.1)]) =~= cbor_text(e.0) + cbor_bytes(e.1));
                assert(buf@ =~= b0 + q[i as int]);
                lemma_concat_push(q.subrange(0, i as int), q[i as int]);
                assert(q.subrange(0, i as int + 1) =~= q.subrange(0, i as int).push(q[i as int]));
            }
            i = i + 1;
        }
        proof {
            assert(q.subrange(0, self.0@.len() as int) =~= q);
            assert(buf@ =~= service_info_encoding(v));
            lemma_service_info_roundtrip(v);
        }
        buf
    }

    /// Read ServiceInfo from its CBOR encoding.
    pub fn from_cbor(d: &[u8]) -> (r: Result<ServiceInfo, Error>)
        ensures
            r is Ok <==> service_info_of(d@) is Some,
            r matches Ok(si) ==> service_info_of(d@) == Some(service_info_view(si)),
    {
        let q = match split_array(d) {
            Some(q) => q,
            None => {
                return Err(Error::new("ServiceInfo is not a CBOR array"));
            },
        };
        let ghost qv = parts_view(q@);
        let mut out: Vec<(String, Vec<u8>)> = Vec::new();
        let mut i: usize = 0;
        while i < q.len()
            invariant
                i <= q@.len(),
                qv == parts_view(q@),
                array_elements(d@) == Some(qv),
                forall|j: int| 0 <= j < i ==> (#[trigger] si_entry_of(qv[j])) is Some,
                out@.map_values(|e: (String, Vec<u8>)| (e.0@, e.1@)) == Seq::new(
                    i as nat,
                    |j: int| si_entry_of(qv[j]).unwrap(),
                ),
            decreases q@.len() - i,
        {
            proof {
                assert(qv[i as int] == q@[i as int]@);
            }
            let p = match split_array(q[i].as_slice()) {
                Some(p) => p,
                None => {
                    assert(!(forall|j: int| 0 <= j < qv.len() ==> (#[trigger] si_entry_of(qv[j])) is Some));
                    return Err(Error::new("ServiceInfo entry is not a CBOR array"));
                },
            };
            if p.len() != 2 {
                assert(!(forall|j: int| 0 <= j < qv.len() ==> (#[trigger] si_entry_of(qv[j])) is Some));
                return Err(Error::new("ServiceInfo entry must have 2 elements"));
            }
            proof {
                assert(parts_view(p@)[0] == p@[0]@);
                assert(parts_view(p@)[1] == p@[1]@);
            }
            let (k, v) = match (read_text(p[0].as_slice()), read_bytes(p[1].as_slice())) {
                (Some(k), Some(v)) => (k, v),
                _ => {
                    assert(si_entry_of(qv[i as int]) is None);
                    assert(!(forall|j: int| 0 <= j < qv.len() ==> (#[trigger] si_entry_of(qv[j])) is Some));
                    return Err(Error::new("Invalid ServiceInfo entry"));
                },
            };
            let ghost before = out@;
            out.push((k, v));
            proof {
                assert(si_entry_of(qv[i as int]) == Some((k@, v@)));
                assert(out@.map_values(|e: (String, Vec<u8>)| (e.0@, e.1@)) =~= before.map_values(
                    |e: (String, Vec<u8>)| (e.0@, e.1@),
                ).push((k@, v@)));
                assert(out@.map_values(|e: (String, Vec<u8>)| (e.0@, e.1@)) =~= Seq::new(
                    (i + 1) as nat,
                    |j: int| si_entry_of(qv[j]).unwrap(),
                ));
            }
            i = i + 1;
        }
        proof {
            assert(out@.map_values(|e: (String, Vec<u8>)| (e.0@, e.1@)) =~= Seq::new(
                qv.len(),
                |j: int| si_entry_of(qv[j]).unwrap(),
            ));
        }
        Ok(ServiceInfo(out))
    }
}

// ------------------------------------------------------------------
// RendezvousInfo
// ------------------------------------------------------------------

/// One rendezvous directive: a variable and its encoded value.
#[derive(Clone, Debug)]
pub struct RendezvousDirective {
    pub key: u8,
    pub value: Vec<u8>,
}

/// Rendezvous server information: a list of directives, each a list of
/// variable/value pairs.
#[derive(Clone, Debug)]
pub struct RendezvousInfo(pub Vec<Vec<RendezvousDirective>>);

impl RendezvousInfo {
    /// No directives.
    pub fn new() -> (r: RendezvousInfo)
        ensures
            r.0@.len() == 0,
    {
        RendezvousInfo(Vec::new())
    }
}

impl Default for RendezvousInfo {
    fn default() -> (r: RendezvousInfo)
        ensures
            r.0@.len() == 0,
    {
        RendezvousInfo::new()
    }
}

// ------------------------------------------------------------------
// Encodings of capability flags and manufacturing information
// ------------------------------------------------------------------

/// Capability flags as plain values: the flag bytes and the vendor-unique
/// strings, if any.
pub type CapabilityFlagsFields = (Seq<u8>, Option<Seq<Seq<char>>>);

pub open spec fn strings_of(v: Seq<String>) -> Seq<Seq<char>> {
    v.map_values(|s: String| s@)
}

pub open spec fn capability_flags_view(c: CapabilityFlags) -> CapabilityFlagsFields {
    (
        c.flags@,
        match c.vendor_unique {
            Some(v) => Some(strings_of(v@)),
            None => None,
        },
    )
}

/// The text the text string `e` is exactly the encoding of, when its
/// contents are valid UTF-8.
pub open spec fn text_item(e: Seq<u8>) -> Option<Seq<char>> {
    match text_bytes_of(e) {
        Some(b) => if vstd::utf8::valid_utf8(b) {
            Some(vstd::utf8::decode_utf8(b))
        } else {
            None
        },
        None => None,
    }
}

/// The texts of a list of text string items, when every item is one.
pub open spec fn texts_of(parts: Seq<Seq<u8>>) -> Option<Seq<Seq<char>>> {
    if forall|i: int| 0 <= i < parts.len() ==> (#[trigger] text_item(parts[i])) is Some {
        Some(Seq::new(parts.len(), |i: int| text_item(parts[i]).unwrap()))
    } else {
        None
    }
}

/// An array of text strings.
pub open spec fn texts_encoding(l: Seq<Seq<char>>) -> Seq<u8> {
    cbor_array(l.map_values(|s: Seq<char>| cbor_text(s)))
}

/// Texts a writer can write: sizes a head can state.
pub open spec fn texts_encodable(l: Seq<Seq<char>>) -> bool {
    &&& l.len() < pow256(8)
    &&& forall|i: int| 0 <= i < l.len() ==> vstd::utf8::encode_utf8(#[trigger] l[i]).len() < pow256(8)
}

/// The texts of the array of text strings `e` encodes.
pub open spec fn texts_array_of(e: Seq<u8>) -> Option<Seq<Seq<char>>> {
    match array_elements(e) {
        Some(q) => texts_of(q),
        None => None,
    }
}

/// Reading a written array of texts gives the texts back; what is written
/// is one item nested at most one deep, and not null.
pub proof fn lemma_texts_roundtrip(l: Seq<Seq<char>>)
    requires
        texts_encodable(l),
    ensures
        texts_array_of(texts_encoding(l)) == Some(l),
        is_item_at(texts_encoding(l), 1),
        !is_null_item(texts_encoding(l)),
{
    broadcast use vstd::utf8::encode_utf8_valid_utf8, vstd::utf8::encode_utf8_decode_utf8;

    let top: nat = (MAX_NESTING - 1) as nat;
    let q = l.map_values(|s: Seq<char>| cbor_text(s));
    assert forall|i: int| 0 <= i < q.len() implies is_item_at(#[trigger] q[i], top) && is_item_at(q[i], 0)
        && text_item(q[i]) == Some(l[i]) by {
        lemma_scalars_are_items(0, Seq::empty(), l[i], top);
        lemma_scalars_are_items(0, Seq::empty(), l[i], 0);
    }
    lemma_array_elements_of(q);
    lemma_array_is_item(q, 1);
    assert(texts_of(q) == Some(l)) by {
        assert(Seq::new(q.len(), |i: int| text_item(q[i]).unwrap()) =~= l);
    }
    assert(!is_null_item(cbor_array(q))) by {
        assert(cbor_array(q)[0] / 32 == 4);
    }
}

/// Append an array of the texts `list`.
pub(crate) fn write_texts(buf: &mut Vec<u8>, list: &Vec<String>)
    ensures
        final(buf)@ == old(buf)@ + texts_encoding(strings_of(list@)),
        texts_encodable(strings_of(list@)),
{
    proof {
        reveal_with_fuel(pow256, 9);
    }
    let ghost b0 = buf@;
    let ghost l = strings_of(list@);
    let ghost q = l.map_values(|s: Seq<char>| cbor_text(s));
    write_head(buf, 4, list.len() as u64);
    let mut i: usize = 0;
    while i < list.len()
        invariant
            i <= list@.len(),
            l == strings_of(list@),
            q == l.map_values(|s: Seq<char>| cbor_text(s)),
            buf@ == b0 + cbor_array_head(list@.len() as nat) + concat_all(q.subrange(0, i as int)),
            forall|j: int| 0 <= j < i ==> vstd::utf8::encode_utf8(#[trigger] l[j]).len() < pow256(8),
            pow256(8) == 0x1_0000_0000_0000_0000,
        decreases list@.len() - i,
    {
        let n = list[i].as_str().as_bytes().len();
        write_text(buf, list[i].as_str());
        proof {
            assert(l[i as int] == list@[i as int]@);
            assert(vstd::utf8::encode_utf8(l[i as int]).len() == n);
            lemma_concat_push(q.subrange(0, i as int), q[i as int]);
            assert(q.subrange(0, i as int + 1) =~= q.subrange(0, i as int).push(q[i as int]));
        }
        i = i + 1;
    }
    proof {
        assert(q.subrange(0, list@.len() as int) =~= q);
        assert(buf@ =~= b0 + texts_encoding(l));
    }
}

/// The texts of the array of text strings `e` encodes.
pub(crate) fn read_texts(e: &[u8]) -> (r: Option<Vec<String>>)
    ensures
        r is None <==> texts_array_of(e@) is None,
        r matches Some(l) ==> texts_array_of(e@) == Some(strings_of(l@)),
{
    let q = match split_array(e) {
        Some(q) => q,
        None => {
            return None;
        },
    };
    let ghost qv = parts_view(q@);
    let mut list: Vec<String> = Vec::new();
    let mut i: usize = 0;
    while i < q.len()
        invariant
            i <= q@.len(),
            qv == parts_view(q@),
            array_elements(e@) == Some(qv),
            forall|j: int| 0 <= j < i ==> (#[trigger] text_item(qv[j])) is Some,
            strings_of(list@) == Seq::new(i as nat, |j: int| text_item(qv[j]).unwrap()),
        decreases q@.len() - i,
    {
        proof {
            assert(qv[i as int] == q@[i as int]@);
        }
        let s = match read_text(q[i].as_slice()) {
            Some(s) => s,
            None => {
                assert(text_item(qv[i as int]) is None);
                assert(!(forall|j: int| 0 <= j < qv.len() ==> (#[trigger] text_item(qv[j])) is Some));
                return None;
            },
        };
        let ghost before = list@;
        list.push(s);
        proof {
            assert(text_item(qv[i as int]) == Some(s@));
            assert(strings_of(list@) =~= strings_of(before).push(s@));
            assert(strings_of(list@) =~= Seq::new((i + 1) as nat, |j: int| text_item(qv[j]).unwrap()));
        }
        i = i + 1;
    }
    proof {
        assert(strings_of(list@) =~= Seq::new(qv.len(), |j: int| text_item(qv[j]).unwrap()));
    }
    Some(list)
}

/// The vendor-unique strings: an array of text strings, or null.
pub open spec fn vendor_unique_encoding(v: Option<Seq<Seq<char>>>) -> Seq<u8> {
    match v {
        Some(l) => texts_encoding(l),
        None => cbor_null(),
    }
}

/// The encoding of capability flags: `[flags, vendor-unique strings or
/// null]`.
pub open spec fn capability_flags_encoding(f: CapabilityFlagsFields) -> Seq<u8> {
    cbor_array(seq![cbor_bytes(f.0), vendor_unique_encoding(f.1)])
}

/// The capability flags `e` encodes.
pub open spec fn capability_flags_of(e: Seq<u8>) -> Option<CapabilityFlagsFields> {
    match array_elements(e) {
        Some(p) => if p.len() == 2 {
            match bytes_of(p[0]) {
                Some(f) => if is_null_item(p[1]) {
                    Some((f, None))
                } else {
                    match texts_array_of(p[1]) {
                        Some(t) => Some((f, Some(t))),
                        None => None,
                    }
                },
                None => None,
            }
        } else {
            None
        },
        None => None,
    }
}

/// Capability flags a writer can write: sizes a head can state.
pub open spec fn capability_flags_encodable(f: CapabilityFlagsFields) -> bool {
    &&& f.0.len() < pow256(8)
    &&& (f.1 matches Some(l) ==> texts_encodable(l))
}

/// Reading written capability flags gives them back, and what is written
/// is one item nested at most two deep.
pub proof fn lemma_capability_flags_roundtrip(f: CapabilityFlagsFields)
    requires
        capability_flags_encodable(f),
    ensures
        capability_flags_of(capability_flags_encoding(f)) == Some(f),
        is_item_at(capability_flags_encoding(f), 2),
{
    let top: nat = (MAX_NESTING - 1) as nat;
    reveal_with_fuel(pow256, 9);
    lemma_scalars_are_items(0, f.0, Seq::empty(), top);
    lemma_scalars_are_items(0, f.0, Seq::empty(), 1);
    let parts = seq![cbor_bytes(f.0), vendor_unique_encoding(f.1)];
    match f.1 {
        Some(l) => {
            lemma_texts_roundtrip(l);
            lemma_item_deeper(texts_encoding(l), 1, top);
        },
        None => {
            lemma_scalars_are_items(0, Seq::empty(), Seq::empty(), top);
            lemma_scalars_are_items(0, Seq::empty(), Seq::empty(), 1);
        },
    }
    assert forall|i: int| 0 <= i < parts.len() implies is_item_at(#[trigger] parts[i], top) by {}
    assert forall|i: int| 0 <= i < parts.len() implies is_item_at(#[trigger] parts[i], 1) by {}
    lemma_array_elements_of(parts);
    lemma_array_is_item(parts, 2);
}

impl CapabilityFlags {
    /// The flags' CBOR encoding.
    pub fn to_cbor(&self) -> (r: Vec<u8>)
        ensures
            r@ == capability_flags_encoding(capability_flags_view(*self)),
            capability_flags_of(r@) == Some(capability_flags_view(*self)),
            capability_flags_encodable(capability_flags_view(*self)),
    {
        proof {
            reveal_with_fuel(pow256, 9);
            reveal_with_fuel(concat_all, 3);
            assert(pow256(8) == 0x1_0000_0000_0000_0000);
        }
        let ghost f = capability_flags_view(*self);
        let flags_len = self.flags.len();
        let mut buf: Vec<u8> = Vec::new();
        write_head(&mut buf, 4, 2);
        write_bytes(&mut buf, self.flags.as_slice());
        match &self.vendor_unique {
            None => write_null(&mut buf),
            Some(list) => write_texts(&mut buf, list),
        }
        proof {
            assert(concat_all(seq![cbor_bytes(f.0), vendor_unique_encoding(f.1)]) =~= cbor_bytes(f.0)
                + vendor_unique_encoding(f.1));
            assert(buf@ =~= capability_flags_encoding(f));
            lemma_capability_flags_roundtrip(f);
        }
        buf
    }

    /// Read capability flags from their CBOR encoding.
    pub fn from_cbor(e: &[u8]) -> (r: Result<CapabilityFlags, Error>)
        ensures
            r is Ok <==> capability_flags_of(e@) is Some,
            r matches Ok(c) ==> capability_flags_of(e@) == Some(capability_flags_view(c)),
    {
        let p = match split_array(e) {
            Some(p) => p,
            None => {
                return Err(Error::new("Capability flags are not a CBOR array"));
            },
        };
        if p.len() != 2 {
            return Err(Error::new("Capability flags must have 2 elements"));
        }
        proof {
            assert(parts_view(p@)[0] == p@[0]@);
            assert(parts_view(p@)[1] == p@[1]@);
        }
        let flags = match read_bytes(p[0].as_slice()) {
            Some(f) => f,
            None => {
                return Err(Error::new("Capability flags are not a byte string"));
            },
        };
        if read_null(p[1].as_slice()) {
            return Ok(CapabilityFlags { flags, vendor_unique: None });
        }
        match read_texts(p[1].as_slice()) {
            Some(list) => Ok(CapabilityFlags { flags, vendor_unique: Some(list) }),
            None => Err(Error::new("Vendor-unique capabilities are not an array of text strings")),
        }
    }
}

/// What a device tells the manufacturer about itself when Device
/// Initialization starts: the type and encoding of its key, its serial
/// number, its device info, and a certificate signing request (DER).
#[derive(Debug, Clone)]
pub struct DeviceMfgInfo {
    pub key_type: PublicKeyType,
    pub key_encoding: PublicKeyEncoding,
    pub serial_number: String,
    pub device_info: String,
    pub cert_info: Vec<u8>,
}

/// Manufacturing information as plain values.
pub type DeviceMfgInfoFields = (PublicKeyType, PublicKeyEncoding, Seq<char>, Seq<char>, Seq<u8>);

pub open spec fn device_mfg_info_view(m: DeviceMfgInfo) -> DeviceMfgInfoFields {
    (m.key_type, m.key_encoding, m.serial_number@, m.device_info@, m.cert_info@)
}

/// The encoding of manufacturing information: `[key type, key encoding,
/// serial number, device info, certificate signing request]`.
pub open spec fn device_mfg_info_encoding(f: DeviceMfgInfoFields) -> Seq<u8> {
    cbor_array(
        seq![
            cbor_int(f.0.spec_code() as int),
            cbor_int(f.1.spec_code() as int),
            cbor_text(f.2),
            cbor_text(f.3),
            cbor_bytes(f.4),
        ],
    )
}

/// The manufacturing information `e` encodes.
pub open spec fn device_mfg_info_of(e: Seq<u8>) -> Option<DeviceMfgInfoFields> {
    match array_elements(e) {
        Some(p) => if p.len() == 5 {
            match (uint_of(p[0]), uint_of(p[1]), text_item(p[2]), text_item(p[3]), bytes_of(p[4])) {
                (Some(kt), Some(ke), Some(sn), Some(di), Some(csr)) => if kt < 256 && ke < 256 {
                    match (PublicKeyType::spec_from_code(kt as u8), PublicKeyEncoding::spec_from_code(ke as u8)) {
                        (Some(t), Some(k)) => Some((t, k, sn, di, csr)),
                        _ => None,
                    }
                } else {
                    None
                },
                _ => None,
            }
        } else {
            None
        },
        None => None,
    }
}

/// Manufacturing information a writer can write: sizes a head can state.
pub open spec fn device_mfg_info_encodable(f: DeviceMfgInfoFields) -> bool {
    &&& vstd::utf8::encode_utf8(f.2).len() < pow256(8)
    &&& vstd::utf8::encode_utf8(f.3).len() < pow256(8)
    &&& f.4.len() < pow256(8)
}

/// Reading written manufacturing information gives it back.
pub proof fn lemma_device_mfg_info_roundtrip(f: DeviceMfgInfoFields)
    requires
        device_mfg_info_encodable(f),
    ensures
        device_mfg_info_of(device_mfg_info_encoding(f)) == Some(f),
{
    broadcast use vstd::utf8::encode_utf8_valid_utf8, vstd::utf8::encode_utf8_decode_utf8;

    let top: nat = (MAX_NESTING - 1) as nat;
    reveal_with_fuel(pow256, 9);
    lemma_scalars_are_items(f.0.spec_code() as int, f.4, f.2, top);
    lemma_scalars_are_items(f.1.spec_code() as int, f.4, f.3, top);
    lemma_public_key_type_code_roundtrip(f.0, 0);
    lemma_public_key_encoding_code_roundtrip(f.1, 0);
    let parts = seq![
        cbor_int(f.0.spec_code() as int),
        cbor_int(f.1.spec_code() as int),
        cbor_text(f.2),
        cbor_text(f.3),
        cbor_bytes(f.4),
    ];
    assert forall|i: int| 0 <= i < parts.len() implies is_item_at(#[trigger] parts[i], top) by {}
    lemma_array_elements_of(parts);
}

impl DeviceMfgInfo {
    /// Manufacturing information from its parts.
    pub fn new(
        key_type: PublicKeyType,
        key_encoding: PublicKeyEncoding,
        serial_number: String,
        device_info: String,
        cert_info: Vec<u8>,
    ) -> (r: DeviceMfgInfo)
        ensures
            device_mfg_info_view(r) == (key_type, key_encoding, serial_number@, device_info@, cert_info@),
    {
        DeviceMfgInfo { key_type, key_encoding, serial_number, device_info, cert_info }
    }

    /// The information's CBOR encoding.
    pub fn to_cbor(&self) -> (r: Vec<u8>)
        ensures
            r@ == device_mfg_info_encoding(device_mfg_info_view(*self)),
            device_mfg_info_of(r@) == Some(device_mfg_info_view(*self)),
    {
        proof {
            reveal_with_fuel(pow256, 9);
            assert(pow256(8) == 0x1_0000_0000_0000_0000);
        }
        let ghost f = device_mfg_info_view(*self);
        let ghost parts = seq![
            cbor_int(f.0.spec_code() as int),
            cbor_int(f.1.spec_code() as int),
            cbor_text(f.2),
            cbor_text(f.3),
            cbor_bytes(f.4),
        ];
        let n1 = self.serial_number.as_str().as_bytes().len();
        let n2 = self.device_info.as_str().as_bytes().len();
        let n3 = self.cert_info.len();
        let mut buf: Vec<u8> = Vec::new();
        write_head(&mut buf, 4, 5);
        proof {
            assert(parts.subrange(0, 0) =~= Seq::<Seq<u8>>::empty());
        }
        write_head(&mut buf, 0, self.key_type.code() as u64);
        proof {
            lemma_concat_push(parts.subrange(0, 0), parts[0]);
            assert(parts.subrange(0, 1) =~= parts.subrange(0, 0).push(parts[0]));
        }
        write_head(&mut buf, 0, self.key_encoding.code() as u64);
        proof {
            lemma_concat_push(parts.subrange(0, 1), parts[1]);
            assert(parts.subrange(0, 2) =~= parts.subrange(0, 1).push(parts[1]));
        }
        write_text(&mut buf, self.serial_number.as_str());
        proof {
            lemma_concat_push(parts.subrange(0, 2), parts[2]);
            assert(parts.subrange(0, 3) =~= parts.subrange(0, 2).push(parts[2]));
        }
        write_text(&mut buf, self.device_info.as_str());
        proof {
            lemma_concat_push(parts.subrange(0, 3), parts[3]);
            assert(parts.subrange(0, 4) =~= parts.subrange(0, 3).push(parts[3]));
        }
        write_bytes(&mut buf, self.cert_info.as_slice());
        proof {
            lemma_concat_push(parts.subrange(0, 4), parts[4]);
            assert(parts.subrange(0, 5) =~= parts.subrange(0, 4).push(parts[4]));
            assert(parts.subrange(0, 5) =~= parts);
            assert(buf@ =~= device_mfg_info_encoding(f));
            lemma_device_mfg_info_roundtrip(f);
        }
        buf
    }

    /// Read manufacturing information from its CBOR encoding.
    pub fn from_cbor(e: &[u8]) -> (r: Result<DeviceMfgInfo, Error>)
        ensures
            r is Ok <==> device_mfg_info_of(e@) is Some,
            r matches Ok(m) ==> device_mfg_info_of(e@) == Some(device_mfg_info_view(m)),
    {
        let p = match split_array(e) {
            Some(p) => p,
            None => {
                return Err(Error::new("DeviceMfgInfo is not a CBOR array"));
            },
        };
        if p.len() != 5 {
            return Err(Error::new("DeviceMfgInfo must have 5 elements"));
        }
        proof {
            let v = parts_view(p@);
            assert(v[0] == p@[0]@);
            assert(v[1] == p@[1]@);
            assert(v[2] == p@[2]@);
            assert(v[3] == p@[3]@);
            assert(v[4] == p@[4]@);
        }
        let kt = read_uint(p[0].as_slice());
        let ke = read_uint(p[1].as_slice());
        let sn = read_text(p[2].as_slice());
        let di = read_text(p[3].as_slice());
        let csr = read_bytes(p[4].as_slice());
        match (kt, ke, sn, di, csr) {
            (Some(kt), Some(ke), Some(sn), Some(di), Some(csr)) => {
                if kt >= 256 || ke >= 256 {
                    return Err(Error::new("Unknown key type or encoding"));
                }
                match (PublicKeyType::from_code(kt as u8), PublicKeyEncoding::from_code(ke as u8)) {
                    (Some(t), Some(k)) => Ok(
                        DeviceMfgInfo {
                            key_type: t,
                            key_encoding: k,
                            serial_number: sn,
                            device_info: di,
                            cert_info: csr,
                        },
                    ),
                    _ => Err(Error::new("Unknown key type or encoding")),
                }
            },
            _ => Err(Error::new("Invalid DeviceMfgInfo field")),
        }
    }
}

impl crate::ownershipvoucher::Serializable for DeviceMfgInfo {
    fn deserialize_data(data: &[u8]) -> (r: Result<DeviceMfgInfo, Error>)
        ensures
            r is Ok <==> device_mfg_info_of(data@) is Some,
            r matches Ok(m) ==> device_mfg_info_of(data@) == Some(device_mfg_info_view(m)),
    {
        DeviceMfgInfo::from_cbor(data)
    }

    fn serialize_data(&self) -> (r: Result<Vec<u8>, Error>)
        ensures
            r matches Ok(b) && b@ == device_mfg_info_encoding(device_mfg_info_view(*self)),
    {
        Ok(self.to_cbor())
    }
}

} // verus!
