//! Ownership vouchers: the header the manufacturer issues for a device and
//! the chain of entries that transfers ownership.

use vstd::prelude::*;

use crate::cbor_scan::{
    array_elements, bytes_of, int_of, is_null_item, parts_view, read_bytes, read_int, read_null,
    read_text, split_array, text_bytes_of, uint_of, read_uint,
};
use crate::cbor::{cbor_bytes, cbor_int, cbor_text};
use crate::cbor_write::{
    cbor_array, cbor_null, concat_all, is_item_at, lemma_array_elements_of, lemma_array_is_item,
    lemma_bytes_item, lemma_concat_push, lemma_elements_make_item, lemma_item_deeper,
    lemma_scalars_are_items, write_bytes, write_head, write_int, write_null, write_text,
};
use crate::constants::{HashType, ProtocolVersion};
use crate::csr::pow256;
use crate::cose::{
    cose_sign1_parts_of, cose_signature_checks, es_params, make_sign1, openssl_ecdsa_sign,
    openssl_private_spki, private_key_spki, public_key_spki_of, read_spki, verify_cose_sign1,
};
use crate::cose_aad::{protected_header, serialize_protected_header, sig1_structure_bytes};
use crate::types::{COSESign, Guid, HMac, RendezvousDirective, RendezvousInfo};
use crate::Error;

verus! {

// ------------------------------------------------------------------
// Whitespace trimming (std's `str::trim`)
// ------------------------------------------------------------------

/// The Unicode White_Space property, which std's `char::is_whitespace`
/// and `str::trim` use.
pub open spec fn is_unicode_white_space(c: char) -> bool {
    let u = c as u32;
    ||| 0x09 <= u <= 0x0d
    ||| u == 0x20
    ||| u == 0x85
    ||| u == 0xa0
    ||| u == 0x1680
    ||| 0x2000 <= u <= 0x200a
    ||| u == 0x2028
    ||| u == 0x2029
    ||| u == 0x202f
    ||| u == 0x205f
    ||| u == 0x3000
}

/// `t` is `s` with its leading and trailing whitespace removed.
pub open spec fn is_trim_of(t: Seq<char>, s: Seq<char>) -> bool {
    exists|i: int, j: int|
        {
            &&& 0 <= i <= j <= s.len()
            &&& t == s.subrange(i, j)
            &&& forall|k: int| 0 <= k < i ==> is_unicode_white_space(#[trigger] s[k])
            &&& forall|k: int| j <= k < s.len() ==> is_unicode_white_space(#[trigger] s[k])
            &&& t.len() > 0 ==> !is_unicode_white_space(t[0]) && !is_unicode_white_space(
                t[t.len() - 1],
            )
        }
}

/// std's `str::trim`, documented as removing leading and trailing
/// characters with the Unicode White_Space property: the contract states
/// exactly that.
#[verifier::external_body]
pub(crate) fn str_trim(s: &str) -> (r: &str)
    ensures
        is_trim_of(r@, s@),
{
    s.trim()
}

/// A text has one trimmed form.
pub proof fn lemma_trim_is_unique(a: Seq<char>, b: Seq<char>, s: Seq<char>)
    requires
        is_trim_of(a, s),
        is_trim_of(b, s),
    ensures
        a == b,
{
    let (i, j) = choose|i: int, j: int|
        {
            &&& 0 <= i <= j <= s.len()
            &&& a == s.subrange(i, j)
            &&& forall|k: int| 0 <= k < i ==> is_unicode_white_space(#[trigger] s[k])
            &&& forall|k: int| j <= k < s.len() ==> is_unicode_white_space(#[trigger] s[k])
            &&& a.len() > 0 ==> !is_unicode_white_space(a[0]) && !is_unicode_white_space(
                a[a.len() - 1],
            )
        };
    let (i2, j2) = choose|i: int, j: int|
        {
            &&& 0 <= i <= j <= s.len()
            &&& b == s.subrange(i, j)
            &&& forall|k: int| 0 <= k < i ==> is_unicode_white_space(#[trigger] s[k])
            &&& forall|k: int| j <= k < s.len() ==> is_unicode_white_space(#[trigger] s[k])
            &&& b.len() > 0 ==> !is_unicode_white_space(b[0]) && !is_unicode_white_space(
                b[b.len() - 1],
            )
        };
    if a.len() == 0 {
        if b.len() > 0 {
            assert(b[0] == s[i2]);
            if i2 < i {
            } else {
                assert(s[i2] == s[i2]);
            }
            assert(!is_unicode_white_space(s[i2]));
            assert(i2 < i || i2 >= j);
        }
    } else if b.len() == 0 {
        assert(a[0] == s[i]);
        assert(!is_unicode_white_space(s[i]));
        assert(i < i2 || i >= j2);
    } else {
        assert(a[0] == s[i]);
        assert(b[0] == s[i2]);
        assert(a[a.len() - 1] == s[j - 1]);
        assert(b[b.len() - 1] == s[j2 - 1]);
        if i < i2 {
            assert(is_unicode_white_space(s[i]));
        }
        if i2 < i {
            assert(is_unicode_white_space(s[i2]));
        }
        if j < j2 {
            assert(is_unicode_white_space(s[j2 - 1]));
        }
        if j2 < j {
            assert(is_unicode_white_space(s[j - 1]));
        }
        assert(i == i2 && j == j2);
    }
}

// ------------------------------------------------------------------
// Hashing (OpenSSL digests)
// ------------------------------------------------------------------

/// What OpenSSL gives as the digest of `data` with the algorithm of
/// `hash_type` (SHA-256 or SHA-384): nothing when it reports an error.
pub uninterp spec fn openssl_digest(hash_type: HashType, data: Seq<u8>) -> Option<Seq<u8>>;

/// `openssl::hash::hash` with SHA-256 or SHA-384. Its outcome, digest or
/// error, is named, not stated; it depends on the arguments alone. A
/// digest has the algorithm's length.
#[verifier::external_body]
fn openssl_hash(hash_type: HashType, data: &[u8]) -> (r: Option<Vec<u8>>)
    requires
        hash_type == HashType::Sha256 || hash_type == HashType::Sha384,
    ensures
        opt_bytes_view(r) == openssl_digest(hash_type, data@),
        r matches Some(d) ==> d@.len() == hash_type.spec_digest_size(),
{
    let md = match hash_type {
        HashType::Sha384 => openssl::hash::MessageDigest::sha384(),
        _ => openssl::hash::MessageDigest::sha256(),
    };
    openssl::hash::hash(md, data).ok().map(|d| d.to_vec())
}

/// The digest of `data` with `hash_type`: the OpenSSL digest for a plain
/// hash type, nothing for an HMAC type.
pub open spec fn digest_result(hash_type: HashType, data: Seq<u8>) -> Option<Seq<u8>> {
    if hash_type == HashType::Sha256 || hash_type == HashType::Sha384 {
        openssl_digest(hash_type, data)
    } else {
        None
    }
}

/// A hash result is the digest `digest_result` gives, under its type, and
/// of that type's length.
pub open spec fn hash_result_is(r: Result<crate::types::Hash, Error>, hash_type: HashType, data: Seq<u8>) -> bool {
    &&& r is Ok <==> digest_result(hash_type, data) is Some
    &&& r matches Ok(h) ==> h.hash_type == hash_type && digest_result(hash_type, data) == Some(h.value@)
        && h.value@.len() == hash_type.spec_digest_size()
}

/// Hashing the same bytes with the same type twice gives the same result:
/// both fail, or both give equal digests of the type's length. (It holds of
/// `Hash::from_data`, `manufacturer_public_key_hash`, `hdr_hash` and the
/// certificate chain hash, whose results `hash_result_is` describes.)
pub proof fn lemma_hash_results_agree(
    r1: Result<crate::types::Hash, Error>,
    r2: Result<crate::types::Hash, Error>,
    hash_type: HashType,
    data: Seq<u8>,
)
    requires
        hash_result_is(r1, hash_type, data),
        hash_result_is(r2, hash_type, data),
    ensures
        r1 is Ok <==> r2 is Ok,
        r1 is Ok ==> r1.unwrap().hash_type == r2.unwrap().hash_type && r1.unwrap().value@ == r2.unwrap().value@
            && r1.unwrap().value@.len() == hash_type.spec_digest_size(),
{
}

impl crate::types::Hash {
    /// The hash of `data` with the algorithm `hash_type`. Only plain hash
    /// algorithms can digest data; an HMAC type is refused.
    pub fn from_data(hash_type: HashType, data: &[u8]) -> (r: Result<crate::types::Hash, Error>)
        ensures
            hash_result_is(r, hash_type, data@),
    {
        match hash_type {
            HashType::Sha256 | HashType::Sha384 => match openssl_hash(hash_type, data) {
                Some(d) => Ok(crate::types::Hash { hash_type, value: d }),
                None => Err(Error::new("Error computing digest")),
            },
            _ => Err(Error::new("Unsupported hash type for digest")),
        }
    }
}


// ------------------------------------------------------------------
// Copies of byte-holding values
// ------------------------------------------------------------------

/// A copy of a byte vector.
pub fn copy_bytes(v: &Vec<u8>) -> (r: Vec<u8>)
    ensures
        r@ == v@,
{
    let r = v.clone();
    assert(r@ =~= v@);
    r
}

// ------------------------------------------------------------------
// Public keys
// ------------------------------------------------------------------

/// A public key, kept in its CBOR encoding (`[type, encoding, body]`),
/// which is what the voucher hashes.
#[derive(Clone, Debug)]
pub struct PublicKey {
    pub encoded: Vec<u8>,
}

// ------------------------------------------------------------------
// Ownership voucher header
// ------------------------------------------------------------------

/// The header of an ownership voucher, issued at device initialization.
#[derive(Clone, Debug)]
pub struct OwnershipVoucherHeader {
    pub protocol_version: ProtocolVersion,
    pub guid: Guid,
    pub rendezvous_info: RendezvousInfo,
    pub device_info: String,
    pub manufacturer_public_key: PublicKey,
    pub device_certificate_chain_hash: Option<crate::types::Hash>,
}

impl OwnershipVoucherHeader {
    /// A header with the given contents; the device info is stored with
    /// its leading and trailing whitespace removed.
    pub fn new(
        protocol_version: ProtocolVersion,
        guid: Guid,
        rendezvous_info: RendezvousInfo,
        device_info: String,
        manufacturer_public_key: PublicKey,
        device_certificate_chain_hash: Option<crate::types::Hash>,
    ) -> (r: Result<OwnershipVoucherHeader, Error>)
        ensures
            r matches Ok(h) && {
                &&& h.protocol_version == protocol_version
                &&& h.guid == guid
                &&& h.rendezvous_info == rendezvous_info
                &&& is_trim_of(h.device_info@, device_info@)
                &&& h.manufacturer_public_key == manufacturer_public_key
                &&& h.device_certificate_chain_hash == device_certificate_chain_hash
            },
    {
        let device_info = String::from_str(str_trim(device_info.as_str()));
        Ok(OwnershipVoucherHeader {
            protocol_version,
            guid,
            rendezvous_info,
            device_info,
            manufacturer_public_key,
            device_certificate_chain_hash,
        })
    }

    /// The protocol version the header was issued for.
    pub fn protocol_version(&self) -> (r: ProtocolVersion)
        ensures
            r == self.protocol_version,
    {
        self.protocol_version
    }

    /// The device GUID.
    pub fn guid(&self) -> (r: &Guid)
        ensures
            *r == self.guid,
    {
        &self.guid
    }

    /// Where the device finds its rendezvous servers.
    pub fn rendezvous_info(&self) -> (r: &RendezvousInfo)
        ensures
            *r == self.rendezvous_info,
    {
        &self.rendezvous_info
    }

    /// The device info text.
    pub fn device_info(&self) -> (r: &str)
        ensures
            r@ == self.device_info@,
    {
        self.device_info.as_str()
    }

    /// The manufacturer's public key.
    pub fn manufacturer_public_key(&self) -> (r: &PublicKey)
        ensures
            *r == self.manufacturer_public_key,
    {
        &self.manufacturer_public_key
    }

    /// The hash of the manufacturer's public key, in its encoded form.
    pub fn manufacturer_public_key_hash(&self, hash_type: HashType) -> (r: Result<
        crate::types::Hash,
        Error,
    >)
        ensures
            hash_result_is(r, hash_type, self.manufacturer_public_key.encoded@),
    {
        crate::types::Hash::from_data(hash_type, self.manufacturer_public_key.encoded.as_slice())
    }

    /// The hash of the device certificate chain, if the header has one.
    pub fn device_certificate_chain_hash(&self) -> (r: Option<&crate::types::Hash>)
        ensures
            r is None <==> self.device_certificate_chain_hash is None,
            r matches Some(h) ==> self.device_certificate_chain_hash == Some(*h),
    {
        self.device_certificate_chain_hash.as_ref()
    }
}

// ------------------------------------------------------------------
// Ownership voucher entries
// ------------------------------------------------------------------

/// One entry of an ownership voucher: a signed COSE_Sign1 structure.
#[derive(Clone, Debug)]
pub struct OwnershipVoucherEntry(pub COSESign);

impl OwnershipVoucherEntry {
    /// An entry holding the signed structure `sign`.
    pub fn new(sign: COSESign) -> (r: OwnershipVoucherEntry)
        ensures
            r.0 == sign,
    {
        OwnershipVoucherEntry(sign)
    }

    /// The signed structure.
    pub fn as_cose(&self) -> (r: &COSESign)
        ensures
            *r == self.0,
    {
        &self.0
    }
}

// ------------------------------------------------------------------
// Device info check
// ------------------------------------------------------------------

/// A device info character is acceptable when its low byte is printable
/// ASCII (32 up to, not including, 127).
pub open spec fn device_info_char_ok(c: char) -> bool {
    32 <= (c as u8) && (c as u8) < 127
}

pub open spec fn device_info_ok(s: Seq<char>) -> bool {
    forall|i: int| 0 <= i < s.len() ==> device_info_char_ok(#[trigger] s[i])
}

/// Accept a device info string whose characters all have a printable ASCII
/// low byte.
pub fn check_device_info(device_info: &str) -> (r: Result<(), Error>)
    ensures
        r is Ok <==> device_info_ok(device_info@),
{
    broadcast use vstd::string::axiom_spec_iter;

    let mut ok = true;
    for c in it: device_info.chars()
        invariant
            it.seq() == device_info@,
            ok <==> forall|i: int| 0 <= i < it.index() ==> device_info_char_ok(#[trigger] it.seq()[i]),
    {
        let b = c as u8;
        if !(32 <= b && b < 127) {
            ok = false;
        }
    }
    if ok {
        Ok(())
    } else {
        Err(Error::new("Invalid values in Device Info"))
    }
}


// ------------------------------------------------------------------
// Reading vouchers from their CBOR encoding
// ------------------------------------------------------------------

/// The hash type and value of the `[type, bytes]` item `e` encodes (a
/// hash or an HMAC).
pub open spec fn hash_pair_of(e: Seq<u8>) -> Option<(HashType, Seq<u8>)> {
    match array_elements(e) {
        Some(p) => if p.len() == 2 {
            match (int_of(p[0]), bytes_of(p[1])) {
                (Some(t), Some(v)) => if -128 <= t <= 127 {
                    match HashType::spec_from_code(t as i8) {
                        Some(ht) => Some((ht, v)),
                        None => None,
                    }
                } else {
                    None
                },
                _ => None,
            }
        } else {
            None
        },
        None => None,
    }
}

pub(crate) fn read_hash_pair(e: &[u8]) -> (r: Option<(HashType, Vec<u8>)>)
    ensures
        r is None <==> hash_pair_of(e@) is None,
        r matches Some((t, v)) ==> hash_pair_of(e@) == Some((t, v@)),
{
    let parts = match split_array(e) {
        Some(p) => p,
        None => {
            return None;
        },
    };
    if parts.len() != 2 {
        return None;
    }
    proof {
        assert(parts_view(parts@)[0] == parts@[0]@);
        assert(parts_view(parts@)[1] == parts@[1]@);
    }
    let t = match read_int(parts[0].as_slice()) {
        Some(t) => t,
        None => {
            return None;
        },
    };
    let v = match read_bytes(parts[1].as_slice()) {
        Some(v) => v,
        None => {
            return None;
        },
    };
    if t < -128 || t > 127 {
        return None;
    }
    match HashType::from_code(t as i8) {
        Some(ht) => Some((ht, v)),
        None => None,
    }
}

/// The variable and value of the rendezvous instruction `[variable,
/// value]` that `e` encodes.
pub open spec fn rv_instr_of(e: Seq<u8>) -> Option<(u8, Seq<u8>)> {
    match array_elements(e) {
        Some(p) => if p.len() == 2 {
            match (uint_of(p[0]), bytes_of(p[1])) {
                (Some(k), Some(v)) => if k < 256 {
                    Some((k as u8, v))
                } else {
                    None
                },
                _ => None,
            }
        } else {
            None
        },
        None => None,
    }
}

/// The instructions of a directive, from their encodings.
pub open spec fn rv_instrs_of(items: Seq<Seq<u8>>) -> Option<Seq<(u8, Seq<u8>)>>
    decreases items.len(),
{
    if items.len() == 0 {
        Some(Seq::empty())
    } else {
        match (rv_instrs_of(items.drop_last()), rv_instr_of(items.last())) {
            (Some(a), Some(b)) => Some(a.push(b)),
            _ => None,
        }
    }
}

/// The directives of rendezvous information, from their encodings.
pub open spec fn rv_directives_of(items: Seq<Seq<u8>>) -> Option<Seq<Seq<(u8, Seq<u8>)>>>
    decreases items.len(),
{
    if items.len() == 0 {
        Some(Seq::empty())
    } else {
        match (rv_directives_of(items.drop_last()), array_elements(items.last())) {
            (Some(a), Some(instrs)) => match rv_instrs_of(instrs) {
                Some(b) => Some(a.push(b)),
                None => None,
            },
            _ => None,
        }
    }
}

/// The rendezvous information `e` encodes: an array of directives, each an
/// array of instructions.
pub open spec fn rv_info_of(e: Seq<u8>) -> Option<Seq<Seq<(u8, Seq<u8>)>>> {
    match array_elements(e) {
        Some(dirs) => rv_directives_of(dirs),
        None => None,
    }
}

/// A directive as variable/value pairs.
pub open spec fn directive_view(d: Seq<RendezvousDirective>) -> Seq<(u8, Seq<u8>)> {
    d.map_values(|x: RendezvousDirective| (x.key, x.value@))
}

/// Rendezvous information as lists of variable/value pairs.
pub open spec fn rv_view(r: RendezvousInfo) -> Seq<Seq<(u8, Seq<u8>)>> {
    rv_seq_view(r.0@)
}

pub open spec fn rv_seq_view(s: Seq<Vec<RendezvousDirective>>) -> Seq<Seq<(u8, Seq<u8>)>> {
    s.map_values(|d: Vec<RendezvousDirective>| directive_view(d@))
}

fn read_rv_instr(e: &[u8]) -> (r: Option<RendezvousDirective>)
    ensures
        r is None <==> rv_instr_of(e@) is None,
        r matches Some(x) ==> rv_instr_of(e@) == Some((x.key, x.value@)),
{
    let parts = match split_array(e) {
        Some(p) => p,
        None => {
            return None;
        },
    };
    if parts.len() != 2 {
        return None;
    }
    proof {
        assert(parts_view(parts@)[0] == parts@[0]@);
        assert(parts_view(parts@)[1] == parts@[1]@);
    }
    let k = match read_uint(parts[0].as_slice()) {
        Some(k) => k,
        None => {
            return None;
        },
    };
    let v = match read_bytes(parts[1].as_slice()) {
        Some(v) => v,
        None => {
            return None;
        },
    };
    if k >= 256 {
        return None;
    }
    Some(RendezvousDirective { key: k as u8, value: v })
}

fn read_rv_directive(e: &[u8]) -> (r: Option<Vec<RendezvousDirective>>)
    ensures
        r is None <==> (array_elements(e@) matches Some(items) ==> rv_instrs_of(items) is None),
        r matches Some(d) ==> (array_elements(e@) matches Some(items) && rv_instrs_of(items) == Some(
            directive_view(d@),
        )),
{
    let items = match split_array(e) {
        Some(p) => p,
        None => {
            return None;
        },
    };
    let ghost iv = parts_view(items@);
    let mut out: Vec<RendezvousDirective> = Vec::new();
    let mut i: usize = 0;
    while i < items.len()
        invariant
            i <= items@.len(),
            iv == parts_view(items@),
            array_elements(e@) == Some(iv),
            rv_instrs_of(iv.subrange(0, i as int)) == Some(directive_view(out@)),
        decreases items@.len() - i,
    {
        proof {
            let s = iv.subrange(0, i as int + 1);
            assert(s.drop_last() =~= iv.subrange(0, i as int));
            assert(s.last() == items@[i as int]@);
        }
        let x = match read_rv_instr(items[i].as_slice()) {
            Some(x) => x,
            None => {
                proof {
                    assert(iv.subrange(0, i as int + 1).len() > 0);
                    lemma_rv_instrs_prefix_none(iv, i as int + 1);
                }
                return None;
            },
        };
        let ghost before = out@;
        out.push(x);
        proof {
            assert(directive_view(out@) =~= directive_view(before).push((x.key, x.value@)));
        }
        i = i + 1;
    }
    proof {
        assert(iv.subrange(0, items@.len() as int) =~= iv);
    }
    Some(out)
}

proof fn lemma_rv_instrs_prefix_none(items: Seq<Seq<u8>>, k: int)
    requires
        0 <= k <= items.len(),
        rv_instrs_of(items.subrange(0, k)) is None,
    ensures
        rv_instrs_of(items) is None,
    decreases items.len() - k,
{
    if k < items.len() {
        let s = items.subrange(0, k + 1);
        assert(s.drop_last() =~= items.subrange(0, k));
        lemma_rv_instrs_prefix_none(items, k + 1);
    } else {
        assert(items.subrange(0, k) =~= items);
    }
}

proof fn lemma_rv_directives_prefix_none(items: Seq<Seq<u8>>, k: int)
    requires
        0 <= k <= items.len(),
        rv_directives_of(items.subrange(0, k)) is None,
    ensures
        rv_directives_of(items) is None,
    decreases items.len() - k,
{
    if k < items.len() {
        let s = items.subrange(0, k + 1);
        assert(s.drop_last() =~= items.subrange(0, k));
        lemma_rv_directives_prefix_none(items, k + 1);
    } else {
        assert(items.subrange(0, k) =~= items);
    }
}

pub(crate) fn read_rv_info(e: &[u8]) -> (r: Option<RendezvousInfo>)
    ensures
        r is None <==> rv_info_of(e@) is None,
        r matches Some(x) ==> rv_info_of(e@) == Some(rv_view(x)),
{
    let items = match split_array(e) {
        Some(p) => p,
        None => {
            return None;
        },
    };
    let ghost iv = parts_view(items@);
    let mut out: Vec<Vec<RendezvousDirective>> = Vec::new();
    let mut i: usize = 0;
    while i < items.len()
        invariant
            i <= items@.len(),
            iv == parts_view(items@),
            array_elements(e@) == Some(iv),
            rv_directives_of(iv.subrange(0, i as int)) == Some(rv_seq_view(out@)),
        decreases items@.len() - i,
    {
        proof {
            let s = iv.subrange(0, i as int + 1);
            assert(s.drop_last() =~= iv.subrange(0, i as int));
            assert(s.last() == items@[i as int]@);
        }
        let d = match read_rv_directive(items[i].as_slice()) {
            Some(d) => d,
            None => {
                proof {
                    lemma_rv_directives_prefix_none(iv, i as int + 1);
                }
                return None;
            },
        };
        let ghost before = out@;
        out.push(d);
        proof {
            assert(rv_seq_view(out@) =~= rv_seq_view(before).push(directive_view(d@)));
        }
        i = i + 1;
    }
    proof {
        assert(iv.subrange(0, items@.len() as int) =~= iv);
    }
    Some(RendezvousInfo(out))
}


/// The fields of an ownership voucher header, as plain values: protocol
/// version, GUID bytes, rendezvous information, device info, the
/// manufacturer key's encoding and the device certificate chain hash.
pub type HeaderFields = (
    ProtocolVersion,
    Seq<u8>,
    Seq<Seq<(u8, Seq<u8>)>>,
    Seq<char>,
    Seq<u8>,
    Option<(HashType, Seq<u8>)>,
);

/// The protocol version an unsigned integer item encodes.
pub open spec fn version_of(e: Seq<u8>) -> Option<ProtocolVersion> {
    match uint_of(e) {
        Some(v) => if v < 0x1_0000 {
            ProtocolVersion::spec_from_code(v as u16)
        } else {
            None
        },
        None => None,
    }
}

/// The fields of the header `h` encodes: the array
/// `[version, guid, rendezvous info, device info, manufacturer key,
/// certificate chain hash or null]`, the GUID 16 bytes, the device info
/// valid UTF-8 made of acceptable characters.
pub open spec fn header_fields_of(h: Seq<u8>) -> Option<HeaderFields> {
    match array_elements(h) {
        Some(p) => if p.len() == 6 {
            match (version_of(p[0]), bytes_of(p[1]), rv_info_of(p[2]), text_bytes_of(p[3])) {
                (Some(pv), Some(g), Some(rv), Some(tb)) => if g.len() == 16 && vstd::utf8::valid_utf8(
                    tb,
                ) && device_info_ok(vstd::utf8::decode_utf8(tb)) {
                    if is_null_item(p[5]) {
                        Some((pv, g, rv, vstd::utf8::decode_utf8(tb), p[4], None))
                    } else {
                        match hash_pair_of(p[5]) {
                            Some(hp) => Some((pv, g, rv, vstd::utf8::decode_utf8(tb), p[4], Some(hp))),
                            None => None,
                        }
                    }
                } else {
                    None
                },
                _ => None,
            }
        } else {
            None
        },
        None => None,
    }
}

pub open spec fn opt_hash_view(h: Option<crate::types::Hash>) -> Option<(HashType, Seq<u8>)> {
    match h {
        Some(x) => Some((x.hash_type, x.value@)),
        None => None,
    }
}

/// A header's fields as plain values.
pub open spec fn header_view(h: OwnershipVoucherHeader) -> HeaderFields {
    (
        h.protocol_version,
        h.guid.0@,
        rv_view(h.rendezvous_info),
        h.device_info@,
        h.manufacturer_public_key.encoded@,
        opt_hash_view(h.device_certificate_chain_hash),
    )
}

fn read_version(e: &[u8]) -> (r: Option<ProtocolVersion>)
    ensures
        r == version_of(e@),
{
    match read_uint(e) {
        Some(v) => if v < 0x1_0000 {
            ProtocolVersion::from_code(v as u16)
        } else {
            None
        },
        None => None,
    }
}

impl OwnershipVoucherHeader {
    /// Read a header from its CBOR encoding.
    pub fn from_cbor(h: &[u8]) -> (r: Result<OwnershipVoucherHeader, Error>)
        ensures
            r is Ok <==> header_fields_of(h@) is Some,
            r matches Ok(hdr) ==> header_fields_of(h@) == Some(header_view(hdr)),
    {
        let p = match split_array(h) {
            Some(p) => p,
            None => {
                return Err(Error::new("Ownership voucher header is not a CBOR array"));
            },
        };
        if p.len() != 6 {
            return Err(Error::new("Ownership voucher header must have 6 elements"));
        }
        proof {
            let v = parts_view(p@);
            assert(v[0] == p@[0]@);
            assert(v[1] == p@[1]@);
            assert(v[2] == p@[2]@);
            assert(v[3] == p@[3]@);
            assert(v[4] == p@[4]@);
            assert(v[5] == p@[5]@);
        }
        let pv = match read_version(p[0].as_slice()) {
            Some(v) => v,
            None => {
                return Err(Error::new("Invalid protocol version in voucher header"));
            },
        };
        let g = match read_bytes(p[1].as_slice()) {
            Some(g) => g,
            None => {
                return Err(Error::new("Invalid GUID in voucher header"));
            },
        };
        let rv = match read_rv_info(p[2].as_slice()) {
            Some(rv) => rv,
            None => {
                return Err(Error::new("Invalid rendezvous info in voucher header"));
            },
        };
        let device_info = match read_text(p[3].as_slice()) {
            Some(t) => t,
            None => {
                return Err(Error::new("Invalid device info in voucher header"));
            },
        };
        if check_device_info(device_info.as_str()).is_err() {
            return Err(Error::new("Invalid values in Device Info"));
        }
        let guid = match Guid::from_slice(g.as_slice()) {
            Ok(guid) => guid,
            Err(e) => {
                return Err(e);
            },
        };
        let chain_hash = if read_null(p[5].as_slice()) {
            None
        } else {
            match read_hash_pair(p[5].as_slice()) {
                Some((t, v)) => Some(crate::types::Hash { hash_type: t, value: v }),
                None => {
                    return Err(Error::new("Invalid certificate chain hash in voucher header"));
                },
            }
        };
        let key = PublicKey { encoded: copy_bytes(&p[4]) };
        Ok(OwnershipVoucherHeader {
            protocol_version: pv,
            guid,
            rendezvous_info: rv,
            device_info,
            manufacturer_public_key: key,
            device_certificate_chain_hash: chain_hash,
        })
    }
}


// ------------------------------------------------------------------
// The voucher
// ------------------------------------------------------------------

/// Every item of `items` encodes a byte string.
pub open spec fn all_byte_strings(items: Seq<Seq<u8>>) -> bool {
    forall|i: int| 0 <= i < items.len() ==> (#[trigger] bytes_of(items[i])) is Some
}

/// `e` encodes a certificate chain: an array of byte strings (DER
/// certificates).
pub open spec fn is_cert_chain(e: Seq<u8>) -> bool {
    array_elements(e) matches Some(certs) && all_byte_strings(certs)
}

fn check_cert_chain(e: &[u8]) -> (r: bool)
    ensures
        r == is_cert_chain(e@),
{
    let certs = match split_array(e) {
        Some(c) => c,
        None => {
            return false;
        },
    };
    let ghost cv = parts_view(certs@);
    let mut i: usize = 0;
    while i < certs.len()
        invariant
            i <= certs@.len(),
            cv == parts_view(certs@),
            array_elements(e@) == Some(cv),
            forall|j: int| 0 <= j < i ==> (#[trigger] bytes_of(cv[j])) is Some,
        decreases certs@.len() - i,
    {
        if read_bytes(certs[i].as_slice()).is_none() {
            assert(bytes_of(cv[i as int]) is None);
            return false;
        }
        i = i + 1;
    }
    true
}

/// The fields of a voucher, as plain values: protocol version, header
/// bytes, header HMAC, the HMAC's encoding, the certificate chain's
/// encoding (if any) and the encodings of the entries.
pub type VoucherFields = (
    ProtocolVersion,
    Seq<u8>,
    (HashType, Seq<u8>),
    Seq<u8>,
    Option<Seq<u8>>,
    Seq<Seq<u8>>,
);

/// The fields of the voucher `d` encodes: the array `[version, header
/// bytes, header HMAC, certificate chain or null, entries]` with a
/// well-formed header.
pub open spec fn voucher_fields_of(d: Seq<u8>) -> Option<VoucherFields> {
    match array_elements(d) {
        Some(p) => if p.len() == 5 {
            match (version_of(p[0]), bytes_of(p[1]), hash_pair_of(p[2]), array_elements(p[4])) {
                (Some(pv), Some(hb), Some(hm), Some(es)) => if header_fields_of(hb) is None {
                    None
                } else if is_null_item(p[3]) {
                    Some((pv, hb, hm, p[2], None, es))
                } else if is_cert_chain(p[3]) {
                    Some((pv, hb, hm, p[2], Some(p[3]), es))
                } else {
                    None
                },
                _ => None,
            }
        } else {
            None
        },
        None => None,
    }
}

/// An ownership voucher: the encoding it was read from, and its parts.
#[derive(Debug)]
pub struct OwnershipVoucher {
    pub raw: Vec<u8>,
    pub protocol_version: ProtocolVersion,
    pub header_raw: Vec<u8>,
    pub header: OwnershipVoucherHeader,
    pub header_hmac: HMac,
    pub header_hmac_raw: Vec<u8>,
    pub device_certificate_chain: Option<Vec<u8>>,
    pub entries: Vec<Vec<u8>>,
}

impl OwnershipVoucher {
    /// The voucher's fields as plain values.
    pub open spec fn fields(&self) -> VoucherFields {
        (
            self.protocol_version,
            self.header_raw@,
            (self.header_hmac.hash_type, self.header_hmac.value@),
            self.header_hmac_raw@,
            match self.device_certificate_chain {
                Some(c) => Some(c@),
                None => None,
            },
            parts_view(self.entries@),
        )
    }

    /// The voucher's parts are those of the encoding it holds.
    pub open spec fn wf(&self) -> bool {
        &&& voucher_fields_of(self.raw@) == Some(self.fields())
        &&& header_fields_of(self.header_raw@) == Some(header_view(self.header))
    }

    /// Read a voucher from its CBOR encoding. A four-element array is a
    /// voucher of protocol version 1.0, which is refused.
    pub fn from_cbor(data: &[u8]) -> (r: Result<OwnershipVoucher, Error>)
        ensures
            r is Ok <==> voucher_fields_of(data@) is Some,
            r matches Ok(ov) ==> ov.wf() && ov.raw@ == data@,
    {
        let p = match split_array(data) {
            Some(p) => p,
            None => {
                return Err(Error::new("Ownership voucher is not a CBOR array"));
            },
        };
        if p.len() == 4 {
            return Err(Error::new("Unsupported protocol version 1.0"));
        }
        if p.len() != 5 {
            return Err(Error::new("Ownership voucher must have 5 elements"));
        }
        proof {
            let v = parts_view(p@);
            assert(v[0] == p@[0]@);
            assert(v[1] == p@[1]@);
            assert(v[2] == p@[2]@);
            assert(v[3] == p@[3]@);
            assert(v[4] == p@[4]@);
        }
        let pv = match read_version(p[0].as_slice()) {
            Some(v) => v,
            None => {
                return Err(Error::new("Invalid protocol version in voucher"));
            },
        };
        let header_raw = match read_bytes(p[1].as_slice()) {
            Some(h) => h,
            None => {
                return Err(Error::new("Invalid header in voucher"));
            },
        };
        let (ht, hv) = match read_hash_pair(p[2].as_slice()) {
            Some(x) => x,
            None => {
                return Err(Error::new("Invalid header HMAC in voucher"));
            },
        };
        let entries = match split_array(p[4].as_slice()) {
            Some(es) => es,
            None => {
                return Err(Error::new("Invalid entries in voucher"));
            },
        };
        let header = OwnershipVoucherHeader::from_cbor(header_raw.as_slice())?;
        let chain = if read_null(p[3].as_slice()) {
            None
        } else if check_cert_chain(p[3].as_slice()) {
            Some(copy_bytes(&p[3]))
        } else {
            return Err(Error::new("Invalid device certificate chain in voucher"));
        };
        let ov = OwnershipVoucher {
            raw: vstd::slice::slice_to_vec(data),
            protocol_version: pv,
            header_raw,
            header,
            header_hmac: HMac { hash_type: ht, value: hv },
            header_hmac_raw: copy_bytes(&p[2]),
            device_certificate_chain: chain,
            entries,
        };
        Ok(ov)
    }
}


/// The data the hash of the entry before entry `i` covers: the header
/// bytes followed by the header HMAC's encoding for the first entry, the
/// previous entry's encoding for the others.
pub open spec fn prev_hash_input(ov: OwnershipVoucher, i: int) -> Seq<u8> {
    if i == 0 {
        ov.header_raw@ + ov.header_hmac_raw@
    } else {
        ov.entries@[i - 1]@
    }
}

/// The data the header-info hash covers: the GUID bytes followed by the
/// device info's UTF-8 bytes.
pub open spec fn hdr_info_input(ov: OwnershipVoucher) -> Seq<u8> {
    ov.header.guid.0@ + vstd::utf8::encode_utf8(ov.header.device_info@)
}

impl OwnershipVoucher {
    /// The voucher's encoding.
    pub fn to_cbor(&self) -> (r: Vec<u8>)
        ensures
            r@ == self.raw@,
    {
        copy_bytes(&self.raw)
    }

    /// The header HMAC.
    pub fn header_hmac(&self) -> (r: &HMac)
        ensures
            *r == self.header_hmac,
    {
        &self.header_hmac
    }

    /// The device certificate chain's encoding, if the voucher has one.
    pub fn device_certificate_chain(&self) -> (r: Option<&Vec<u8>>)
        ensures
            r is None <==> self.device_certificate_chain is None,
            r matches Some(c) ==> self.device_certificate_chain == Some(*c),
    {
        self.device_certificate_chain.as_ref()
    }

    /// The hash of the device certificate chain's encoding, if the voucher
    /// has one.
    pub fn device_certificate_chain_hash(&self, hash_type: HashType) -> (r: Option<Result<crate::types::Hash, Error>>)
        ensures
            r is None <==> self.device_certificate_chain is None,
            r matches Some(h) ==> (self.device_certificate_chain matches Some(c) && hash_result_is(h, hash_type, c@)),
    {
        match &self.device_certificate_chain {
            None => None,
            Some(c) => Some(crate::types::Hash::from_data(hash_type, c.as_slice())),
        }
    }

    /// The number of entries, as the protocol counts them (16 bits; the
    /// count wraps beyond that).
    pub fn num_entries(&self) -> (r: u16)
        ensures
            r == (self.entries@.len() as u16),
    {
        self.entries.len() as u16
    }

    /// Entry `entry_num`.
    pub fn entry(&self, entry_num: usize) -> (r: Result<OwnershipVoucherEntry, Error>)
        ensures
            r is Ok <==> entry_num < self.entries@.len(),
            r matches Ok(e) ==> e.0.0@ == self.entries@[entry_num as int]@,
    {
        if entry_num >= self.entries.len() {
            return Err(Error::new("Ownership voucher entry number out of range"));
        }
        Ok(OwnershipVoucherEntry(COSESign(copy_bytes(&self.entries[entry_num]))))
    }

    /// The header.
    pub fn header(&self) -> (r: &OwnershipVoucherHeader)
        ensures
            *r == self.header,
    {
        &self.header
    }

    /// The header's bytes.
    pub fn header_raw(&self) -> (r: Vec<u8>)
        ensures
            r@ == self.header_raw@,
    {
        copy_bytes(&self.header_raw)
    }

    /// The hash the first entry links to: the header bytes followed by the
    /// header HMAC's encoding.
    pub fn hdr_hash(&self, hash_type: HashType) -> (r: Result<crate::types::Hash, Error>)
        ensures
            hash_result_is(r, hash_type, prev_hash_input(*self, 0)),
    {
        let mut data = copy_bytes(&self.header_raw);
        crate::csr::append_bytes(&mut data, self.header_hmac_raw.as_slice());
        crate::types::Hash::from_data(hash_type, data.as_slice())
    }
}

/// An optional byte vector as optional bytes.
pub open spec fn opt_bytes_view(o: Option<Vec<u8>>) -> Option<Seq<u8>> {
    match o {
        Some(b) => Some(b@),
        None => None,
    }
}


// ------------------------------------------------------------------
// Entries
// ------------------------------------------------------------------

/// The payload of the COSE_Sign1 structure `e` encodes (optionally behind
/// tag 18): the third of its four items, a byte string.
pub open spec fn cose_payload_of(e: Seq<u8>) -> Option<Seq<u8>> {
    let body = match crate::cbor_scan::cbor_head_of(e) {
        Some((major, arg, hl)) => if major == 6 && arg == 18 {
            e.subrange(hl as int, e.len() as int)
        } else {
            e
        },
        None => e,
    };
    match array_elements(body) {
        Some(p) => if p.len() == 4 {
            bytes_of(p[2])
        } else {
            None
        },
        None => None,
    }
}

/// The payload of an ownership voucher entry.
#[derive(Debug)]
pub struct OwnershipVoucherEntryPayload {
    pub hash_previous_entry: crate::types::Hash,
    pub hash_header_info: crate::types::Hash,
    pub extra: Option<Vec<u8>>,
    pub public_key: PublicKey,
}

/// The fields of an entry payload as plain values.
pub type EntryPayloadFields = ((HashType, Seq<u8>), (HashType, Seq<u8>), Option<Seq<u8>>, Seq<u8>);

/// The fields of the entry payload `pl` encodes: `[previous entry hash,
/// header info hash, extra bytes or null, public key]`.
pub open spec fn entry_payload_of(pl: Seq<u8>) -> Option<EntryPayloadFields> {
    match array_elements(pl) {
        Some(p) => if p.len() == 4 {
            match (hash_pair_of(p[0]), hash_pair_of(p[1])) {
                (Some(h1), Some(h2)) => if is_null_item(p[2]) {
                    Some((h1, h2, None, p[3]))
                } else {
                    match bytes_of(p[2]) {
                        Some(x) => Some((h1, h2, Some(x), p[3])),
                        None => None,
                    }
                },
                _ => None,
            }
        } else {
            None
        },
        None => None,
    }
}

pub open spec fn entry_payload_view(e: OwnershipVoucherEntryPayload) -> EntryPayloadFields {
    (
        (e.hash_previous_entry.hash_type, e.hash_previous_entry.value@),
        (e.hash_header_info.hash_type, e.hash_header_info.value@),
        opt_bytes_view(e.extra),
        e.public_key.encoded@,
    )
}

impl OwnershipVoucherEntryPayload {
    /// An entry payload from its parts; it always succeeds.
    pub fn new(
        hash_previous_entry: crate::types::Hash,
        hash_header_info: crate::types::Hash,
        extra: Option<Vec<u8>>,
        public_key: PublicKey,
    ) -> (r: Result<OwnershipVoucherEntryPayload, Error>)
        ensures
            r matches Ok(p) && p == (OwnershipVoucherEntryPayload {
                hash_previous_entry,
                hash_header_info,
                extra,
                public_key,
            }),
    {
        Ok(OwnershipVoucherEntryPayload { hash_previous_entry, hash_header_info, extra, public_key })
    }
}


impl OwnershipVoucherEntryPayload {
    /// Read an entry payload from its CBOR encoding.
    pub fn from_cbor(pl: &[u8]) -> (r: Result<OwnershipVoucherEntryPayload, Error>)
        ensures
            r is Ok <==> entry_payload_of(pl@) is Some,
            r matches Ok(x) ==> entry_payload_of(pl@) == Some(entry_payload_view(x)),
    {
        let p = match split_array(pl) {
            Some(p) => p,
            None => {
                return Err(Error::new("Entry payload is not a CBOR array"));
            },
        };
        if p.len() != 4 {
            return Err(Error::new("Entry payload must have 4 elements"));
        }
        proof {
            let v = parts_view(p@);
            assert(v[0] == p@[0]@);
            assert(v[1] == p@[1]@);
            assert(v[2] == p@[2]@);
            assert(v[3] == p@[3]@);
        }
        let (t1, v1) = match read_hash_pair(p[0].as_slice()) {
            Some(x) => x,
            None => {
                return Err(Error::new("Invalid previous entry hash"));
            },
        };
        let (t2, v2) = match read_hash_pair(p[1].as_slice()) {
            Some(x) => x,
            None => {
                return Err(Error::new("Invalid header info hash"));
            },
        };
        let extra = if read_null(p[2].as_slice()) {
            None
        } else {
            match read_bytes(p[2].as_slice()) {
                Some(x) => Some(x),
                None => {
                    return Err(Error::new("Invalid extra data"));
                },
            }
        };
        Ok(OwnershipVoucherEntryPayload {
            hash_previous_entry: crate::types::Hash { hash_type: t1, value: v1 },
            hash_header_info: crate::types::Hash { hash_type: t2, value: v2 },
            extra,
            public_key: PublicKey { encoded: copy_bytes(&p[3]) },
        })
    }

    /// The hash of the previous entry (or of the header).
    pub fn hash_previous_entry(&self) -> (r: &crate::types::Hash)
        ensures
            *r == self.hash_previous_entry,
    {
        &self.hash_previous_entry
    }

    /// The hash of the header info.
    pub fn hash_header_info(&self) -> (r: &crate::types::Hash)
        ensures
            *r == self.hash_header_info,
    {
        &self.hash_header_info
    }

    /// The extra data, if any.
    pub fn extra(&self) -> (r: Option<&Vec<u8>>)
        ensures
            r is None <==> self.extra is None,
            r matches Some(x) ==> self.extra == Some(*x),
    {
        self.extra.as_ref()
    }

    /// The public key of the party the entry transfers ownership to.
    pub fn public_key(&self) -> (r: &PublicKey)
        ensures
            *r == self.public_key,
    {
        &self.public_key
    }
}

pub(crate) fn read_cose_payload(e: &[u8]) -> (r: Option<Vec<u8>>)
    ensures
        r is None <==> cose_payload_of(e@) is None,
        r matches Some(p) ==> cose_payload_of(e@) == Some(p@),
{
    proof {
        assert(e@.subrange(0, e@.len() as int) =~= e@);
    }
    let body: &[u8] = match crate::cbor_scan::read_head(e, 0) {
        Some((major, arg, hl)) => if major == 6 && arg == 18 {
            vstd::slice::slice_subrange(e, hl, e.len())
        } else {
            e
        },
        None => e,
    };
    let p = match split_array(body) {
        Some(p) => p,
        None => {
            return None;
        },
    };
    if p.len() != 4 {
        return None;
    }
    proof {
        assert(parts_view(p@)[2] == p@[2]@);
    }
    read_bytes(p[2].as_slice())
}


// ------------------------------------------------------------------
// Walking the chain of entries
// ------------------------------------------------------------------

/// A hash type that digests data (not an HMAC).
pub open spec fn is_digest_type(t: HashType) -> bool {
    t == HashType::Sha256 || t == HashType::Sha384
}

/// The entry payload `f`, found at position `i` of `ov`, links to what came
/// before: its previous-entry hash is the digest of the previous entry (or
/// of the header and its HMAC), and its header-info hash the digest of the
/// GUID and device info.
pub open spec fn entry_links_ok(ov: OwnershipVoucher, i: int, f: EntryPayloadFields) -> bool {
    &&& is_digest_type(f.0.0)
    &&& openssl_digest(f.0.0, prev_hash_input(ov, i)) == Some(f.0.1)
    &&& is_digest_type(f.1.0)
    &&& openssl_digest(f.1.0, hdr_info_input(ov)) == Some(f.1.1)
}

/// The payload `pl` of entry `i` reads and links to what came before it.
pub open spec fn payload_links_ok(ov: OwnershipVoucher, i: int, pl: Seq<u8>) -> bool {
    match entry_payload_of(pl) {
        Some(f) => entry_links_ok(ov, i, f),
        None => false,
    }
}

/// Where a walk over a voucher's entries stands: the position of the
/// entry it checks next, whether an entry failed, and the key the next
/// entry must be signed with.
pub type WalkState = (nat, bool, Seq<u8>);

/// The walk from its start, with the manufacturer's key.
pub open spec fn walk_start(ov: OwnershipVoucher) -> WalkState {
    (0, false, ov.header.manufacturer_public_key.encoded@)
}

/// One step of the walk from `s`: nothing changes after a failure or past
/// the last entry; an entry that is no COSE_Sign1 with a payload fails
/// where it stands; any other entry is passed, and when it checks out
/// against the key before it and what came before, its key checks the
/// next one.
pub open spec fn walk_step(ov: OwnershipVoucher, s: WalkState) -> WalkState {
    if s.1 || s.0 >= ov.entries@.len() {
        s
    } else {
        let e = ov.entries@[s.0 as int]@;
        match cose_payload_of(e) {
            None => (s.0, true, s.2),
            Some(pl) => if cose_signature_checks(e, s.2, Seq::empty()) && payload_links_ok(ov, s.0 as int, pl) {
                (s.0 + 1, false, entry_payload_of(pl).unwrap().3)
            } else {
                (s.0 + 1, true, s.2)
            },
        }
    }
}

/// What one step of the walk from `s` reports: nothing after a failure or
/// past the last entry, else whether the entry checks out.
pub open spec fn walk_step_result(ov: OwnershipVoucher, s: WalkState) -> Option<bool> {
    if s.1 || s.0 >= ov.entries@.len() {
        None
    } else {
        let e = ov.entries@[s.0 as int]@;
        match cose_payload_of(e) {
            None => Some(false),
            Some(pl) => Some(cose_signature_checks(e, s.2, Seq::empty()) && payload_links_ok(ov, s.0 as int, pl)),
        }
    }
}

/// Where the walk stands after `k` steps.
pub open spec fn walk_after(ov: OwnershipVoucher, k: nat) -> WalkState
    decreases k,
{
    if k == 0 {
        walk_start(ov)
    } else {
        walk_step(ov, walk_after(ov, (k - 1) as nat))
    }
}

/// What a step reports, as the walk sees it: nothing, an entry that checks
/// out, or a failure.
pub open spec fn reported(r: Option<Result<OwnershipVoucherEntryPayload, Error>>) -> Option<bool> {
    match r {
        None => None,
        Some(Ok(_)) => Some(true),
        Some(Err(_)) => Some(false),
    }
}

/// A walk over the entries of a voucher, checking each against the one
/// before. The signature of each entry is checked by the caller, with the
/// key `last_pubkey` (the manufacturer's key for the first entry, then the
/// key each entry names).
#[derive(Debug)]
pub struct EntryIter<'a> {
    pub voucher: &'a OwnershipVoucher,
    pub index: usize,
    pub errored: bool,
    pub last_pubkey: PublicKey,
}

impl OwnershipVoucher {
    /// Start walking the entries, from the manufacturer's key.
    pub fn iter_entries(&self) -> (r: Result<EntryIter<'_>, Error>)
        ensures
            r matches Ok(it) && *it.voucher == *self && it.index == 0 && !it.errored
                && it.last_pubkey.encoded@ == self.header.manufacturer_public_key.encoded@,
            r matches Ok(it) && walk_state_of(it) == walk_after(*self, 0),
    {
        Ok(
            EntryIter {
                voucher: self,
                index: 0,
                errored: false,
                last_pubkey: PublicKey { encoded: copy_bytes(&self.header.manufacturer_public_key.encoded) },
            },
        )
    }
}

/// Where the walk `it` stands.
pub open spec fn walk_state_of(it: EntryIter) -> WalkState {
    (it.index as nat, it.errored, it.last_pubkey.encoded@)
}

impl<'a> EntryIter<'a> {
    /// The encoding of the entry the next step checks, when there is one.
    pub fn pending_entry(&self) -> (r: Option<&Vec<u8>>)
        ensures
            r is Some <==> (!self.errored && self.index < self.voucher.entries@.len()),
            r matches Some(e) ==> *e == self.voucher.entries@[self.index as int],
    {
        if self.errored || self.index >= self.voucher.entries.len() {
            None
        } else {
            Some(&self.voucher.entries[self.index])
        }
    }

    /// Check the next entry; `signature_valid` says whether its signature
    /// verified with `last_pubkey`. Nothing comes after the last entry or
    /// after an error. An entry that is not a COSE_Sign1 with a payload
    /// stops the walk where it is; otherwise the walk moves past the entry,
    /// which is returned when its signature verified, its payload reads and
    /// it links to what came before (and its key then checks the next one).
    pub fn next(&mut self, signature_valid: bool) -> (r: Option<Result<OwnershipVoucherEntryPayload, Error>>)
        ensures
            final(self).voucher == old(self).voucher,
            r matches Some(Err(_)) ==> final(self).last_pubkey.encoded@ == old(self).last_pubkey.encoded@,
            (old(self).errored || old(self).index >= old(self).voucher.entries@.len()) ==> (r is None
                && *final(self) == *old(self)),
            (!old(self).errored && old(self).index < old(self).voucher.entries@.len()) ==> ({
                let e = old(self).voucher.entries@[old(self).index as int]@;
                &&& r is Some
                &&& cose_payload_of(e) is None ==> (r matches Some(Err(_)) && final(self).errored
                    && final(self).index == old(self).index)
                &&& cose_payload_of(e) matches Some(pl) ==> {
                    &&& final(self).index == old(self).index + 1
                    &&& r matches Some(Ok(x)) ==> (signature_valid && entry_payload_of(pl) == Some(
                        entry_payload_view(x),
                    ) && entry_links_ok(*old(self).voucher, old(self).index as int, entry_payload_view(x))
                        && final(self).last_pubkey.encoded@ == x.public_key.encoded@ && !final(self).errored)
                    &&& (r matches Some(Err(_))) ==> final(self).errored
                    &&& (r matches Some(Ok(_))) <==> (signature_valid && payload_links_ok(
                        *old(self).voucher,
                        old(self).index as int,
                        pl,
                    ))
                }
            }),
    {
        if self.errored || self.index >= self.voucher.entries.len() {
            return None;
        }
        let payload_bytes = match read_cose_payload(self.voucher.entries[self.index].as_slice()) {
            Some(p) => p,
            None => {
                self.errored = true;
                return Some(Err(Error::new("Error getting next entry")));
            },
        };
        let i = self.index;
        self.index = self.index + 1;
        if !signature_valid {
            self.errored = true;
            return Some(Err(Error::new("Invalid signature on ownership voucher entry")));
        }
        let payload = match OwnershipVoucherEntryPayload::from_cbor(payload_bytes.as_slice()) {
            Ok(p) => p,
            Err(e) => {
                self.errored = true;
                return Some(Err(e));
            },
        };
        let expected_prev = if i == 0 {
            self.voucher.hdr_hash(payload.hash_previous_entry.hash_type)
        } else {
            crate::types::Hash::from_data(
                payload.hash_previous_entry.hash_type,
                self.voucher.entries[i - 1].as_slice(),
            )
        };
        let expected_prev = match expected_prev {
            Ok(h) => h,
            Err(e) => {
                self.errored = true;
                return Some(Err(e));
            },
        };
        if !crate::text::bytes_eq(expected_prev.value.as_slice(), payload.hash_previous_entry.value.as_slice()) {
            self.errored = true;
            return Some(Err(Error::new("Error verifying hash of previous entry")));
        }
        let mut info = vstd::slice::slice_to_vec(self.voucher.header.guid.0.as_slice());
        crate::csr::append_bytes(&mut info, self.voucher.header.device_info.as_str().as_bytes());
        let expected_info = match crate::types::Hash::from_data(payload.hash_header_info.hash_type, info.as_slice()) {
            Ok(h) => h,
            Err(e) => {
                self.errored = true;
                return Some(Err(e));
            },
        };
        if !crate::text::bytes_eq(expected_info.value.as_slice(), payload.hash_header_info.value.as_slice()) {
            self.errored = true;
            return Some(Err(Error::new("Error verifying header hash")));
        }
        self.last_pubkey = PublicKey { encoded: copy_bytes(&payload.public_key.encoded) };
        Some(Ok(payload))
    }

    /// Check the next entry, its signature included: the signature must
    /// verify, with no external AAD, with `last_pubkey`. Otherwise as
    /// `next`.
    pub fn next_verified(&mut self) -> (r: Option<Result<OwnershipVoucherEntryPayload, Error>>)
        ensures
            final(self).voucher == old(self).voucher,
            walk_state_of(*final(self)) == walk_step(*old(self).voucher, walk_state_of(*old(self))),
            reported(r) == walk_step_result(*old(self).voucher, walk_state_of(*old(self))),
            (old(self).errored || old(self).index >= old(self).voucher.entries@.len()) ==> (r is None
                && *final(self) == *old(self)),
            (!old(self).errored && old(self).index < old(self).voucher.entries@.len()) ==> ({
                let e = old(self).voucher.entries@[old(self).index as int]@;
                &&& r is Some
                &&& cose_payload_of(e) is None ==> (r matches Some(Err(_)) && final(self).errored
                    && final(self).index == old(self).index)
                &&& cose_payload_of(e) matches Some(pl) ==> {
                    &&& final(self).index == old(self).index + 1
                    &&& r matches Some(Ok(x)) ==> (cose_signature_checks(
                        e,
                        old(self).last_pubkey.encoded@,
                        Seq::empty(),
                    ) && entry_payload_of(pl) == Some(entry_payload_view(x)) && entry_links_ok(
                        *old(self).voucher,
                        old(self).index as int,
                        entry_payload_view(x),
                    ) && final(self).last_pubkey.encoded@ == x.public_key.encoded@ && !final(self).errored)
                    &&& (r matches Some(Err(_))) ==> final(self).errored
                    &&& (r matches Some(Ok(_))) <==> (cose_signature_checks(
                        e,
                        old(self).last_pubkey.encoded@,
                        Seq::empty(),
                    ) && payload_links_ok(*old(self).voucher, old(self).index as int, pl))
                }
            }),
    {
        let no_aad: Vec<u8> = Vec::new();
        let valid = match self.pending_entry() {
            Some(e) => verify_cose_sign1(e.as_slice(), &self.last_pubkey, no_aad.as_slice()),
            None => false,
        };
        self.next(valid)
    }
}

/// The key that owns `ov` after its entries from position `i` on, when the
/// key before them is `key`: each entry must be a COSE_Sign1 whose
/// signature checks with the key before it (with no external AAD), whose
/// payload reads and links to what came before; the key it names checks
/// the next one.
pub open spec fn chain_owner_from(ov: OwnershipVoucher, i: nat, key: Seq<u8>) -> Option<Seq<u8>>
    decreases ov.entries@.len() - i,
{
    if i >= ov.entries@.len() {
        Some(key)
    } else {
        let e = ov.entries@[i as int]@;
        match cose_payload_of(e) {
            Some(pl) => match entry_payload_of(pl) {
                Some(f) => if cose_signature_checks(e, key, Seq::empty()) && entry_links_ok(ov, i as int, f) {
                    chain_owner_from(ov, i + 1, f.3)
                } else {
                    None
                },
                None => None,
            },
            None => None,
        }
    }
}

/// The owner a voucher's entry chain arrives at, from the manufacturer's
/// key.
pub open spec fn voucher_owner(ov: OwnershipVoucher) -> Option<Seq<u8>> {
    chain_owner_from(ov, 0, ov.header.manufacturer_public_key.encoded@)
}

/// The payload fields of entry `k`, when its COSE_Sign1 and its payload
/// read.
pub open spec fn entry_fields(ov: OwnershipVoucher, k: int) -> Option<EntryPayloadFields> {
    match cose_payload_of(ov.entries@[k]@) {
        Some(pl) => entry_payload_of(pl),
        None => None,
    }
}

/// The key entry `k` must be signed with: the manufacturer's key for the
/// first entry, then the key the payload of the entry before names.
pub open spec fn entry_signer(ov: OwnershipVoucher, k: int) -> Seq<u8> {
    if k == 0 {
        ov.header.manufacturer_public_key.encoded@
    } else {
        match entry_fields(ov, k - 1) {
            Some(f) => f.3,
            None => Seq::empty(),
        }
    }
}

/// Entry `k` checks out: its payload reads, its signature verifies with
/// the key before it (and no external AAD), and it links to the entry (or
/// header) before it and to the header info.
pub open spec fn entry_checks(ov: OwnershipVoucher, k: int) -> bool {
    match entry_fields(ov, k) {
        Some(f) => cose_signature_checks(ov.entries@[k]@, entry_signer(ov, k), Seq::empty())
            && entry_links_ok(ov, k, f),
        None => false,
    }
}

#[verifier::rlimit(40)]
#[verifier::spinoff_prover]
proof fn lemma_walk_from(ov: OwnershipVoucher, i: nat)
    requires
        i <= ov.entries@.len(),
    ensures
        chain_owner_from(ov, i, entry_signer(ov, i as int)) is Some <==> (forall|k: int|
            i <= k < ov.entries@.len() ==> #[trigger] entry_checks(ov, k)),
        chain_owner_from(ov, i, entry_signer(ov, i as int)) is Some ==> chain_owner_from(
            ov,
            i,
            entry_signer(ov, i as int),
        ) == Some(entry_signer(ov, ov.entries@.len() as int)),
    decreases ov.entries@.len() - i,
{
    if i < ov.entries@.len() {
        lemma_walk_from(ov, i + 1);
        if !entry_checks(ov, i as int) {
            assert(chain_owner_from(ov, i, entry_signer(ov, i as int)) is None);
        } else {
            assert(chain_owner_from(ov, i, entry_signer(ov, i as int)) == chain_owner_from(
                ov,
                i + 1,
                entry_signer(ov, (i + 1) as int),
            ));
            if chain_owner_from(ov, i + 1, entry_signer(ov, (i + 1) as int)) is None {
                let w = choose|k: int| i + 1 <= k < ov.entries@.len() && !entry_checks(ov, k);
                assert(!entry_checks(ov, w));
            }
        }
    }
}

/// The walk over a voucher's entries, taken whole: the voucher has an
/// owner exactly when every entry checks out against the one before it
/// (from the manufacturer's key), and the owner is then the key the last
/// entry names (the manufacturer's key when there are no entries).
pub proof fn lemma_voucher_walk(ov: OwnershipVoucher)
    ensures
        voucher_owner(ov) is Some <==> (forall|k: int| 0 <= k < ov.entries@.len() ==> #[trigger] entry_checks(ov, k)),
        voucher_owner(ov) is Some ==> voucher_owner(ov) == Some(entry_signer(ov, ov.entries@.len() as int)),
{
    lemma_walk_from(ov, 0);
}

/// Every entry before position `k` checks out.
pub open spec fn entries_check_before(ov: OwnershipVoucher, k: int) -> bool {
    forall|j: int| 0 <= j < k ==> #[trigger] entry_checks(ov, j)
}

proof fn lemma_walk_step_at(ov: OwnershipVoucher, p: nat)
    requires
        p < ov.entries@.len(),
    ensures
        walk_step_result(ov, (p, false, entry_signer(ov, p as int))) == Some(entry_checks(ov, p as int)),
        entry_checks(ov, p as int) ==> walk_step(ov, (p, false, entry_signer(ov, p as int))) == (
            (p + 1) as nat,
            false,
            entry_signer(ov, p + 1 as int),
        ),
        !entry_checks(ov, p as int) ==> walk_step(ov, (p, false, entry_signer(ov, p as int))).1,
{
}

proof fn lemma_checks_before_next(ov: OwnershipVoucher, p: int)
    requires
        0 <= p,
    ensures
        entries_check_before(ov, p + 1) <==> (entries_check_before(ov, p) && entry_checks(ov, p)),
{
    if entries_check_before(ov, p) && entry_checks(ov, p) {
        assert forall|j: int| 0 <= j < p + 1 implies #[trigger] entry_checks(ov, j) by {
            if j < p {
                assert(entry_checks(ov, j));
            }
        }
    }
    if entries_check_before(ov, p + 1) {
        assert(entry_checks(ov, p));
        assert forall|j: int| 0 <= j < p implies #[trigger] entry_checks(ov, j) by {
            assert(entry_checks(ov, j));
        }
    }
}

#[verifier::rlimit(30)]
proof fn lemma_walk_after(ov: OwnershipVoucher, k: nat)
    ensures
        (k <= ov.entries@.len() && entries_check_before(ov, k as int)) ==> walk_after(ov, k) == (
            k,
            false,
            entry_signer(ov, k as int),
        ),
        !(k <= ov.entries@.len() && entries_check_before(ov, k as int)) ==> (walk_after(ov, k).1
            || walk_after(ov, k).0 >= ov.entries@.len()),
    decreases k,
{
    if k > 0 {
        let p = (k - 1) as nat;
        lemma_walk_after(ov, p);
        lemma_checks_before_next(ov, p as int);
        let s = walk_after(ov, p);
        assert(walk_after(ov, k) == walk_step(ov, s));
        if p < ov.entries@.len() && entries_check_before(ov, p as int) {
            lemma_walk_step_at(ov, p);
        }
    }
}

/// Walking a voucher's entries one step at a time, from the manufacturer's
/// key: step `k` reports entry `k`, and only when every entry before it
/// checked out; it reports it as checking out exactly when it is signed
/// with the key the entry before names and links to what came before.
/// The key the walk then holds is that key. Past the last entry nothing
/// comes.
pub proof fn lemma_entry_walk(ov: OwnershipVoucher, k: nat)
    ensures
        walk_step_result(ov, walk_after(ov, k)) is Some <==> (k < ov.entries@.len() && entries_check_before(
            ov,
            k as int,
        )),
        walk_step_result(ov, walk_after(ov, k)) is Some ==> walk_step_result(ov, walk_after(ov, k)) == Some(
            entry_checks(ov, k as int),
        ),
        (k <= ov.entries@.len() && entries_check_before(ov, k as int)) ==> walk_after(ov, k).2 == entry_signer(
            ov,
            k as int,
        ),
{
    lemma_walk_after(ov, k);
    if k < ov.entries@.len() && entries_check_before(ov, k as int) {
        lemma_walk_step_at(ov, k);
    }
}

/// After the first entry that fails, and past the last entry, the walk
/// reports nothing more.
pub proof fn lemma_entry_walk_stops(ov: OwnershipVoucher, k: nat, m: nat)
    requires
        k < m,
        walk_step_result(ov, walk_after(ov, k)) != Some(true),
    ensures
        walk_step_result(ov, walk_after(ov, m)) is None,
{
    lemma_entry_walk(ov, k);
    lemma_entry_walk(ov, m);
    if walk_step_result(ov, walk_after(ov, m)) is Some {
        assert(entry_checks(ov, k as int));
    }
}

impl OwnershipVoucher {
    /// The key of the voucher's owner, after checking every entry: its
    /// signature (with the key before it), its payload, and its links to
    /// the previous entry and the header. A voucher without entries, or
    /// with an entry that does not check out, is refused.
    pub fn validated_owner_public_key(&self) -> (r: Result<PublicKey, Error>)
        ensures
            r matches Ok(k) ==> self.entries@.len() > 0 && voucher_owner(*self) == Some(k.encoded@),
            (self.entries@.len() > 0 && voucher_owner(*self) is Some) ==> (r matches Ok(k) && voucher_owner(*self)
                == Some(k.encoded@)),
            r matches Ok(k) ==> (forall|j: int| 0 <= j < self.entries@.len() ==> #[trigger] entry_checks(*self, j))
                && k.encoded@ == entry_signer(*self, self.entries@.len() as int),
            (self.entries@.len() == 0 || voucher_owner(*self) is None) ==> r is Err,
    {
        if self.entries.len() == 0 {
            return Err(Error::new("No OV entries found"));
        }
        let mut it = match self.iter_entries() {
            Ok(it) => it,
            Err(e) => {
                return Err(e);
            },
        };
        let mut owner: PublicKey = PublicKey { encoded: copy_bytes(&self.header.manufacturer_public_key.encoded) };
        while it.index < self.entries.len()
            invariant
                *it.voucher == *self,
                !it.errored,
                it.index <= self.entries@.len(),
                self.entries@.len() > 0,
                owner.encoded@ == it.last_pubkey.encoded@,
                voucher_owner(*self) == chain_owner_from(*self, it.index as nat, it.last_pubkey.encoded@),
            decreases self.entries@.len() - it.index,
        {
            let ghost i = it.index;
            let ghost key = it.last_pubkey.encoded@;
            match it.next_verified() {
                Some(Ok(x)) => {
                    owner = PublicKey { encoded: copy_bytes(&x.public_key.encoded) };
                    proof {
                        assert(chain_owner_from(*self, i as nat, key) == chain_owner_from(
                            *self,
                            (i + 1) as nat,
                            x.public_key.encoded@,
                        ));
                    }
                },
                Some(Err(e)) => {
                    return Err(e);
                },
                None => {
                    return Err(Error::new("Error validating ownership voucher"));
                },
            }
        }
        proof {
            lemma_voucher_walk(*self);
        }
        Ok(owner)
    }
}


// ------------------------------------------------------------------
// PEM
// ------------------------------------------------------------------

/// The tag vouchers carry in PEM.
pub open spec fn voucher_pem_tag() -> Seq<char> {
    "OWNERSHIP VOUCHER"@
}

/// The contents of the PEM block in `data`, when it carries the voucher
/// tag.
pub open spec fn pem_voucher_contents(data: Seq<u8>) -> Option<Seq<u8>> {
    match pem_decoded(data) {
        Some((tag, contents)) => if tag == voucher_pem_tag() {
            Some(contents)
        } else {
            None
        },
        None => None,
    }
}

/// What the `pem` crate reads from `data`: the tag and decoded contents of
/// its first PEM block.
pub uninterp spec fn pem_decoded(data: Seq<u8>) -> Option<(Seq<char>, Seq<u8>)>;

/// What the `pem` crate reads from `data` as a list of blocks.
pub uninterp spec fn pem_decoded_many(data: Seq<u8>) -> Option<Seq<(Seq<char>, Seq<u8>)>>;

/// The text the `pem` crate writes for a block with `tag` and `contents`.
pub uninterp spec fn pem_encoded(tag: Seq<char>, contents: Seq<u8>) -> Seq<char>;

/// `pem::parse`: the first PEM block of `data`, as tag and contents; nothing
/// when `data` holds no well-framed block. Its result is named, not stated.
#[verifier::external_body]
fn pem_parse(data: &[u8]) -> (r: Option<(String, Vec<u8>)>)
    ensures
        r is None <==> pem_decoded(data@) is None,
        r matches Some((t, c)) ==> pem_decoded(data@) == Some((t@, c@)),
{
    pem::parse(data).ok().map(|p| (p.tag().to_string(), p.contents().to_vec()))
}

/// `pem::parse_many`: every PEM block of `data`; nothing when one of them
/// does not decode. Its result is named, not stated.
#[verifier::external_body]
fn pem_parse_many(data: &[u8]) -> (r: Option<Vec<(String, Vec<u8>)>>)
    ensures
        r is None <==> pem_decoded_many(data@) is None,
        r matches Some(blocks) ==> pem_decoded_many(data@) == Some(
            blocks@.map_values(|b: (String, Vec<u8>)| (b.0@, b.1@)),
        ),
{
    pem::parse_many(data).ok().map(
        |ps| ps.iter().map(|p| (p.tag().to_string(), p.contents().to_vec())).collect(),
    )
}

/// `pem::encode` of a block with `tag` and `contents`. Its result is named,
/// not stated.
#[verifier::external_body]
fn pem_encode(tag: &str, contents: &[u8]) -> (r: String)
    ensures
        r@ == pem_encoded(tag@, contents@),
{
    pem::encode(&pem::Pem::new(tag.to_string(), contents.to_vec()))
}

impl OwnershipVoucher {
    /// Read a voucher from PEM: the block must carry the voucher tag.
    pub fn from_pem(data: &[u8]) -> (r: Result<OwnershipVoucher, Error>)
        ensures
            data@.len() == 0 ==> r is Err,
            r is Ok <==> (data@.len() > 0 && (pem_voucher_contents(data@) matches Some(c)
                && voucher_fields_of(c) is Some)),
            r matches Ok(ov) ==> ov.wf() && pem_voucher_contents(data@) == Some(ov.raw@),
    {
        if data.len() == 0 {
            return Err(Error::new("Empty data"));
        }
        let (tag, contents) = match pem_parse(data) {
            Some(p) => p,
            None => {
                return Err(Error::new("Invalid PEM data"));
            },
        };
        if !crate::text::str_eq(tag.as_str(), "OWNERSHIP VOUCHER") {
            return Err(Error::new("Invalid PEM tag"));
        }
        OwnershipVoucher::from_cbor(contents.as_slice())
    }

    /// Read every voucher of a PEM text; each block must carry the voucher
    /// tag and hold a voucher.
    pub fn many_from_pem(data: &[u8]) -> (r: Result<Vec<OwnershipVoucher>, Error>)
        ensures
            data@.len() == 0 ==> r is Err,
            r is Ok <==> (data@.len() > 0 && (pem_decoded_many(data@) matches Some(blocks) && forall|i: int|
                0 <= i < blocks.len() ==> (#[trigger] blocks[i]).0 == voucher_pem_tag()
                    && voucher_fields_of(blocks[i].1) is Some)),
            r matches Ok(ovs) ==> (pem_decoded_many(data@) matches Some(blocks) && blocks.len()
                == ovs@.len() && forall|i: int|
                0 <= i < ovs@.len() ==> blocks[i].0 == voucher_pem_tag() && (#[trigger] ovs@[i]).wf()
                    && ovs@[i].raw@ == blocks[i].1),
    {
        if data.len() == 0 {
            return Err(Error::new("Empty data"));
        }
        let blocks = match pem_parse_many(data) {
            Some(b) => b,
            None => {
                return Err(Error::new("Invalid PEM data"));
            },
        };
        let ghost bv = blocks@.map_values(|b: (String, Vec<u8>)| (b.0@, b.1@));
        let mut out: Vec<OwnershipVoucher> = Vec::new();
        let mut i: usize = 0;
        while i < blocks.len()
            invariant
                i <= blocks@.len(),
                out@.len() == i,
                bv == blocks@.map_values(|b: (String, Vec<u8>)| (b.0@, b.1@)),
                forall|j: int|
                    0 <= j < i ==> bv[j].0 == voucher_pem_tag() && (#[trigger] out@[j]).wf()
                        && out@[j].raw@ == bv[j].1,
                forall|j: int| 0 <= j < i ==> voucher_fields_of((#[trigger] bv[j]).1) is Some,
                pem_decoded_many(data@) == Some(bv),
                data@.len() > 0,
            decreases blocks@.len() - i,
        {
            let (tag, contents) = (&blocks[i].0, &blocks[i].1);
            proof {
                assert(bv[i as int] == (tag@, contents@));
            }
            if !crate::text::str_eq(tag.as_str(), "OWNERSHIP VOUCHER") {
                proof {
                    reveal_strlit("OWNERSHIP VOUCHER");
                    assert(bv[i as int].0 != voucher_pem_tag());
                }
                return Err(Error::new("Invalid PEM tag"));
            }
            let ov = match OwnershipVoucher::from_cbor(contents.as_slice()) {
                Ok(ov) => ov,
                Err(e) => {
                    assert(voucher_fields_of(bv[i as int].1) is None);
                    return Err(e);
                },
            };
            out.push(ov);
            i = i + 1;
        }
        proof {
            assert forall|j: int| 0 <= j < bv.len() implies (#[trigger] bv[j]).0 == voucher_pem_tag()
                && voucher_fields_of(bv[j].1) is Some by {
                assert(out@[j].raw@ == bv[j].1);
            }
        }
        Ok(out)
    }

    /// The voucher in PEM, under the voucher tag.
    pub fn to_pem(&self) -> (r: Result<String, Error>)
        ensures
            r matches Ok(t) && t@ == pem_encoded(voucher_pem_tag(), self.raw@),
    {
        Ok(pem_encode("OWNERSHIP VOUCHER", self.raw.as_slice()))
    }

    /// Read a voucher from PEM (when the data starts with `--`) or from its
    /// CBOR encoding. The data must not be a single byte.
    pub fn from_pem_or_raw(data: &[u8]) -> (r: Result<OwnershipVoucher, Error>)
        requires
            data@.len() != 1,
        ensures
            data@.len() == 0 ==> r is Err,
            data@.len() >= 2 && data@[0] == 0x2du8 && data@[1] == 0x2du8 ==> (r is Ok <==> (
            pem_voucher_contents(data@) matches Some(c) && voucher_fields_of(c) is Some)) && (r matches Ok(
                ov,
            ) ==> pem_voucher_contents(data@) == Some(ov.raw@)),
            data@.len() >= 2 && !(data@[0] == 0x2du8 && data@[1] == 0x2du8) ==> (r is Ok
                <==> voucher_fields_of(data@) is Some) && (r matches Ok(ov) ==> ov.raw@ == data@),
            r matches Ok(ov) ==> ov.wf(),
    {
        if data.len() == 0 {
            return Err(Error::new("Empty data"));
        }
        if data[0] == data[1] && data[0] == 0x2du8 {
            OwnershipVoucher::from_pem(data)
        } else {
            OwnershipVoucher::from_cbor(data)
        }
    }
}

/// Two vouchers read from the same bytes are the same voucher: the fields
/// and header of a well-formed voucher are determined by its encoding.
pub proof fn lemma_voucher_encoding_determines(a: OwnershipVoucher, b: OwnershipVoucher)
    requires
        a.wf(),
        b.wf(),
        a.raw@ == b.raw@,
    ensures
        a.fields() == b.fields(),
        header_view(a.header) == header_view(b.header),
{
}


// ------------------------------------------------------------------
// Writing headers, and reading them back
// ------------------------------------------------------------------

/// The encoding of a hash or HMAC: `[type, value]`.
pub open spec fn hash_encoding(t: HashType, v: Seq<u8>) -> Seq<u8> {
    cbor_array(seq![cbor_int(t.spec_code() as int), cbor_bytes(v)])
}

/// The encoding of a rendezvous instruction: `[variable, value]`.
pub open spec fn instr_encoding(x: (u8, Seq<u8>)) -> Seq<u8> {
    cbor_array(seq![cbor_int(x.0 as int), cbor_bytes(x.1)])
}

/// The encoding of a rendezvous directive: an array of instructions.
pub open spec fn directive_encoding(d: Seq<(u8, Seq<u8>)>) -> Seq<u8> {
    cbor_array(d.map_values(|x: (u8, Seq<u8>)| instr_encoding(x)))
}

/// The encoding of rendezvous information: an array of directives.
pub open spec fn rv_encoding(r: Seq<Seq<(u8, Seq<u8>)>>) -> Seq<u8> {
    cbor_array(r.map_values(|d: Seq<(u8, Seq<u8>)>| directive_encoding(d)))
}

/// The encodings of a header's fields, in order.
pub open spec fn header_parts(f: HeaderFields) -> Seq<Seq<u8>> {
    seq![
        cbor_int(f.0.spec_code() as int),
        cbor_bytes(f.1),
        rv_encoding(f.2),
        cbor_text(f.3),
        f.4,
        opt_hash_encoding(f.5),
    ]
}

/// The encoding of an optional hash: the hash, or null.
pub open spec fn opt_hash_encoding(h: Option<(HashType, Seq<u8>)>) -> Seq<u8> {
    match h {
        Some((t, v)) => hash_encoding(t, v),
        None => cbor_null(),
    }
}

/// The encoding of a header's fields.
pub open spec fn header_encoding(f: HeaderFields) -> Seq<u8> {
    cbor_array(header_parts(f))
}

/// Byte strings a writer can give a length to.
pub open spec fn rv_sizes_ok(r: Seq<Seq<(u8, Seq<u8>)>>) -> bool {
    &&& r.len() < pow256(8)
    &&& forall|i: int| 0 <= i < r.len() ==> (#[trigger] r[i]).len() < pow256(8)
    &&& forall|i: int, j: int|
        0 <= i < r.len() && 0 <= j < r[i].len() ==> (#[trigger] r[i][j]).1.len() < pow256(8)
}

/// The header fields a reader gives back after a writer wrote them: a
/// GUID of 16 bytes, device info of acceptable characters, a manufacturer
/// key that is one well-formed item, and sizes a writer can state.
pub open spec fn header_encodable(f: HeaderFields) -> bool {
    &&& f.1.len() == 16
    &&& device_info_ok(f.3)
    &&& vstd::utf8::encode_utf8(f.3).len() < pow256(8)
    &&& is_item_at(f.4, (crate::cbor_scan::MAX_NESTING - 1) as nat)
    &&& rv_sizes_ok(f.2)
    &&& (f.5 matches Some((t, v)) ==> v.len() < pow256(8))
}

proof fn lemma_instr_roundtrip(x: (u8, Seq<u8>), d: nat)
    requires
        x.1.len() < pow256(8),
        d > 0,
    ensures
        is_item_at(instr_encoding(x), d),
        rv_instr_of(instr_encoding(x)) == Some(x),
{
    let parts = seq![cbor_int(x.0 as int), cbor_bytes(x.1)];
    lemma_scalars_are_items(x.0 as int, x.1, Seq::empty(), (d - 1) as nat);
    lemma_scalars_are_items(x.0 as int, x.1, Seq::empty(), (crate::cbor_scan::MAX_NESTING - 1) as nat);
    reveal_with_fuel(pow256, 9);
    lemma_array_is_item(parts, d);
    lemma_array_elements_of(parts);
}

pub(crate) proof fn lemma_hash_roundtrip(t: HashType, v: Seq<u8>, d: nat)
    requires
        v.len() < pow256(8),
        d > 0,
    ensures
        is_item_at(hash_encoding(t, v), d),
        hash_pair_of(hash_encoding(t, v)) == Some((t, v)),
{
    let parts = seq![cbor_int(t.spec_code() as int), cbor_bytes(v)];
    reveal_with_fuel(pow256, 9);
    lemma_scalars_are_items(t.spec_code() as int, v, Seq::empty(), (d - 1) as nat);
    lemma_scalars_are_items(t.spec_code() as int, v, Seq::empty(), (crate::cbor_scan::MAX_NESTING - 1) as nat);
    lemma_array_is_item(parts, d);
    lemma_array_elements_of(parts);
    crate::constants::lemma_hash_type_code_roundtrip(t, t.spec_code());
}

proof fn lemma_instrs_roundtrip(dir: Seq<(u8, Seq<u8>)>)
    requires
        forall|j: int| 0 <= j < dir.len() ==> (#[trigger] dir[j]).1.len() < pow256(8),
    ensures
        rv_instrs_of(dir.map_values(|x: (u8, Seq<u8>)| instr_encoding(x))) == Some(dir),
    decreases dir.len(),
{
    let items = dir.map_values(|x: (u8, Seq<u8>)| instr_encoding(x));
    if dir.len() > 0 {
        let init = dir.drop_last();
        lemma_instrs_roundtrip(init);
        assert(items.drop_last() =~= init.map_values(|x: (u8, Seq<u8>)| instr_encoding(x)));
        lemma_instr_roundtrip(dir.last(), 1);
        assert(init.push(dir.last()) =~= dir);
    } else {
        assert(items.len() == 0);
    }
}

proof fn lemma_directive_roundtrip(dir: Seq<(u8, Seq<u8>)>, d: nat)
    requires
        d > 1,
        dir.len() < pow256(8),
        forall|j: int| 0 <= j < dir.len() ==> (#[trigger] dir[j]).1.len() < pow256(8),
    ensures
        is_item_at(directive_encoding(dir), d),
        array_elements(directive_encoding(dir)) == Some(dir.map_values(|x: (u8, Seq<u8>)| instr_encoding(x))),
{
    let items = dir.map_values(|x: (u8, Seq<u8>)| instr_encoding(x));
    assert forall|j: int| 0 <= j < items.len() implies is_item_at(#[trigger] items[j], (d - 1) as nat) && is_item_at(
        items[j],
        (crate::cbor_scan::MAX_NESTING - 1) as nat,
    ) by {
        lemma_instr_roundtrip(dir[j], (d - 1) as nat);
        lemma_instr_roundtrip(dir[j], (crate::cbor_scan::MAX_NESTING - 1) as nat);
    }
    lemma_array_is_item(items, d);
    lemma_array_elements_of(items);
}

proof fn lemma_directives_roundtrip(r: Seq<Seq<(u8, Seq<u8>)>>)
    requires
        rv_sizes_ok(r),
    ensures
        rv_directives_of(r.map_values(|d: Seq<(u8, Seq<u8>)>| directive_encoding(d))) == Some(r),
    decreases r.len(),
{
    let items = r.map_values(|d: Seq<(u8, Seq<u8>)>| directive_encoding(d));
    if r.len() > 0 {
        let init = r.drop_last();
        assert forall|i: int| 0 <= i < init.len() implies (#[trigger] init[i]).len() < pow256(8) by {
            assert(init[i] == r[i]);
        }
        assert forall|i: int, j: int|
            0 <= i < init.len() && 0 <= j < init[i].len() implies (#[trigger] init[i][j]).1.len()
                < pow256(8) by {
            assert(init[i] == r[i]);
        }
        lemma_directives_roundtrip(init);
        assert(items.drop_last() =~= init.map_values(|d: Seq<(u8, Seq<u8>)>| directive_encoding(d)));
        let last = r.last();
        assert(last == r[r.len() - 1]);
        assert forall|j: int| 0 <= j < last.len() implies (#[trigger] last[j]).1.len() < pow256(8) by {
            assert(last[j] == r[r.len() - 1][j]);
        }
        lemma_directive_roundtrip(last, (crate::cbor_scan::MAX_NESTING - 1) as nat);
        lemma_instrs_roundtrip(last);
        assert(init.push(last) =~= r);
    }
}

pub(crate) proof fn lemma_rv_roundtrip(r: Seq<Seq<(u8, Seq<u8>)>>, d: nat)
    requires
        rv_sizes_ok(r),
        d > 2,
    ensures
        is_item_at(rv_encoding(r), d),
        rv_info_of(rv_encoding(r)) == Some(r),
{
    let items = r.map_values(|dd: Seq<(u8, Seq<u8>)>| directive_encoding(dd));
    assert forall|i: int| 0 <= i < items.len() implies is_item_at(#[trigger] items[i], (d - 1) as nat) && is_item_at(
        items[i],
        (crate::cbor_scan::MAX_NESTING - 1) as nat,
    ) by {
        let dir = r[i];
        assert forall|j: int| 0 <= j < dir.len() implies (#[trigger] dir[j]).1.len() < pow256(8) by {
            assert(dir[j] == r[i][j]);
        }
        lemma_directive_roundtrip(dir, (d - 1) as nat);
        lemma_directive_roundtrip(dir, (crate::cbor_scan::MAX_NESTING - 1) as nat);
    }
    lemma_array_is_item(items, d);
    lemma_array_elements_of(items);
    lemma_directives_roundtrip(r);
}

proof fn lemma_header_parts(f: HeaderFields)
    requires
        header_encodable(f),
    ensures
        forall|i: int| 0 <= i < 6 ==> is_item_at(#[trigger] header_parts(f)[i], (crate::cbor_scan::MAX_NESTING - 1) as nat),
        version_of(header_parts(f)[0]) == Some(f.0),
        bytes_of(header_parts(f)[1]) == Some(f.1),
        rv_info_of(header_parts(f)[2]) == Some(f.2),
        text_bytes_of(header_parts(f)[3]) == Some(vstd::utf8::encode_utf8(f.3)),
        f.5 is None ==> crate::cbor_scan::is_null_item(header_parts(f)[5]),
        f.5 matches Some(h) ==> !crate::cbor_scan::is_null_item(header_parts(f)[5]) && hash_pair_of(header_parts(f)[5]) == Some(h),
{
    let top: nat = (crate::cbor_scan::MAX_NESTING - 1) as nat;
    reveal_with_fuel(pow256, 9);
    let parts = header_parts(f);
    lemma_scalars_are_items(f.0.spec_code() as int, f.1, f.3, top);
    lemma_rv_roundtrip(f.2, top);
    crate::constants::lemma_protocol_version_code_roundtrip(f.0, f.0.spec_code());
    match f.5 {
        Some((t, v)) => {
            lemma_hash_roundtrip(t, v, top);
            let h = hash_encoding(t, v);
            assert(h[0] == 0x82u8);
        },
        None => {},
    }
    assert(parts[0] == cbor_int(f.0.spec_code() as int));
    assert(uint_of(parts[0]) == Some(f.0.spec_code() as nat));
}

/// Reading a written header gives back its fields, for every header a
/// reader accepts the fields of (see `header_encodable`).
pub proof fn lemma_header_roundtrip(f: HeaderFields)
    requires
        header_encodable(f),
    ensures
        header_fields_of(header_encoding(f)) == Some(f),
{
    broadcast use vstd::utf8::encode_utf8_valid_utf8, vstd::utf8::encode_utf8_decode_utf8;

    reveal_with_fuel(pow256, 9);
    lemma_header_parts(f);
    lemma_array_elements_of(header_parts(f));
    assert(vstd::utf8::decode_utf8(vstd::utf8::encode_utf8(f.3)) == f.3);
}


// ------------------------------------------------------------------
// Writers
// ------------------------------------------------------------------

pub(crate) fn write_hash(buf: &mut Vec<u8>, t: HashType, v: &[u8])
    ensures
        final(buf)@ == old(buf)@ + hash_encoding(t, v@),
{
    let ghost b0 = buf@;
    write_head(buf, 4, 2);
    write_int(buf, t.code() as i64);
    write_bytes(buf, v);
    proof {
        reveal_with_fuel(concat_all, 3);
        assert(buf@ =~= b0 + hash_encoding(t, v@));
    }
}

fn write_instr(buf: &mut Vec<u8>, x: &RendezvousDirective)
    ensures
        final(buf)@ == old(buf)@ + instr_encoding((x.key, x.value@)),
{
    let ghost b0 = buf@;
    write_head(buf, 4, 2);
    write_int(buf, x.key as i64);
    write_bytes(buf, x.value.as_slice());
    proof {
        reveal_with_fuel(concat_all, 3);
        assert(buf@ =~= b0 + instr_encoding((x.key, x.value@)));
    }
}

fn write_directive(buf: &mut Vec<u8>, d: &Vec<RendezvousDirective>)
    ensures
        final(buf)@ == old(buf)@ + directive_encoding(directive_view(d@)),
        forall|j: int| 0 <= j < d@.len() ==> (#[trigger] d@[j]).value@.len() < pow256(8),
        d@.len() < pow256(8),
{
    proof {
        reveal_with_fuel(pow256, 9);
    }
    let ghost dv = directive_view(d@);
    let ghost encs = dv.map_values(|x: (u8, Seq<u8>)| instr_encoding(x));
    let ghost b0 = buf@;
    write_head(buf, 4, d.len() as u64);
    let ghost b1 = buf@;
    let mut i: usize = 0;
    while i < d.len()
        invariant
            i <= d@.len(),
            dv == directive_view(d@),
            encs == dv.map_values(|x: (u8, Seq<u8>)| instr_encoding(x)),
            buf@ == b1 + concat_all(encs.subrange(0, i as int)),
            forall|j: int| 0 <= j < i ==> (#[trigger] d@[j]).value@.len() < pow256(8),
            pow256(8) == 0x1_0000_0000_0000_0000,
        decreases d@.len() - i,
    {
        let ghost before = buf@;
        let n = d[i].value.len();
        write_instr(buf, &d[i]);
        proof {
            assert(encs.subrange(0, i as int + 1) =~= encs.subrange(0, i as int).push(encs[i as int]));
            lemma_concat_push(encs.subrange(0, i as int), encs[i as int]);
        }
        i = i + 1;
    }
    proof {
        assert(encs.subrange(0, d@.len() as int) =~= encs);
        assert(buf@ =~= b0 + directive_encoding(dv));
    }
}

pub(crate) fn write_rv(buf: &mut Vec<u8>, rv: &RendezvousInfo)
    ensures
        final(buf)@ == old(buf)@ + rv_encoding(rv_view(*rv)),
        rv_sizes_ok(rv_view(*rv)),
{
    proof {
        reveal_with_fuel(pow256, 9);
    }
    let ghost v = rv_view(*rv);
    let ghost encs = v.map_values(|dd: Seq<(u8, Seq<u8>)>| directive_encoding(dd));
    let ghost b0 = buf@;
    write_head(buf, 4, rv.0.len() as u64);
    let ghost b1 = buf@;
    let mut i: usize = 0;
    while i < rv.0.len()
        invariant
            i <= rv.0@.len(),
            v == rv_view(*rv),
            encs == v.map_values(|dd: Seq<(u8, Seq<u8>)>| directive_encoding(dd)),
            buf@ == b1 + concat_all(encs.subrange(0, i as int)),
            forall|k: int| 0 <= k < i ==> (#[trigger] v[k]).len() < pow256(8),
            forall|k: int, j: int| 0 <= k < i && 0 <= j < v[k].len() ==> (#[trigger] v[k][j]).1.len() < pow256(8),
            pow256(8) == 0x1_0000_0000_0000_0000,
        decreases rv.0@.len() - i,
    {
        write_directive(buf, &rv.0[i]);
        proof {
            assert(v[i as int] == directive_view(rv.0@[i as int]@));
            assert(encs.subrange(0, i as int + 1) =~= encs.subrange(0, i as int).push(encs[i as int]));
            lemma_concat_push(encs.subrange(0, i as int), encs[i as int]);
            assert forall|k: int, j: int| 0 <= k < i + 1 && 0 <= j < v[k].len() implies (#[trigger] v[k][j]).1.len() < pow256(8) by {
                if k == i {
                    assert(v[k][j] == (rv.0@[i as int]@[j].key, rv.0@[i as int]@[j].value@));
                }
            }
        }
        i = i + 1;
    }
    proof {
        assert(encs.subrange(0, rv.0@.len() as int) =~= encs);
        assert(buf@ =~= b0 + rv_encoding(v));
    }
}

impl OwnershipVoucherHeader {
    fn encode(&self) -> (r: Vec<u8>)
        ensures
            r@ == header_encoding(header_view(*self)),
            rv_sizes_ok(rv_view(self.rendezvous_info)),
            vstd::utf8::encode_utf8(self.device_info@).len() < pow256(8),
            self.device_certificate_chain_hash matches Some(h) ==> h.value@.len() < pow256(8),
    {
        proof {
            reveal_with_fuel(pow256, 9);
        }
        let ghost f = header_view(*self);
        let ghost parts = header_parts(f);
        let mut buf: Vec<u8> = Vec::new();
        write_head(&mut buf, 4, 6);
        let ghost b1 = buf@;
        proof {
            assert(parts.subrange(0, 0) =~= Seq::<Seq<u8>>::empty());
            assert(buf@ =~= b1 + concat_all(parts.subrange(0, 0)));
        }
        write_int(&mut buf, self.protocol_version.code() as i64);
        proof {
            lemma_concat_push(parts.subrange(0, 0), parts[0]);
            assert(parts.subrange(0, 1) =~= parts.subrange(0, 0).push(parts[0]));
        }
        write_bytes(&mut buf, self.guid.0.as_slice());
        proof {
            lemma_concat_push(parts.subrange(0, 1), parts[1]);
            assert(parts.subrange(0, 2) =~= parts.subrange(0, 1).push(parts[1]));
        }
        write_rv(&mut buf, &self.rendezvous_info);
        proof {
            lemma_concat_push(parts.subrange(0, 2), parts[2]);
            assert(parts.subrange(0, 3) =~= parts.subrange(0, 2).push(parts[2]));
        }
        let info_len = self.device_info.as_str().as_bytes().len();
        write_text(&mut buf, self.device_info.as_str());
        proof {
            lemma_concat_push(parts.subrange(0, 3), parts[3]);
            assert(parts.subrange(0, 4) =~= parts.subrange(0, 3).push(parts[3]));
        }
        crate::csr::append_bytes(&mut buf, self.manufacturer_public_key.encoded.as_slice());
        proof {
            lemma_concat_push(parts.subrange(0, 4), parts[4]);
            assert(parts.subrange(0, 5) =~= parts.subrange(0, 4).push(parts[4]));
        }
        match &self.device_certificate_chain_hash {
            Some(h) => {
                let n = h.value.len();
                write_hash(&mut buf, h.hash_type, h.value.as_slice());
            },
            None => {
                write_null(&mut buf);
            },
        }
        proof {
            lemma_concat_push(parts.subrange(0, 5), parts[5]);
            assert(parts.subrange(0, 6) =~= parts.subrange(0, 5).push(parts[5]));
            assert(parts.subrange(0, 6) =~= parts);
            assert(buf@ =~= header_encoding(f));
        }
        buf
    }

    /// The header's CBOR encoding. The device info must be made of
    /// acceptable characters, and the manufacturer key be one well-formed
    /// item.
    pub fn to_cbor(&self) -> (r: Result<Vec<u8>, Error>)
        ensures
            r is Ok <==> (device_info_ok(self.device_info@) && is_item_at(
                self.manufacturer_public_key.encoded@,
                (crate::cbor_scan::MAX_NESTING - 1) as nat,
            )),
            r matches Ok(b) ==> b@ == header_encoding(header_view(*self)) && header_encodable(
                header_view(*self),
            ),
    {
        proof {
            reveal_with_fuel(pow256, 9);
        }
        if check_device_info(self.device_info.as_str()).is_err() {
            return Err(Error::new("Invalid values in Device Info"));
        }
        let key = self.manufacturer_public_key.encoded.as_slice();
        match crate::cbor_scan::item_len_at(key, 0, crate::cbor_scan::MAX_NESTING - 1) {
            Some(n) => {
                if n != key.len() {
                    proof {
                        assert(key@.subrange(0, key@.len() as int) =~= key@);
                    }
                    return Err(Error::new("Manufacturer public key is not one CBOR item"));
                }
            },
            None => {
                proof {
                    assert(key@.subrange(0, key@.len() as int) =~= key@);
                }
                return Err(Error::new("Manufacturer public key is not one CBOR item"));
            },
        }
        proof {
            assert(key@.subrange(0, key@.len() as int) =~= key@);
        }
        let buf = self.encode();
        Ok(buf)
    }
}


// ------------------------------------------------------------------
// Building vouchers
// ------------------------------------------------------------------

/// The encodings of a voucher's items, in order.
pub open spec fn voucher_parts(
    pv: ProtocolVersion,
    header: Seq<u8>,
    hmac_raw: Seq<u8>,
    chain: Option<Seq<u8>>,
    entries: Seq<Seq<u8>>,
) -> Seq<Seq<u8>> {
    seq![
        cbor_int(pv.spec_code() as int),
        cbor_bytes(header),
        hmac_raw,
        match chain {
            Some(c) => c,
            None => cbor_null(),
        },
        cbor_array(entries),
    ]
}

proof fn lemma_chain_not_null(c: Seq<u8>)
    requires
        is_cert_chain(c),
    ensures
        !crate::cbor_scan::is_null_item(c),
{
    let (major, arg, hl) = crate::cbor_scan::cbor_head_of(c).unwrap();
    if c == seq![0xf6u8] {
        assert(c[0] / 32 == 7);
    }
}

#[verifier::rlimit(60)]
#[verifier::spinoff_prover]
proof fn lemma_voucher_roundtrip(
    pv: ProtocolVersion,
    header: Seq<u8>,
    hmac_raw: Seq<u8>,
    chain: Option<Seq<u8>>,
    entries: Seq<Seq<u8>>,
)
    requires
        header.len() < pow256(8),
        hash_pair_of(hmac_raw) is Some,
        entries.len() < pow256(8),
        header_fields_of(header) is Some,
        chain matches Some(c) ==> is_cert_chain(c),
        forall|i: int| 0 <= i < entries.len() ==> is_item_at(#[trigger] entries[i], (crate::cbor_scan::MAX_NESTING - 2) as nat),
    ensures
        voucher_fields_of(cbor_array(voucher_parts(pv, header, hmac_raw, chain, entries))) == Some(
            (pv, header, hash_pair_of(hmac_raw).unwrap(), hmac_raw, chain, entries),
        ),
{
    let top: nat = (crate::cbor_scan::MAX_NESTING - 1) as nat;
    let parts = voucher_parts(pv, header, hmac_raw, chain, entries);
    reveal_with_fuel(pow256, 9);
    lemma_scalars_are_items(pv.spec_code() as int, header, Seq::empty(), top);
    let hp = array_elements(hmac_raw).unwrap();
    assert forall|i: int| 0 <= i < hp.len() implies is_item_at(#[trigger] hp[i], (top - 1) as nat) by {
        if i == 1 {
            lemma_bytes_item(hp[i], (top - 1) as nat);
        }
    }
    lemma_elements_make_item(hmac_raw, top);
    match chain {
        Some(c) => {
            let certs = array_elements(c).unwrap();
            assert forall|i: int| 0 <= i < certs.len() implies is_item_at(#[trigger] certs[i], (top - 1) as nat) by {
                lemma_bytes_item(certs[i], (top - 1) as nat);
            }
            lemma_elements_make_item(c, top);
            lemma_chain_not_null(c);
        },
        None => {},
    }
    lemma_array_is_item(entries, top);
    assert forall|i: int| 0 <= i < entries.len() implies is_item_at(#[trigger] entries[i], top) by {
        lemma_item_deeper(entries[i], (top - 1) as nat, top);
    }
    lemma_array_elements_of(entries);
    assert forall|i: int| 0 <= i < parts.len() implies is_item_at(#[trigger] parts[i], top) by {}
    lemma_array_elements_of(parts);
    crate::constants::lemma_protocol_version_code_roundtrip(pv, pv.spec_code());
    assert(uint_of(parts[0]) == Some(pv.spec_code() as nat));
}

fn write_entries(buf: &mut Vec<u8>, entries: &Vec<Vec<u8>>)
    ensures
        final(buf)@ == old(buf)@ + cbor_array(parts_view(entries@)),
        entries@.len() < pow256(8),
{
    proof {
        reveal_with_fuel(pow256, 9);
    }
    let ghost ev = parts_view(entries@);
    let ghost b0 = buf@;
    write_head(buf, 4, entries.len() as u64);
    let ghost b2 = buf@;
    let mut i: usize = 0;
    while i < entries.len()
        invariant
            i <= entries@.len(),
            ev == parts_view(entries@),
            buf@ == b2 + concat_all(ev.subrange(0, i as int)),
        decreases entries@.len() - i,
    {
        crate::csr::append_bytes(buf, entries[i].as_slice());
        proof {
            lemma_concat_push(ev.subrange(0, i as int), ev[i as int]);
            assert(ev.subrange(0, i as int + 1) =~= ev.subrange(0, i as int).push(ev[i as int]));
        }
        i = i + 1;
    }
    proof {
        assert(ev.subrange(0, ev.len() as int) =~= ev);
        assert(buf@ =~= b0 + cbor_array(ev));
    }
}

fn encode_voucher(
    protocol_version: ProtocolVersion,
    header_raw: &Vec<u8>,
    header_hmac_raw: &Vec<u8>,
    chain: &Option<Vec<u8>>,
    entries: &Vec<Vec<u8>>,
) -> (r: Vec<u8>)
    ensures
        r@ == cbor_array(
            voucher_parts(
                protocol_version,
                header_raw@,
                header_hmac_raw@,
                opt_bytes_view(*chain),
                parts_view(entries@),
            ),
        ),
        header_raw@.len() < pow256(8),
        entries@.len() < pow256(8),
{
    proof {
        reveal_with_fuel(pow256, 9);
    }
    let ghost parts = voucher_parts(
        protocol_version,
        header_raw@,
        header_hmac_raw@,
        opt_bytes_view(*chain),
        parts_view(entries@),
    );
    let mut raw: Vec<u8> = Vec::new();
    write_head(&mut raw, 4, 5);
    proof {
        assert(parts.subrange(0, 0) =~= Seq::<Seq<u8>>::empty());
    }
    write_int(&mut raw, protocol_version.code() as i64);
    proof {
        lemma_concat_push(parts.subrange(0, 0), parts[0]);
        assert(parts.subrange(0, 1) =~= parts.subrange(0, 0).push(parts[0]));
    }
    let hl = header_raw.len();
    write_bytes(&mut raw, header_raw.as_slice());
    proof {
        lemma_concat_push(parts.subrange(0, 1), parts[1]);
        assert(parts.subrange(0, 2) =~= parts.subrange(0, 1).push(parts[1]));
    }
    crate::csr::append_bytes(&mut raw, header_hmac_raw.as_slice());
    proof {
        lemma_concat_push(parts.subrange(0, 2), parts[2]);
        assert(parts.subrange(0, 3) =~= parts.subrange(0, 2).push(parts[2]));
    }
    match chain {
        Some(c) => {
            crate::csr::append_bytes(&mut raw, c.as_slice());
        },
        None => {
            write_null(&mut raw);
        },
    }
    proof {
        lemma_concat_push(parts.subrange(0, 3), parts[3]);
        assert(parts.subrange(0, 4) =~= parts.subrange(0, 3).push(parts[3]));
    }
    write_entries(&mut raw, entries);
    proof {
        lemma_concat_push(parts.subrange(0, 4), parts[4]);
        assert(parts.subrange(0, 5) =~= parts.subrange(0, 4).push(parts[4]));
        assert(parts.subrange(0, 5) =~= parts);
    }
    raw
}

fn assemble_voucher(
    protocol_version: ProtocolVersion,
    header_raw: Vec<u8>,
    header: OwnershipVoucherHeader,
    header_hmac: HMac,
    header_hmac_raw: Vec<u8>,
    chain: Option<Vec<u8>>,
    entries: Vec<Vec<u8>>,
) -> (r: OwnershipVoucher)
    requires
        header_fields_of(header_raw@) == Some(header_view(header)),
        hash_pair_of(header_hmac_raw@) == Some((header_hmac.hash_type, header_hmac.value@)),
        chain matches Some(c) ==> is_cert_chain(c@),
        forall|i: int| 0 <= i < entries@.len() ==> is_item_at(#[trigger] entries@[i]@, (crate::cbor_scan::MAX_NESTING - 2) as nat),
    ensures
        r.wf(),
        r.protocol_version == protocol_version,
        r.header_raw@ == header_raw@,
        r.header == header,
        r.header_hmac == header_hmac,
        r.header_hmac_raw == header_hmac_raw,
        r.device_certificate_chain == chain,
        r.entries == entries,
{
    let raw = encode_voucher(protocol_version, &header_raw, &header_hmac_raw, &chain, &entries);
    proof {
        let ev = parts_view(entries@);
        assert forall|i: int| 0 <= i < ev.len() implies is_item_at(#[trigger] ev[i], (crate::cbor_scan::MAX_NESTING - 2) as nat) by {
            assert(ev[i] == entries@[i]@);
        }
        lemma_voucher_roundtrip(
            protocol_version,
            header_raw@,
            header_hmac_raw@,
            opt_bytes_view(chain),
            ev,
        );
    }
    OwnershipVoucher {
        raw,
        protocol_version,
        header_raw,
        header,
        header_hmac,
        header_hmac_raw,
        device_certificate_chain: chain,
        entries,
    }
}


fn hmac_encoding(h: &HMac) -> (r: Vec<u8>)
    ensures
        r@ == hash_encoding(h.hash_type, h.value@),
        hash_pair_of(r@) == Some((h.hash_type, h.value@)),
{
    proof {
        reveal_with_fuel(pow256, 9);
    }
    let n = h.value.len();
    let mut r: Vec<u8> = Vec::new();
    write_hash(&mut r, h.hash_type, h.value.as_slice());
    proof {
        lemma_hash_roundtrip(h.hash_type, h.value@, 1);
    }
    r
}

/// Every entry is one well-formed item, nested as deep as an entry of a
/// voucher may be.
pub open spec fn entries_are_items(entries: Seq<Seq<u8>>) -> bool {
    forall|i: int| 0 <= i < entries.len() ==> is_item_at(#[trigger] entries[i], (crate::cbor_scan::MAX_NESTING - 2) as nat)
}

fn check_entries(entries: &Vec<Vec<u8>>) -> (r: bool)
    ensures
        r == entries_are_items(parts_view(entries@)),
{
    let ghost ev = parts_view(entries@);
    let mut i: usize = 0;
    while i < entries.len()
        invariant
            i <= entries@.len(),
            ev == parts_view(entries@),
            forall|j: int| 0 <= j < i ==> is_item_at(#[trigger] ev[j], (crate::cbor_scan::MAX_NESTING - 2) as nat),
        decreases entries@.len() - i,
    {
        let e = entries[i].as_slice();
        proof {
            assert(e@.subrange(0, e@.len() as int) =~= e@);
            assert(ev[i as int] == e@);
        }
        match crate::cbor_scan::item_len_at(e, 0, crate::cbor_scan::MAX_NESTING - 2) {
            Some(n) => {
                if n != e.len() {
                    return false;
                }
            },
            None => {
                return false;
            },
        }
        i = i + 1;
    }
    true
}

impl OwnershipVoucher {
    /// A new voucher (protocol version 1.1) for `header`, with its HMAC and
    /// the device certificate chain (if any), and no entries yet. The
    /// header must be writable and the chain an array of certificates.
    pub fn new(header: OwnershipVoucherHeader, header_hmac: HMac, device_certificate_chain: Option<Vec<u8>>) -> (r: Result<OwnershipVoucher, Error>)
        ensures
            r is Ok <==> (device_info_ok(header.device_info@) && is_item_at(
                header.manufacturer_public_key.encoded@,
                (crate::cbor_scan::MAX_NESTING - 1) as nat,
            ) && (device_certificate_chain matches Some(c) ==> is_cert_chain(c@))),
            r matches Ok(ov) ==> {
                &&& ov.wf()
                &&& ov.protocol_version == ProtocolVersion::Version1_1
                &&& ov.header == header
                &&& ov.header_raw@ == header_encoding(header_view(header))
                &&& ov.header_hmac == header_hmac
                &&& opt_bytes_view(ov.device_certificate_chain) == opt_bytes_view(device_certificate_chain)
                &&& ov.entries@.len() == 0
            },
    {
        let header_raw = header.to_cbor()?;
        if let Some(c) = &device_certificate_chain {
            if !check_cert_chain(c.as_slice()) {
                return Err(Error::new("Invalid device certificate chain"));
            }
        }
        proof {
            lemma_header_roundtrip(header_view(header));
        }
        let hmac_raw = hmac_encoding(&header_hmac);
        let entries: Vec<Vec<u8>> = Vec::new();
        let ov = assemble_voucher(
            ProtocolVersion::Version1_1,
            header_raw,
            header,
            header_hmac,
            hmac_raw,
            device_certificate_chain,
            entries,
        );
        Ok(ov)
    }

    /// A voucher put together from its parts, as received during TO2: the
    /// protocol version, the header's encoding, its HMAC and the entries'
    /// encodings. It has no device certificate chain.
    pub fn from_parts(protocol_version: ProtocolVersion, header: &[u8], header_hmac: HMac, entries: Vec<Vec<u8>>) -> (r: Result<OwnershipVoucher, Error>)
        ensures
            r is Ok <==> (header_fields_of(header@) is Some && entries_are_items(parts_view(entries@))),
            r matches Ok(ov) ==> {
                &&& ov.wf()
                &&& ov.protocol_version == protocol_version
                &&& ov.header_raw@ == header@
                &&& ov.header_hmac == header_hmac
                &&& ov.device_certificate_chain is None
                &&& parts_view(ov.entries@) == parts_view(entries@)
            },
    {
        let hdr = OwnershipVoucherHeader::from_cbor(header)?;
        if !check_entries(&entries) {
            return Err(Error::new("Ownership voucher entry is not one CBOR item"));
        }
        proof {
            let ev = parts_view(entries@);
            assert forall|i: int| 0 <= i < entries@.len() implies is_item_at(#[trigger] entries@[i]@, (crate::cbor_scan::MAX_NESTING - 2) as nat) by {
                assert(ev[i] == entries@[i]@);
            }
        }
        let hmac_raw = hmac_encoding(&header_hmac);
        let ov = assemble_voucher(
            protocol_version,
            vstd::slice::slice_to_vec(header),
            hdr,
            header_hmac,
            hmac_raw,
            None,
            entries,
        );
        Ok(ov)
    }
}


impl OwnershipVoucherEntry {
    /// Read an entry from its encoding: a COSE_Sign1 structure (optionally
    /// behind tag 18) with a payload.
    pub fn from_cbor(data: &[u8]) -> (r: Result<OwnershipVoucherEntry, Error>)
        ensures
            r is Ok <==> cose_payload_of(data@) is Some,
            r matches Ok(e) ==> e.0.0@ == data@,
    {
        match read_cose_payload(data) {
            Some(_) => Ok(OwnershipVoucherEntry(COSESign(vstd::slice::slice_to_vec(data)))),
            None => Err(Error::new("Not a COSE_Sign1 structure")),
        }
    }

    /// The entry's encoding.
    pub fn to_cbor(&self) -> (r: Vec<u8>)
        ensures
            r@ == self.0.0@,
    {
        copy_bytes(&self.0.0)
    }
}


// ------------------------------------------------------------------
// Reading and writing through one interface
// ------------------------------------------------------------------

/// Values kept in their CBOR encoding.
pub trait Serializable: Sized {
    /// Read a value from its encoding.
    fn deserialize_data(data: &[u8]) -> Result<Self, Error>;

    /// The value's encoding.
    fn serialize_data(&self) -> Result<Vec<u8>, Error>;
}

impl Serializable for OwnershipVoucher {
    fn deserialize_data(data: &[u8]) -> (r: Result<OwnershipVoucher, Error>)
        ensures
            r is Ok <==> voucher_fields_of(data@) is Some,
            r matches Ok(ov) ==> ov.wf() && ov.raw@ == data@,
    {
        OwnershipVoucher::from_cbor(data)
    }

    fn serialize_data(&self) -> (r: Result<Vec<u8>, Error>)
        ensures
            r matches Ok(b) && b@ == self.raw@,
    {
        Ok(self.to_cbor())
    }
}

impl Serializable for OwnershipVoucherHeader {
    fn deserialize_data(data: &[u8]) -> (r: Result<OwnershipVoucherHeader, Error>)
        ensures
            r is Ok <==> header_fields_of(data@) is Some,
            r matches Ok(hdr) ==> header_fields_of(data@) == Some(header_view(hdr)),
    {
        OwnershipVoucherHeader::from_cbor(data)
    }

    fn serialize_data(&self) -> (r: Result<Vec<u8>, Error>)
        ensures
            r is Ok <==> (device_info_ok(self.device_info@) && is_item_at(
                self.manufacturer_public_key.encoded@,
                (crate::cbor_scan::MAX_NESTING - 1) as nat,
            )),
            r matches Ok(b) ==> b@ == header_encoding(header_view(*self)),
    {
        self.to_cbor()
    }
}

impl Serializable for OwnershipVoucherEntry {
    fn deserialize_data(data: &[u8]) -> (r: Result<OwnershipVoucherEntry, Error>)
        ensures
            r is Ok <==> cose_payload_of(data@) is Some,
            r matches Ok(e) ==> e.0.0@ == data@,
    {
        OwnershipVoucherEntry::from_cbor(data)
    }

    fn serialize_data(&self) -> (r: Result<Vec<u8>, Error>)
        ensures
            r matches Ok(b) && b@ == self.0.0@,
    {
        Ok(self.to_cbor())
    }
}


// ------------------------------------------------------------------
// Extending vouchers
// ------------------------------------------------------------------

/// The encoding of an entry payload's fields.
pub open spec fn entry_payload_encoding(f: EntryPayloadFields) -> Seq<u8> {
    cbor_array(
        seq![
            hash_encoding(f.0.0, f.0.1),
            hash_encoding(f.1.0, f.1.1),
            opt_bytes_encoding(f.2),
            f.3,
        ],
    )
}

/// The encoding of optional bytes: a byte string, or null.
pub open spec fn opt_bytes_encoding(o: Option<Seq<u8>>) -> Seq<u8> {
    match o {
        Some(x) => cbor_bytes(x),
        None => cbor_null(),
    }
}

/// Entry payload fields a writer can write and a reader gives back: sizes
/// a head can state, and a public key that is one well-formed item.
pub open spec fn entry_payload_encodable(f: EntryPayloadFields) -> bool {
    &&& f.0.1.len() < pow256(8)
    &&& f.1.1.len() < pow256(8)
    &&& (f.2 matches Some(x) ==> x.len() < pow256(8))
    &&& is_item_at(f.3, (crate::cbor_scan::MAX_NESTING - 1) as nat)
}

/// Reading a written entry payload gives back its fields.
pub proof fn lemma_entry_payload_roundtrip(f: EntryPayloadFields)
    requires
        entry_payload_encodable(f),
    ensures
        entry_payload_of(entry_payload_encoding(f)) == Some(f),
{
    let top: nat = (crate::cbor_scan::MAX_NESTING - 1) as nat;
    reveal_with_fuel(pow256, 9);
    let parts = seq![hash_encoding(f.0.0, f.0.1), hash_encoding(f.1.0, f.1.1), opt_bytes_encoding(f.2), f.3];
    lemma_hash_roundtrip(f.0.0, f.0.1, top);
    lemma_hash_roundtrip(f.1.0, f.1.1, top);
    match f.2 {
        Some(x) => {
            lemma_scalars_are_items(0, x, Seq::empty(), top);
            assert(!crate::cbor_scan::is_null_item(cbor_bytes(x))) by {
                assert(cbor_bytes(x)[0] / 32 == 2);
            }
        },
        None => {
            lemma_scalars_are_items(0, Seq::empty(), Seq::empty(), top);
        },
    }
    assert forall|i: int| 0 <= i < parts.len() implies is_item_at(#[trigger] parts[i], top) by {}
    lemma_array_elements_of(parts);
    assert(entry_payload_encoding(f) == cbor_array(parts));
}

impl OwnershipVoucherEntryPayload {
    /// The payload's encoding. The public key must be one well-formed item.
    pub fn to_cbor(&self) -> (r: Result<Vec<u8>, Error>)
        ensures
            r is Ok <==> is_item_at(self.public_key.encoded@, (crate::cbor_scan::MAX_NESTING - 1) as nat),
            r matches Ok(b) ==> b@ == entry_payload_encoding(entry_payload_view(*self)) && entry_payload_of(b@)
                == Some(entry_payload_view(*self)),
    {
        proof {
            reveal_with_fuel(pow256, 9);
        }
        let key = self.public_key.encoded.as_slice();
        proof {
            assert(key@.subrange(0, key@.len() as int) =~= key@);
        }
        match crate::cbor_scan::item_len_at(key, 0, crate::cbor_scan::MAX_NESTING - 1) {
            Some(n) => {
                if n != key.len() {
                    return Err(Error::new("Public key is not one CBOR item"));
                }
            },
            None => {
                return Err(Error::new("Public key is not one CBOR item"));
            },
        }
        let ghost f = entry_payload_view(*self);
        let ghost parts = seq![
            hash_encoding(f.0.0, f.0.1),
            hash_encoding(f.1.0, f.1.1),
            opt_bytes_encoding(f.2),
            f.3,
        ];
        let mut buf: Vec<u8> = Vec::new();
        write_head(&mut buf, 4, 4);
        proof {
            assert(parts.subrange(0, 0) =~= Seq::<Seq<u8>>::empty());
        }
        let l1 = self.hash_previous_entry.value.len();
        write_hash(&mut buf, self.hash_previous_entry.hash_type, self.hash_previous_entry.value.as_slice());
        proof {
            lemma_concat_push(parts.subrange(0, 0), parts[0]);
            assert(parts.subrange(0, 1) =~= parts.subrange(0, 0).push(parts[0]));
        }
        let l2 = self.hash_header_info.value.len();
        write_hash(&mut buf, self.hash_header_info.hash_type, self.hash_header_info.value.as_slice());
        proof {
            lemma_concat_push(parts.subrange(0, 1), parts[1]);
            assert(parts.subrange(0, 2) =~= parts.subrange(0, 1).push(parts[1]));
        }
        match &self.extra {
            Some(x) => {
                let l3 = x.len();
                write_bytes(&mut buf, x.as_slice());
            },
            None => {
                write_null(&mut buf);
            },
        }
        proof {
            lemma_concat_push(parts.subrange(0, 2), parts[2]);
            assert(parts.subrange(0, 3) =~= parts.subrange(0, 2).push(parts[2]));
        }
        crate::csr::append_bytes(&mut buf, key);
        proof {
            lemma_concat_push(parts.subrange(0, 3), parts[3]);
            assert(parts.subrange(0, 4) =~= parts.subrange(0, 3).push(parts[3]));
            assert(parts.subrange(0, 4) =~= parts);
            assert(buf@ =~= entry_payload_encoding(f));
            lemma_entry_payload_roundtrip(f);
        }
        Ok(buf)
    }
}

/// The plain hash type a voucher's entries use: the one inside its header
/// HMAC's algorithm.
pub open spec fn voucher_hash_type(ov: OwnershipVoucher) -> HashType {
    match ov.header_hmac.hash_type {
        HashType::HmacSha256 | HashType::Sha256 => HashType::Sha256,
        HashType::HmacSha384 | HashType::Sha384 => HashType::Sha384,
    }
}

impl OwnershipVoucher {
    /// The plain hash type the voucher's entries use.
    pub fn hash_type(&self) -> (r: HashType)
        ensures
            r == voucher_hash_type(*self),
    {
        match self.header_hmac.hash_type {
            HashType::HmacSha256 | HashType::Sha256 => HashType::Sha256,
            HashType::HmacSha384 | HashType::Sha384 => HashType::Sha384,
        }
    }

    /// The public key of the current owner: the manufacturer's key while the
    /// voucher has no entries, else the key its last entry names.
    pub fn current_owner_public_key(&self) -> (r: Result<PublicKey, Error>)
        ensures
            self.entries@.len() == 0 ==> (r matches Ok(k) && k.encoded@ == self.header.manufacturer_public_key.encoded@),
            self.entries@.len() > 0 ==> {
                let last = self.entries@[self.entries@.len() - 1]@;
                &&& r is Ok <==> (cose_payload_of(last) matches Some(pl) && entry_payload_of(pl) is Some)
                &&& r matches Ok(k) ==> (cose_payload_of(last) matches Some(pl) && entry_payload_of(pl) matches Some(f)
                    && k.encoded@ == f.3)
            },
    {
        if self.entries.len() == 0 {
            return Ok(PublicKey { encoded: copy_bytes(&self.header.manufacturer_public_key.encoded) });
        }
        let last = self.entries.len() - 1;
        let pl = match read_cose_payload(self.entries[last].as_slice()) {
            Some(pl) => pl,
            None => {
                return Err(Error::new("Last ownership voucher entry is not a COSE_Sign1 structure"));
            },
        };
        let payload = OwnershipVoucherEntryPayload::from_cbor(pl.as_slice())?;
        Ok(PublicKey { encoded: copy_bytes(&payload.public_key.encoded) })
    }

    /// The payload of the entry that transfers ownership to `next_party`:
    /// it links to the last entry (or to the header) and to the header info,
    /// with the voucher's hash type. Extra data needs protocol version 1.1
    /// or later. The caller signs it with the current owner's key and
    /// appends the signed entry.
    pub fn extend_payload(&self, extra: Option<Vec<u8>>, next_party: &PublicKey) -> (r: Result<OwnershipVoucherEntryPayload, Error>)
        ensures
            (extra is Some && self.protocol_version.spec_code() < 101) ==> r is Err,
            (!(extra is Some && self.protocol_version.spec_code() < 101) && openssl_digest(
                voucher_hash_type(*self),
                prev_hash_input(*self, self.entries@.len() as int),
            ) is Some && openssl_digest(voucher_hash_type(*self), hdr_info_input(*self)) is Some) ==> r is Ok,
            r matches Ok(p) ==> {
                let t = voucher_hash_type(*self);
                &&& p.hash_previous_entry.hash_type == t
                &&& openssl_digest(t, prev_hash_input(*self, self.entries@.len() as int)) == Some(p.hash_previous_entry.value@)
                &&& p.hash_header_info.hash_type == t
                &&& openssl_digest(t, hdr_info_input(*self)) == Some(p.hash_header_info.value@)
                &&& opt_bytes_view(p.extra) == opt_bytes_view(extra)
                &&& p.public_key.encoded@ == next_party.encoded@
            },
    {
        if extra.is_some() && self.protocol_version.code() < 101 {
            return Err(Error::new("Extra data needs protocol version 1.1 or later"));
        }
        let t = self.hash_type();
        let mut info = vstd::slice::slice_to_vec(self.header.guid.0.as_slice());
        crate::csr::append_bytes(&mut info, self.header.device_info.as_str().as_bytes());
        let hdrinfo_hash = crate::types::Hash::from_data(t, info.as_slice())?;
        let last_hash = if self.entries.len() == 0 {
            self.hdr_hash(t)?
        } else {
            crate::types::Hash::from_data(t, self.entries[self.entries.len() - 1].as_slice())?
        };
        Ok(OwnershipVoucherEntryPayload {
            hash_previous_entry: last_hash,
            hash_header_info: hdrinfo_hash,
            extra,
            public_key: PublicKey { encoded: copy_bytes(&next_party.encoded) },
        })
    }

    /// Append a signed entry (its encoding). The voucher stays well formed;
    /// every entry must be one well-formed item.
    pub fn append_entry(&mut self, entry: Vec<u8>) -> (r: Result<(), Error>)
        requires
            old(self).wf(),
        ensures
            r is Ok <==> entries_are_items(parts_view(old(self).entries@).push(entry@)),
            r is Ok ==> {
                &&& final(self).wf()
                &&& parts_view(final(self).entries@) == parts_view(old(self).entries@).push(entry@)
                &&& final(self).protocol_version == old(self).protocol_version
                &&& final(self).header == old(self).header
                &&& final(self).header_raw == old(self).header_raw
                &&& final(self).header_hmac == old(self).header_hmac
                &&& final(self).header_hmac_raw == old(self).header_hmac_raw
                &&& final(self).device_certificate_chain == old(self).device_certificate_chain
            },
            r is Err ==> *final(self) == *old(self),
    {
        let mut entries: Vec<Vec<u8>> = Vec::new();
        let mut i: usize = 0;
        while i < self.entries.len()
            invariant
                i <= self.entries@.len(),
                parts_view(entries@) == parts_view(self.entries@).subrange(0, i as int),
            decreases self.entries@.len() - i,
        {
            let ghost before = entries@;
            let c = copy_bytes(&self.entries[i]);
            entries.push(c);
            proof {
                assert(parts_view(self.entries@)[i as int] == self.entries@[i as int]@);
                assert(parts_view(entries@) =~= parts_view(before).push(c@));
                assert(parts_view(entries@) =~= parts_view(self.entries@).subrange(0, i as int + 1));
            }
            i = i + 1;
        }
        let ghost before = entries@;
        entries.push(entry);
        proof {
            assert(parts_view(self.entries@).subrange(0, self.entries@.len() as int) =~= parts_view(self.entries@));
            assert(parts_view(entries@) =~= parts_view(old(self).entries@).push(entry@));
        }
        if !check_entries(&entries) {
            return Err(Error::new("Ownership voucher entry is not one CBOR item"));
        }
        let ghost fields = old(self).fields();
        let raw = encode_voucher(
            self.protocol_version,
            &self.header_raw,
            &self.header_hmac_raw,
            &self.device_certificate_chain,
            &entries,
        );
        proof {
            let ev = parts_view(entries@);
            let p = array_elements(old(self).raw@).unwrap();
            assert(p[2] == old(self).header_hmac_raw@);
            assert(hash_pair_of(old(self).header_hmac_raw@) == Some(
                (old(self).header_hmac.hash_type, old(self).header_hmac.value@),
            ));
            match old(self).device_certificate_chain {
                Some(c) => {
                    assert(opt_bytes_view(old(self).device_certificate_chain) == Some(c@));
                    assert(p[3] == c@);
                    if crate::cbor_scan::is_null_item(p[3]) {
                        assert(fields.4 is None);
                    }
                    assert(is_cert_chain(c@));
                },
                None => {},
            }
            lemma_voucher_roundtrip(
                old(self).protocol_version,
                old(self).header_raw@,
                old(self).header_hmac_raw@,
                opt_bytes_view(old(self).device_certificate_chain),
                ev,
            );
        }
        self.raw = raw;
        self.entries = entries;
        Ok(())
    }
}

/// What `extend_payload` gives, once signed into an entry and appended
/// with `append_entry`, passes the check a walk over the entries makes:
/// its payload reads back, links to the entry before it (or to the header)
/// and to the header info.
pub proof fn lemma_extended_entry_passes(
    ov: OwnershipVoucher,
    ov2: OwnershipVoucher,
    f: EntryPayloadFields,
    entry: Seq<u8>,
)
    requires
        ov2.header == ov.header,
        ov2.header_raw@ == ov.header_raw@,
        ov2.header_hmac_raw@ == ov.header_hmac_raw@,
        parts_view(ov2.entries@) == parts_view(ov.entries@).push(entry),
        f.0.0 == voucher_hash_type(ov),
        openssl_digest(voucher_hash_type(ov), prev_hash_input(ov, ov.entries@.len() as int)) == Some(f.0.1),
        f.1.0 == voucher_hash_type(ov),
        openssl_digest(voucher_hash_type(ov), hdr_info_input(ov)) == Some(f.1.1),
        entry_payload_encodable(f),
        cose_payload_of(entry) == Some(entry_payload_encoding(f)),
    ensures
        ov2.entries@[ov.entries@.len() as int]@ == entry,
        entry_payload_of(cose_payload_of(entry).unwrap()) == Some(f),
        entry_links_ok(ov2, ov.entries@.len() as int, f),
{
    let n = ov.entries@.len() as int;
    assert(parts_view(ov2.entries@).len() == ov2.entries@.len());
    assert(parts_view(ov.entries@).len() == ov.entries@.len());
    assert(parts_view(ov2.entries@)[n] == ov2.entries@[n]@);
    if n > 0 {
        assert(parts_view(ov2.entries@)[n - 1] == ov2.entries@[n - 1]@);
        assert(parts_view(ov.entries@)[n - 1] == ov.entries@[n - 1]@);
    }
    lemma_entry_payload_roundtrip(f);
}

/// The COSE signature algorithm an FDO public key `k` (`[type, encoding,
/// body]`) signs with: ES256 (-7) for a SECP256R1 key (type 10), ES384
/// (-35) for a SECP384R1 key (type 11).
pub open spec fn key_sig_alg(k: Seq<u8>) -> Option<i8> {
    match array_elements(k) {
        Some(p) => if p.len() == 3 {
            match uint_of(p[0]) {
                Some(t) => if t == 10 {
                    Some(-7i8)
                } else if t == 11 {
                    Some(-35i8)
                } else {
                    None
                },
                None => None,
            }
        } else {
            None
        },
        None => None,
    }
}

fn read_key_sig_alg(k: &[u8]) -> (r: Option<i8>)
    ensures
        r == key_sig_alg(k@),
{
    let p = match split_array(k) {
        Some(p) => p,
        None => {
            return None;
        },
    };
    if p.len() != 3 {
        return None;
    }
    proof {
        assert(parts_view(p@)[0] == p@[0]@);
    }
    match read_uint(p[0].as_slice()) {
        Some(t) => if t == 10 {
            Some(-7i8)
        } else if t == 11 {
            Some(-35i8)
        } else {
            None
        },
        None => None,
    }
}

impl OwnershipVoucher {
    /// Hand the voucher on to `next_party`: the current owner, holding the
    /// private key `owner_private_key_der` (DER), signs the entry payload
    /// `extend_payload` builds and the signed entry is appended.
    ///
    /// The key must be the current owner's: its public half (as OpenSSL
    /// derives it) must be the SubjectPublicKeyInfo of the owner's key,
    /// which must be a P-256 or P-384 key; otherwise the voucher is left as
    /// it is. The entry is a COSE_Sign1 behind tag 18 whose protected
    /// header names ES256 or ES384 by the owner's key type, with no
    /// external AAD, and whose signature has the halves of that algorithm's
    /// width. OpenSSL may fail at deriving, hashing or signing, which
    /// leaves the voucher as it is too.
    #[verifier::rlimit(40)]
    #[verifier::spinoff_prover]
    pub fn extend(&mut self, owner_private_key_der: &[u8], extra: Option<Vec<u8>>, next_party: &PublicKey) -> (r:
        Result<(), Error>)
        requires
            old(self).wf(),
        ensures
            (extra is Some && old(self).protocol_version.spec_code() < 101) ==> r is Err,
            r is Err ==> *final(self) == *old(self),
            r is Ok ==> {
                let n = old(self).entries@.len();
                let owner = entry_signer(*old(self), n as int);
                let e = final(self).entries@[n as int]@;
                let t = voucher_hash_type(*old(self));
                &&& final(self).wf()
                &&& final(self).header == old(self).header
                &&& parts_view(final(self).entries@) == parts_view(old(self).entries@).push(e)
                &&& public_key_spki_of(owner) == Some(openssl_private_spki(owner_private_key_der@))
                &&& key_sig_alg(owner) matches Some(alg)
                &&& cose_sign1_parts_of(e) matches Some((prot, pl, sig))
                &&& prot == protected_header(alg)
                &&& es_params(alg as int) matches Some((_, half))
                &&& sig.len() == 2 * half
                &&& entry_payload_of(pl) matches Some(f)
                &&& f.0.0 == t && openssl_digest(t, prev_hash_input(*old(self), n as int)) == Some(f.0.1)
                &&& f.1.0 == t && openssl_digest(t, hdr_info_input(*old(self))) == Some(f.1.1)
                &&& f.2 == opt_bytes_view(extra)
                &&& f.3 == next_party.encoded@
            },
    {
        let owner = self.current_owner_public_key()?;
        let spki = match read_spki(owner.encoded.as_slice()) {
            Some(s) => s,
            None => {
                return Err(Error::new("Owner key is not an X.509 public key"));
            },
        };
        let mine = match private_key_spki(owner_private_key_der) {
            Some(s) => s,
            None => {
                return Err(Error::new("Error reading the owner's private key"));
            },
        };
        if !crate::text::bytes_eq(spki.as_slice(), mine.as_slice()) {
            return Err(Error::new("Key is not the current owner's key"));
        }
        let alg = match read_key_sig_alg(owner.encoded.as_slice()) {
            Some(a) => a,
            None => {
                return Err(Error::new("Owner key type cannot sign entries"));
            },
        };
        let (hash_type, width): (HashType, i32) = if alg == -7 {
            (HashType::Sha256, 32)
        } else {
            (HashType::Sha384, 48)
        };
        let payload = self.extend_payload(extra, next_party)?;
        let pl = payload.to_cbor()?;
        let protected = serialize_protected_header(alg)?;
        let empty: Vec<u8> = Vec::new();
        let tbs = sig1_structure_bytes(protected.as_slice(), empty.as_slice(), pl.as_slice())?;
        let (ra, sb) = match openssl_ecdsa_sign(owner_private_key_der, hash_type, tbs.as_slice(), width) {
            Some(x) => x,
            None => {
                return Err(Error::new("Error signing the new entry"));
            },
        };
        let mut sig = ra;
        crate::csr::append_bytes(&mut sig, sb.as_slice());
        let entry = make_sign1(protected.as_slice(), pl.as_slice(), sig.as_slice());
        let ghost e = entry@;
        let res = self.append_entry(entry);
        proof {
            if res is Ok {
                assert(final(self).entries@[old(self).entries@.len() as int]@ == e) by {
                    assert(parts_view(self.entries@)[old(self).entries@.len() as int] == self.entries@[old(self).entries@.len() as int]@);
                }
            }
        }
        res
    }
}

} // verus!
