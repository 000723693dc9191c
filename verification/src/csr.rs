//! DER framing used to assemble a certificate signing request around a
//! signature made inside a TPM: reading a DER element's tag and length,
//! writing DER lengths, and putting the request together.

use vstd::prelude::*;

use crate::cbor::be_bytes;
use crate::Error;

verus! {

/// The big-endian value of a byte sequence.
pub open spec fn be_value(s: Seq<u8>) -> nat
    decreases s.len(),
{
    if s.len() == 0 {
        0
    } else {
        be_value(s.drop_last()) * 256 + s.last() as nat
    }
}

/// Where the element at the start of `data` ends and where its content
/// starts: `(total size, content start)`. The element needs a tag byte and
/// a length in short form, or in long form with 1 to 4 length bytes, and
/// must fit inside `data`.
pub open spec fn der_tag_length(data: Seq<u8>) -> Option<(nat, nat)> {
    if data.len() < 2 {
        None
    } else if data[1] < 0x80 {
        let total = 2 + data[1] as nat;
        if total > data.len() {
            None
        } else {
            Some((total, 2nat))
        }
    } else {
        let n = (data[1] - 0x80) as nat;
        if n == 0 || n > 4 || 2 + n > data.len() {
            None
        } else {
            let total = 2 + n + be_value(data.subrange(2, 2 + n as int));
            if total > data.len() {
                None
            } else {
                Some((total, 2 + n))
            }
        }
    }
}

/// 256 to the power `n`.
pub open spec fn pow256(n: nat) -> nat
    decreases n,
{
    if n == 0 {
        1
    } else {
        256 * pow256((n - 1) as nat)
    }
}

pub(crate) proof fn lemma_be_value_bound(s: Seq<u8>)
    ensures
        be_value(s) < pow256(s.len()),
    decreases s.len(),
{
    if s.len() > 0 {
        lemma_be_value_bound(s.drop_last());
        let p = pow256((s.len() - 1) as nat);
        assert(be_value(s.drop_last()) * 256 + s.last() < p * 256) by (nonlinear_arith)
            requires
                be_value(s.drop_last()) < p,
                s.last() < 256,
        ;
    }
}

/// Read the tag and length of the DER element at the start of `data`;
/// return the element's total size and the bytes from its content on.
pub fn parse_der_tag_length(data: &[u8]) -> (r: Result<(usize, &[u8]), Error>)
    ensures
        r is Ok <==> der_tag_length(data@) is Some,
        r matches Ok((total, rest)) ==> ({
            let (t, start) = der_tag_length(data@).unwrap();
            &&& total == t
            &&& rest@ == data@.subrange(start as int, data@.len() as int)
        }),
{
    if data.len() == 0 {
        return Err(Error::new("Empty DER data"));
    }
    let mut pos: usize = 1;
    if pos >= data.len() {
        return Err(Error::new("DER data too short for length"));
    }
    let length_byte = data[pos];
    pos = pos + 1;
    let content_length: u64;
    if length_byte < 0x80 {
        content_length = length_byte as u64;
    } else {
        let num_bytes = (length_byte - 0x80) as usize;
        if num_bytes == 0 || num_bytes > 4 {
            return Err(Error::new("Invalid DER length encoding"));
        }
        let mut len: u64 = 0;
        let mut i: usize = 0;
        while i < num_bytes
            invariant
                data@.len() >= 2,
                1 <= num_bytes <= 4,
                num_bytes == data@[1] - 0x80,
                i <= num_bytes,
                pos == 2 + i,
                pos <= data@.len(),
                len == be_value(data@.subrange(2, pos as int)),
                len < pow256(i as nat),
            decreases num_bytes - i,
        {
            if pos >= data.len() {
                return Err(Error::new("DER data too short for length bytes"));
            }
            proof {
                lemma_be_value_bound(data@.subrange(2, pos as int));
                reveal_with_fuel(pow256, 5);
                let s = data@.subrange(2, pos as int + 1);
                assert(s.drop_last() =~= data@.subrange(2, pos as int));
                let p = pow256(i as nat);
                assert(len * 256 + data@[pos as int] < p * 256) by (nonlinear_arith)
                    requires
                        len < p,
                        data@[pos as int] < 256,
                ;
            }
            len = len * 256 + data[pos] as u64;
            pos = pos + 1;
            i = i + 1;
        }
        proof {
            reveal_with_fuel(pow256, 5);
        }
        content_length = len;
    }
    let total = pos as u64 + content_length;
    if total > data.len() as u64 {
        return Err(Error::new("DER element extends past data"));
    }
    Ok((total as usize, &data[pos..data.len()]))
}

/// The element size of the first element inside the outer element of a
/// request, and so the bytes of its first element (the part that is
/// signed).
pub open spec fn csr_tbs(csr: Seq<u8>) -> Option<Seq<u8>> {
    match der_tag_length(csr) {
        Some((_, start)) => {
            let content = csr.subrange(start as int, csr.len() as int);
            match der_tag_length(content) {
                Some((t, _)) => Some(content.subrange(0, t as int)),
                None => None,
            }
        },
        None => None,
    }
}

/// The to-be-signed part (CertificationRequestInfo) of a DER-encoded
/// request: the first element inside the outer SEQUENCE.
pub fn extract_tbs_from_csr_der(csr_der: &[u8]) -> (r: Result<Vec<u8>, Error>)
    ensures
        r is Ok <==> csr_tbs(csr_der@) is Some,
        r matches Ok(v) ==> v@ == csr_tbs(csr_der@).unwrap(),
{
    let (_, content) = parse_der_tag_length(csr_der)?;
    let (tbs_len, _) = parse_der_tag_length(content)?;
    Ok(vstd::slice::slice_to_vec(&content[0..tbs_len]))
}

/// The length octets the request assembly writes: the short form below
/// 128, otherwise 0x81, 0x82 or 0x83 and as many big-endian bytes; of a
/// length of 2^24 or more only the low 24 bits are written.
pub open spec fn der_length_octets(len: nat) -> Seq<u8> {
    if len < 0x80 {
        seq![len as u8]
    } else if len < 0x100 {
        seq![0x81u8] + be_bytes(len, 1)
    } else if len < 0x1_0000 {
        seq![0x82u8] + be_bytes(len, 2)
    } else {
        seq![0x83u8] + be_bytes(len, 3)
    }
}

/// Append the DER length octets of `length` to `buf`.
pub fn encode_der_length(buf: &mut Vec<u8>, length: usize)
    ensures
        final(buf)@ == old(buf)@ + der_length_octets(length as nat),
{
    let ghost old_buf = buf@;
    if length < 0x80 {
        buf.push(length as u8);
    } else if length < 0x100 {
        buf.push(0x81);
        buf.push(length as u8);
    } else if length < 0x1_0000 {
        buf.push(0x82);
        buf.push((length / 256) as u8);
        buf.push((length % 256) as u8);
    } else {
        buf.push(0x83);
        buf.push((length / 65536 % 256) as u8);
        buf.push((length / 256 % 256) as u8);
        buf.push((length % 256) as u8);
    }
    proof {
        let l = length as nat;
        reveal_with_fuel(be_bytes, 4);
        assert(l / 65536 == (l / 256) / 256) by (nonlinear_arith);
        if l >= 0x80 && l < 0x100 {
            assert(be_bytes(l, 1) =~= seq![(l % 256) as u8]);
        } else if l >= 0x100 && l < 0x1_0000 {
            assert(be_bytes(l, 2) =~= seq![((l / 256) % 256) as u8, (l % 256) as u8]);
        } else if l >= 0x1_0000 {
            assert(be_bytes(l, 3) =~= seq![
                ((l / 65536) % 256) as u8,
                ((l / 256) % 256) as u8,
                (l % 256) as u8,
            ]);
        }
        assert(buf@ =~= old_buf + der_length_octets(l));
    }
}

/// The key that signs a request, as far as assembling it needs to know.
#[derive(Debug, Clone, Copy, PartialEq, Eq, Structural)]
pub enum CsrSigningKey {
    EcdsaNistP256,
    EcdsaNistP384,
    EcdsaOtherCurve,
    NotEcdsa,
}

/// The DER AlgorithmIdentifier of ecdsa-with-SHA256 (1.2.840.10045.4.3.2).
pub open spec fn ecdsa_sha256_alg() -> Seq<u8> {
    seq![0x30u8, 0x0a, 0x06, 0x08, 0x2a, 0x86, 0x48, 0xce, 0x3d, 0x04, 0x03, 0x02]
}

/// The DER AlgorithmIdentifier of ecdsa-with-SHA384 (1.2.840.10045.4.3.3).
pub open spec fn ecdsa_sha384_alg() -> Seq<u8> {
    seq![0x30u8, 0x0a, 0x06, 0x08, 0x2a, 0x86, 0x48, 0xce, 0x3d, 0x04, 0x03, 0x03]
}

/// The signature algorithm identifier for a signing key, if it has one.
pub open spec fn csr_sig_alg(key: CsrSigningKey) -> Option<Seq<u8>> {
    match key {
        CsrSigningKey::EcdsaNistP256 => Some(ecdsa_sha256_alg()),
        CsrSigningKey::EcdsaNistP384 => Some(ecdsa_sha384_alg()),
        _ => None,
    }
}

/// The signature as a DER BIT STRING with no unused bits.
pub open spec fn der_bit_string(sig: Seq<u8>) -> Seq<u8> {
    seq![0x03u8] + der_length_octets(1 + sig.len()) + seq![0u8] + sig
}

/// `CertificationRequest ::= SEQUENCE { info, signatureAlgorithm, signature }`.
pub open spec fn assembled_csr(tbs: Seq<u8>, sig: Seq<u8>, alg: Seq<u8>) -> Seq<u8> {
    let bits = der_bit_string(sig);
    seq![0x30u8] + der_length_octets(tbs.len() + alg.len() + bits.len()) + tbs + alg + bits
}

/// Put a signing request together from its to-be-signed part, the DER
/// signature over it and the kind of key that made the signature.
pub fn assemble_csr_der(tbs_bytes: &[u8], sig_der: &[u8], signing_key: CsrSigningKey) -> (r:
    Result<Vec<u8>, Error>)
    requires
        tbs_bytes@.len() + sig_der@.len() + 64 <= usize::MAX,
    ensures
        r is Ok <==> csr_sig_alg(signing_key) is Some,
        r matches Ok(v) ==> v@ == assembled_csr(
            tbs_bytes@,
            sig_der@,
            csr_sig_alg(signing_key).unwrap(),
        ),
{
    let sig_alg_der: Vec<u8> = match signing_key {
        CsrSigningKey::EcdsaNistP256 => vec![
            0x30u8,
            0x0a,
            0x06,
            0x08,
            0x2a,
            0x86,
            0x48,
            0xce,
            0x3d,
            0x04,
            0x03,
            0x02,
        ],
        CsrSigningKey::EcdsaNistP384 => vec![
            0x30u8,
            0x0a,
            0x06,
            0x08,
            0x2a,
            0x86,
            0x48,
            0xce,
            0x3d,
            0x04,
            0x03,
            0x03,
        ],
        CsrSigningKey::EcdsaOtherCurve => {
            return Err(Error::new("Unsupported curve for CSR assembly"));
        },
        CsrSigningKey::NotEcdsa => {
            return Err(Error::new("Unsupported key type for CSR assembly"));
        },
    };
    assert(sig_alg_der@ =~= csr_sig_alg(signing_key).unwrap());

    let bit_string_content_len = 1 + sig_der.len();
    let mut bit_string: Vec<u8> = vec![0x03u8];
    encode_der_length(&mut bit_string, bit_string_content_len);
    bit_string.push(0x00);
    let mut i: usize = 0;
    let ghost bs0 = bit_string@;
    proof {
        lemma_der_length_octets_len(bit_string_content_len as nat);
    }
    while i < sig_der.len()
        invariant
            i <= sig_der@.len(),
            bit_string@ == bs0 + sig_der@.subrange(0, i as int),
            bs0.len() <= 6,
            sig_der@.len() + tbs_bytes@.len() + 64 <= usize::MAX,
        decreases sig_der@.len() - i,
    {
        bit_string.push(sig_der[i]);
        i = i + 1;
        assert(bit_string@ =~= bs0 + sig_der@.subrange(0, i as int));
    }
    assert(bit_string@ =~= der_bit_string(sig_der@));

    let inner_len = tbs_bytes.len() + sig_alg_der.len() + bit_string.len();
    let mut csr: Vec<u8> = vec![0x30u8];
    encode_der_length(&mut csr, inner_len);
    append_bytes(&mut csr, tbs_bytes);
    append_bytes(&mut csr, sig_alg_der.as_slice());
    append_bytes(&mut csr, bit_string.as_slice());
    assert(csr@ =~= assembled_csr(tbs_bytes@, sig_der@, sig_alg_der@));
    Ok(csr)
}

/// `b` without its leading zero bytes.
pub open spec fn strip_leading_zeros(b: Seq<u8>) -> Seq<u8>
    decreases b.len(),
{
    if b.len() > 0 && b[0] == 0 {
        strip_leading_zeros(b.drop_first())
    } else {
        b
    }
}

/// The content octets of the DER INTEGER whose value is the unsigned
/// big-endian number `b`: its bytes without leading zeros, with one zero
/// byte in front when the first would read as a sign bit; zero is a single
/// zero byte.
pub open spec fn der_uint_content(b: Seq<u8>) -> Seq<u8> {
    let m = strip_leading_zeros(b);
    if m.len() == 0 {
        seq![0u8]
    } else if m[0] >= 0x80 {
        seq![0u8] + m
    } else {
        m
    }
}

/// The DER INTEGER of the unsigned big-endian number `b`.
pub open spec fn der_integer(b: Seq<u8>) -> Seq<u8> {
    let c = der_uint_content(b);
    seq![0x02u8] + der_length_octets(c.len()) + c
}

/// `ECDSA-Sig-Value ::= SEQUENCE { r INTEGER, s INTEGER }` in DER.
pub open spec fn ecdsa_sig_value_der(r: Seq<u8>, s: Seq<u8>) -> Seq<u8> {
    let body = der_integer(r) + der_integer(s);
    seq![0x30u8] + der_length_octets(body.len()) + body
}

/// What OpenSSL's `BigNum::from_slice` on each half (an unsigned
/// big-endian number), `EcdsaSig::from_private_components` and
/// `EcdsaSig::to_der` give: the DER `ECDSA-Sig-Value`, or nothing when
/// OpenSSL reports an error.
pub uninterp spec fn openssl_ecdsa_sig_der(r: Seq<u8>, s: Seq<u8>) -> Option<Seq<u8>>;

/// OpenSSL's `BigNum::from_slice` on each half, `EcdsaSig::from_private_components`
/// and `EcdsaSig::to_der`. The outcome is named; what comes back is the DER
/// `ECDSA-Sig-Value` of the two numbers, which DER makes unique.
#[verifier::external_body]
pub(crate) fn ecdsa_sig_to_der(r: &[u8], s: &[u8]) -> (res: Option<Vec<u8>>)
    ensures
        (match res {
            Some(v) => Some(v@),
            None => None,
        }) == openssl_ecdsa_sig_der(r@, s@),
        res matches Some(v) ==> (r@.len() < 0x1_0000 && s@.len() < 0x1_0000 ==> v@
            == ecdsa_sig_value_der(r@, s@)),
{
    let r_bn = openssl::bn::BigNum::from_slice(r).ok()?;
    let s_bn = openssl::bn::BigNum::from_slice(s).ok()?;
    let sig = openssl::ecdsa::EcdsaSig::from_private_components(r_bn, s_bn).ok()?;
    sig.to_der().ok()
}

/// A signing request from its to-be-signed part and the two halves of an
/// ECDSA signature over it, as a TPM returns them: the halves become a DER
/// `ECDSA-Sig-Value`, and the request is assembled around it. Only keys
/// with a signature algorithm (ECDSA on P-256 or P-384) are accepted.
pub fn assemble_csr_from_rs(tbs_bytes: &[u8], r: &[u8], s: &[u8], signing_key: CsrSigningKey) -> (res:
    Result<Vec<u8>, Error>)
    ensures
        csr_sig_alg(signing_key) is None ==> res is Err,
        res matches Ok(v) ==> csr_sig_alg(signing_key) is Some && (r@.len() < 0x1_0000 && s@.len()
            < 0x1_0000 ==> v@ == assembled_csr(
            tbs_bytes@,
            ecdsa_sig_value_der(r@, s@),
            csr_sig_alg(signing_key).unwrap(),
        )),
{
    match signing_key {
        CsrSigningKey::EcdsaNistP256 | CsrSigningKey::EcdsaNistP384 => {},
        _ => {
            return Err(Error::new("Unsupported key for CSR assembly"));
        },
    }
    let sig = match ecdsa_sig_to_der(r, s) {
        Some(sig) => sig,
        None => {
            return Err(Error::new("Error encoding ECDSA signature"));
        },
    };
    if sig.len() > usize::MAX - 64 || tbs_bytes.len() > usize::MAX - 64 - sig.len() {
        return Err(Error::new("CSR too large"));
    }
    assemble_csr_der(tbs_bytes, sig.as_slice(), signing_key)
}


/// Append `src` to `dst`.
pub fn append_bytes(dst: &mut Vec<u8>, src: &[u8])
    ensures
        final(dst)@ == old(dst)@ + src@,
{
    let ghost d0 = dst@;
    let mut i: usize = 0;
    while i < src.len()
        invariant
            i <= src@.len(),
            dst@ == d0 + src@.subrange(0, i as int),
        decreases src@.len() - i,
    {
        dst.push(src[i]);
        i = i + 1;
        assert(dst@ =~= d0 + src@.subrange(0, i as int));
    }
    assert(src@.subrange(0, src@.len() as int) =~= src@);
}

// ------------------------------------------------------------------
// Laws of the DER framing
// ------------------------------------------------------------------

proof fn lemma_der_length_octets_len(l: nat)
    ensures
        1 <= der_length_octets(l).len() <= 4,
{
    reveal_with_fuel(be_bytes, 4);
}

pub(crate) proof fn lemma_be_value_of_be_bytes(v: nat, k: nat)
    requires
        v < pow256(k),
    ensures
        be_value(be_bytes(v, k)) == v,
        be_bytes(v, k).len() == k,
    decreases k,
{
    if k > 0 {
        assert(v / 256 < pow256((k - 1) as nat)) by (nonlinear_arith)
            requires
                v < 256 * pow256((k - 1) as nat),
        ;
        lemma_be_value_of_be_bytes(v / 256, (k - 1) as nat);
        let b = be_bytes(v, k);
        assert(b.drop_last() =~= be_bytes(v / 256, (k - 1) as nat));
        assert((v / 256) * 256 + v % 256 == v) by (nonlinear_arith);
    }
}

/// Reading back the length octets that `encode_der_length` writes, behind
/// a tag byte, gives the element's size and content start, for every
/// length below 2^24 (larger lengths are written truncated).
pub proof fn lemma_der_length_roundtrip(tag: u8, len: nat, rest: Seq<u8>)
    requires
        len < 0x100_0000,
        rest.len() >= len,
    ensures
        der_tag_length(seq![tag] + der_length_octets(len) + rest) == Some(
            (1 + der_length_octets(len).len() + len, 1 + der_length_octets(len).len()),
        ),
{
    reveal_with_fuel(pow256, 4);
    let oct = der_length_octets(len);
    let d = seq![tag] + oct + rest;
    if len < 0x80 {
        assert(d[1] == len as u8);
    } else if len < 0x100 {
        lemma_be_value_of_be_bytes(len, 1);
        assert(d.subrange(2, 3) =~= be_bytes(len, 1));
    } else if len < 0x1_0000 {
        lemma_be_value_of_be_bytes(len, 2);
        assert(d.subrange(2, 4) =~= be_bytes(len, 2));
    } else {
        lemma_be_value_of_be_bytes(len, 3);
        assert(d.subrange(2, 5) =~= be_bytes(len, 3));
    }
}

/// An element that exactly fills `e` is read the same when more bytes
/// follow it.
pub proof fn lemma_der_tag_length_prefix(e: Seq<u8>, more: Seq<u8>)
    requires
        der_tag_length(e) matches Some((t, _)) && t == e.len(),
    ensures
        der_tag_length(e + more) == der_tag_length(e),
{
    let d = e + more;
    if e[1] >= 0x80 {
        let n = (e[1] - 0x80) as int;
        assert(d.subrange(2, 2 + n) =~= e.subrange(2, 2 + n));
    }
}

/// Extracting the to-be-signed part of an assembled request gives back
/// the part that was put in, when that part is one DER element whose
/// length has at most four length bytes, and the request's content stays
/// below 2^24 bytes.
pub proof fn lemma_extract_tbs_of_assembled(tbs: Seq<u8>, sig: Seq<u8>, alg: Seq<u8>)
    requires
        der_tag_length(tbs) matches Some((t, _)) && t == tbs.len(),
        tbs.len() + alg.len() + der_bit_string(sig).len() < 0x100_0000,
    ensures
        csr_tbs(assembled_csr(tbs, sig, alg)) == Some(tbs),
{
    let bits = der_bit_string(sig);
    let inner = tbs.len() + alg.len() + bits.len();
    let content = tbs + alg + bits;
    let csr = assembled_csr(tbs, sig, alg);
    assert(csr =~= seq![0x30u8] + der_length_octets(inner) + content);
    lemma_der_length_roundtrip(0x30, inner, content);
    let start = 1 + der_length_octets(inner).len();
    assert(csr.subrange(start as int, csr.len() as int) =~= content);
    assert(content =~= tbs + (alg + bits));
    lemma_der_tag_length_prefix(tbs, alg + bits);
    assert(content.subrange(0, tbs.len() as int) =~= tbs);
}

// ------------------------------------------------------------------
// The to-be-signed part of a request
// ------------------------------------------------------------------

/// A DER element: its tag, its length octets and its content.
pub open spec fn der_element(tag: u8, content: Seq<u8>) -> Seq<u8> {
    seq![tag] + der_length_octets(content.len()) + content
}

/// The DER object identifier id-at-commonName (2.5.4.3).
pub open spec fn common_name_oid() -> Seq<u8> {
    seq![0x06u8, 0x03, 0x55, 0x04, 0x03]
}

/// The X.501 Name with the one attribute commonName = `cn` (a
/// UTF8String).
pub open spec fn common_name_der(cn: Seq<u8>) -> Seq<u8> {
    der_element(0x30, der_element(0x31, der_element(0x30, common_name_oid() + der_element(0x0c, cn))))
}

/// `CertificationRequestInfo ::= SEQUENCE { version 0, subject,
/// subjectPKInfo, attributes [0] {} }` for the subject `CN=cn` and the
/// SubjectPublicKeyInfo `spki`.
pub open spec fn certification_request_info(spki: Seq<u8>, cn: Seq<u8>) -> Seq<u8> {
    der_element(0x30, seq![0x02u8, 0x01, 0x00] + common_name_der(cn) + spki + seq![0xa0u8, 0x00])
}

fn write_der_element(buf: &mut Vec<u8>, tag: u8, content: &[u8])
    ensures
        final(buf)@ == old(buf)@ + der_element(tag, content@),
{
    let ghost b0 = buf@;
    buf.push(tag);
    encode_der_length(buf, content.len());
    append_bytes(buf, content);
    assert(buf@ =~= b0 + der_element(tag, content@));
}

/// The to-be-signed part of the device's certificate signing request: the
/// subject `CN=common_name` and the public key `spki`.
pub fn make_certification_request_info(spki: &[u8], common_name: &str) -> (r: Vec<u8>)
    ensures
        r@ == certification_request_info(spki@, vstd::utf8::encode_utf8(common_name@)),
{
    let cn = common_name.as_bytes();
    let mut attr: Vec<u8> = vec![0x06u8, 0x03, 0x55, 0x04, 0x03];
    write_der_element(&mut attr, 0x0c, cn);
    let mut atv: Vec<u8> = Vec::new();
    write_der_element(&mut atv, 0x30, attr.as_slice());
    let mut rdn: Vec<u8> = Vec::new();
    write_der_element(&mut rdn, 0x31, atv.as_slice());
    let mut content: Vec<u8> = vec![0x02u8, 0x01, 0x00];
    write_der_element(&mut content, 0x30, rdn.as_slice());
    append_bytes(&mut content, spki);
    content.push(0xa0u8);
    content.push(0x00u8);
    let mut info: Vec<u8> = Vec::new();
    write_der_element(&mut info, 0x30, content.as_slice());
    proof {
        let c = vstd::utf8::encode_utf8(common_name@);
        assert(attr@ =~= common_name_oid() + der_element(0x0c, c));
        assert(content@ =~= seq![0x02u8, 0x01, 0x00] + common_name_der(c) + spki@ + seq![0xa0u8, 0x00]);
    }
    info
}

} // verus!
