//! The ECDH key exchange of TO2 and the derivation of the session key: the
//! key exchange parameters each side sends (coordinates and a random value,
//! each behind its two-byte length), the shared secret, and the
//! SP 800-108 counter-mode derivation with HMAC-SHA-384. OpenSSL computes
//! the ECDH secret and the HMAC.

use vstd::prelude::*;

use crate::cbor::be_bytes;
use crate::csr::{append_bytes, be_value, lemma_be_value_of_be_bytes, pow256};
use crate::Error;

verus! {

/// `b` behind its length as two big-endian bytes.
pub open spec fn with_len(b: Seq<u8>) -> Seq<u8> {
    be_bytes(b.len(), 2) + b
}

/// The key exchange parameter of a side: its point's coordinates and its
/// random value, each behind its length.
pub open spec fn key_exchange_param(x: Seq<u8>, y: Seq<u8>, random: Seq<u8>) -> Seq<u8> {
    with_len(x) + with_len(y) + with_len(random)
}

/// The field behind a two-byte length at the start of `s`, and what
/// follows it.
pub open spec fn take_with_len(s: Seq<u8>) -> Option<(Seq<u8>, Seq<u8>)> {
    if s.len() < 2 {
        None
    } else {
        let n = be_value(s.subrange(0, 2));
        if 2 + n > s.len() {
            None
        } else {
            Some((s.subrange(2, 2 + n as int), s.subrange(2 + n as int, s.len() as int)))
        }
    }
}

/// The coordinates and random value a key exchange parameter carries:
/// three length-prefixed fields and nothing after them.
pub open spec fn key_exchange_param_of(p: Seq<u8>) -> Option<(Seq<u8>, Seq<u8>, Seq<u8>)> {
    match take_with_len(p) {
        Some((x, r1)) => match take_with_len(r1) {
            Some((y, r2)) => match take_with_len(r2) {
                Some((random, rest)) => if rest.len() == 0 {
                    Some((x, y, random))
                } else {
                    None
                },
                None => None,
            },
            None => None,
        },
        None => None,
    }
}

proof fn lemma_take_with_len(b: Seq<u8>, rest: Seq<u8>)
    requires
        b.len() < 0x1_0000,
    ensures
        take_with_len(with_len(b) + rest) == Some((b, rest)),
{
    reveal_with_fuel(pow256, 3);
    lemma_be_value_of_be_bytes(b.len(), 2);
    let s = with_len(b) + rest;
    assert(s.subrange(0, 2) =~= be_bytes(b.len(), 2));
    assert(s.subrange(2, 2 + b.len() as int) =~= b);
    assert(s.subrange(2 + b.len() as int, s.len() as int) =~= rest);
}

/// Reading a written key exchange parameter gives its fields back.
pub proof fn lemma_key_exchange_param_roundtrip(x: Seq<u8>, y: Seq<u8>, random: Seq<u8>)
    requires
        x.len() < 0x1_0000,
        y.len() < 0x1_0000,
        random.len() < 0x1_0000,
    ensures
        key_exchange_param_of(key_exchange_param(x, y, random)) == Some((x, y, random)),
{
    let p = key_exchange_param(x, y, random);
    assert(p =~= with_len(x) + (with_len(y) + (with_len(random) + Seq::empty())));
    lemma_take_with_len(x, with_len(y) + (with_len(random) + Seq::empty()));
    lemma_take_with_len(y, with_len(random) + Seq::empty());
    lemma_take_with_len(random, Seq::empty());
}

fn push_with_len(buf: &mut Vec<u8>, b: &[u8])
    requires
        b@.len() < 0x1_0000,
    ensures
        final(buf)@ == old(buf)@ + with_len(b@),
{
    let n = b.len();
    buf.push((n / 256) as u8);
    buf.push((n % 256) as u8);
    append_bytes(buf, b);
    proof {
        reveal_with_fuel(be_bytes, 3);
        assert(be_bytes(n as nat, 2) =~= seq![(n / 256) as u8, (n % 256) as u8]) by {
            assert(be_bytes(n as nat, 2) =~= be_bytes((n as nat) / 256, 1).push(((n as nat) % 256) as u8));
            assert(be_bytes((n as nat) / 256, 1) =~= be_bytes((n as nat) / 256 / 256, 0).push(
                (((n as nat) / 256) % 256) as u8,
            ));
        }
        assert(final(buf)@ =~= old(buf)@ + with_len(b@));
    }
}

/// The key exchange parameter for a point `(x, y)` and a random value.
pub fn make_key_exchange_param(x: &[u8], y: &[u8], random: &[u8]) -> (r: Vec<u8>)
    requires
        x@.len() < 0x1_0000,
        y@.len() < 0x1_0000,
        random@.len() < 0x1_0000,
    ensures
        r@ == key_exchange_param(x@, y@, random@),
        key_exchange_param_of(r@) == Some((x@, y@, random@)),
{
    let mut r: Vec<u8> = Vec::new();
    push_with_len(&mut r, x);
    push_with_len(&mut r, y);
    push_with_len(&mut r, random);
    proof {
        assert(r@ =~= key_exchange_param(x@, y@, random@));
        lemma_key_exchange_param_roundtrip(x@, y@, random@);
    }
    r
}

fn take_field(s: &[u8]) -> (r: Option<(&[u8], &[u8])>)
    ensures
        r is None <==> take_with_len(s@) is None,
        r matches Some((f, rest)) ==> take_with_len(s@) == Some((f@, rest@)),
{
    if s.len() < 2 {
        return None;
    }
    let n: usize = (s[0] as usize) * 256 + (s[1] as usize);
    proof {
        reveal_with_fuel(be_value, 3);
        assert(s@.subrange(0, 2).drop_last() =~= seq![s@[0]]);
        assert(seq![s@[0]].drop_last() =~= Seq::<u8>::empty());
        assert(be_value(s@.subrange(0, 2)) == n);
    }
    if n > s.len() - 2 {
        return None;
    }
    let f = vstd::slice::slice_subrange(s, 2, 2 + n);
    let rest = vstd::slice::slice_subrange(s, 2 + n, s.len());
    Some((f, rest))
}

/// The point coordinates and random value of the other side's key
/// exchange parameter.
pub fn read_key_exchange_param(p: &[u8]) -> (r: Result<(Vec<u8>, Vec<u8>, Vec<u8>), Error>)
    ensures
        r is Ok <==> key_exchange_param_of(p@) is Some,
        r matches Ok((x, y, random)) ==> key_exchange_param_of(p@) == Some((x@, y@, random@)),
{
    let (x, r1) = match take_field(p) {
        Some(v) => v,
        None => {
            return Err(Error::new("Key exchange parameter too short"));
        },
    };
    let (y, r2) = match take_field(r1) {
        Some(v) => v,
        None => {
            return Err(Error::new("Key exchange parameter too short"));
        },
    };
    let (random, rest) = match take_field(r2) {
        Some(v) => v,
        None => {
            return Err(Error::new("Key exchange parameter too short"));
        },
    };
    if rest.len() != 0 {
        return Err(Error::new("Key exchange parameter too long"));
    }
    Ok((vstd::slice::slice_to_vec(x), vstd::slice::slice_to_vec(y), vstd::slice::slice_to_vec(random)))
}

/// The shared secret of the exchange: the ECDH secret, then the owner's
/// random value, then the device's.
pub open spec fn shared_secret(ecdh: Seq<u8>, owner_random: Seq<u8>, device_random: Seq<u8>) -> Seq<u8> {
    ecdh + owner_random + device_random
}

/// The input of the derivation's block `i`: the counter byte, the label
/// "FIDO-KDF", a zero byte, the context "AutomaticOnboardTunnel", and the
/// length of the derived key in bits as two big-endian bytes.
pub open spec fn kdf_input(i: u8, key_bits: u16) -> Seq<u8> {
    seq![i] + "FIDO-KDF"@.map_values(|c: char| c as u8) + seq![0u8]
        + "AutomaticOnboardTunnel"@.map_values(|c: char| c as u8) + be_bytes(key_bits as nat, 2)
}

/// What OpenSSL gives as the HMAC-SHA-384 with the secret `key` over
/// `data`: nothing when it reports an error.
pub uninterp spec fn openssl_hmac384(key: Seq<u8>, data: Seq<u8>) -> Option<Seq<u8>>;

/// OpenSSL's HMAC with SHA-384 (`PKey::hmac`, then a `Signer` with SHA-384
/// fed `data`). Its outcome, tag or error, is named, not stated; it
/// depends on the arguments alone. A tag is 48 bytes long.
#[verifier::external_body]
pub(crate) fn hmac_sha384(key: &[u8], data: &[u8]) -> (r: Option<Vec<u8>>)
    ensures
        (match r {
            Some(t) => Some(t@),
            None => None,
        }) == openssl_hmac384(key@, data@),
        r matches Some(t) ==> t@.len() == 48,
{
    let key = openssl::pkey::PKey::hmac(key).ok()?;
    let mut signer = openssl::sign::Signer::new(openssl::hash::MessageDigest::sha384(), &key).ok()?;
    signer.update(data).ok()?;
    signer.sign_to_vec().ok()
}

/// The session key of the exchange: the first 32 bytes of the derivation's
/// first block over the shared secret (a 256-bit key needs one block of
/// HMAC-SHA-384); nothing when OpenSSL fails to compute it.
pub open spec fn session_key(secret: Seq<u8>) -> Option<Seq<u8>> {
    match openssl_hmac384(secret, kdf_input(1, 256)) {
        Some(block) => Some(block.subrange(0, 32)),
        None => None,
    }
}

fn kdf_input_bytes(i: u8, key_bits: u16) -> (r: Vec<u8>)
    ensures
        r@ == kdf_input(i, key_bits),
{
    let mut v: Vec<u8> = Vec::new();
    v.push(i);
    let label: [u8; 8] = [0x46, 0x49, 0x44, 0x4f, 0x2d, 0x4b, 0x44, 0x46];
    let mut k: usize = 0;
    while k < 8
        invariant
            k <= 8,
            v@ == seq![i] + label@.subrange(0, k as int),
        decreases 8 - k,
    {
        v.push(label[k]);
        assert(label@.subrange(0, k as int + 1) =~= label@.subrange(0, k as int).push(label@[k as int]));
        k = k + 1;
    }
    v.push(0u8);
    let context: [u8; 22] = [
        0x41, 0x75, 0x74, 0x6f, 0x6d, 0x61, 0x74, 0x69, 0x63, 0x4f, 0x6e, 0x62, 0x6f, 0x61, 0x72,
        0x64, 0x54, 0x75, 0x6e, 0x6e, 0x65, 0x6c,
    ];
    let ghost before_context = v@;
    let mut j: usize = 0;
    while j < 22
        invariant
            j <= 22,
            v@ == before_context + context@.subrange(0, j as int),
        decreases 22 - j,
    {
        v.push(context[j]);
        assert(context@.subrange(0, j as int + 1) =~= context@.subrange(0, j as int).push(context@[j as int]));
        j = j + 1;
    }
    v.push((key_bits / 256) as u8);
    v.push((key_bits % 256) as u8);
    proof {
        reveal_strlit("FIDO-KDF");
        reveal_strlit("AutomaticOnboardTunnel");
        reveal_with_fuel(be_bytes, 3);
        assert(label@.subrange(0, 8) =~= "FIDO-KDF"@.map_values(|c: char| c as u8));
        assert(context@.subrange(0, 22) =~= "AutomaticOnboardTunnel"@.map_values(|c: char| c as u8));
        assert(be_bytes(key_bits as nat, 2) =~= be_bytes((key_bits as nat) / 256, 1).push(
            ((key_bits as nat) % 256) as u8,
        ));
        assert(be_bytes((key_bits as nat) / 256, 1) =~= be_bytes((key_bits as nat) / 256 / 256, 0).push(
            (((key_bits as nat) / 256) % 256) as u8,
        ));
        assert(v@ =~= kdf_input(i, key_bits));
    }
    v
}

/// The session key from the ECDH secret and both sides' random values:
/// the shared secret is put through the derivation for a 256-bit key. An
/// error inside OpenSSL gives no key.
pub fn derive_session_key(ecdh: &[u8], owner_random: &[u8], device_random: &[u8]) -> (r: Result<
    Vec<u8>,
    Error,
>)
    ensures
        r is Ok <==> session_key(shared_secret(ecdh@, owner_random@, device_random@)) is Some,
        r matches Ok(k) ==> session_key(shared_secret(ecdh@, owner_random@, device_random@)) == Some(k@),
{
    let mut secret: Vec<u8> = Vec::new();
    append_bytes(&mut secret, ecdh);
    append_bytes(&mut secret, owner_random);
    append_bytes(&mut secret, device_random);
    let input = kdf_input_bytes(1, 256);
    let block = match hmac_sha384(secret.as_slice(), input.as_slice()) {
        Some(b) => b,
        None => {
            return Err(Error::new("Error performing key derivation"));
        },
    };
    let key = vstd::slice::slice_to_vec(vstd::slice::slice_subrange(block.as_slice(), 0, 32));
    proof {
        assert(secret@ =~= shared_secret(ecdh@, owner_random@, device_random@));
    }
    Ok(key)
}

/// What OpenSSL gives as the ECDH secret for the P-384 private key
/// `private_der` (DER) and the peer point with affine coordinates `(x, y)`:
/// nothing when it reports an error.
pub uninterp spec fn openssl_ecdh_p384(private_der: Seq<u8>, x: Seq<u8>, y: Seq<u8>) -> Option<Seq<u8>>;

/// OpenSSL's ECDH on P-384: the private key is read from DER, the peer key
/// built from its affine coordinates, and a `Deriver` computes the shared
/// secret. Its outcome, secret or error (a key it cannot read, a point
/// not on the curve, or a failure inside it), is named, not stated; it
/// depends on the arguments alone.
#[verifier::external_body]
fn ecdh_p384(private_der: &[u8], x: &[u8], y: &[u8]) -> (r: Option<Vec<u8>>)
    ensures
        (match r {
            Some(s) => Some(s@),
            None => None,
        }) == openssl_ecdh_p384(private_der@, x@, y@),
{
    let group = openssl::ec::EcGroup::from_curve_name(openssl::nid::Nid::SECP384R1).ok()?;
    let bx = openssl::bn::BigNum::from_slice(x).ok()?;
    let by = openssl::bn::BigNum::from_slice(y).ok()?;
    let peer = openssl::ec::EcKey::from_public_key_affine_coordinates(&group, &bx, &by).ok()?;
    let peer = openssl::pkey::PKey::from_ec_key(peer).ok()?;
    let ours = openssl::pkey::PKey::private_key_from_der(private_der).ok()?;
    let mut deriver = openssl::derive::Deriver::new(&ours).ok()?;
    deriver.set_peer(&peer).ok()?;
    deriver.derive_to_vec().ok()
}

/// The session key from the device's private key, the owner's point and
/// both random values: nothing when OpenSSL fails at the ECDH or the
/// derivation.
pub open spec fn device_key_of(
    private_der: Seq<u8>,
    x: Seq<u8>,
    y: Seq<u8>,
    owner_random: Seq<u8>,
    device_random: Seq<u8>,
) -> Option<Seq<u8>> {
    match openssl_ecdh_p384(private_der, x, y) {
        Some(secret) => session_key(shared_secret(secret, owner_random, device_random)),
        None => None,
    }
}

/// The device's side of the exchange once the owner's parameter `xb`
/// arrived: the owner's point and random value are read from it, OpenSSL
/// computes the ECDH secret with the device's private key, and the session
/// key is derived with both random values.
pub fn device_session_key(private_der: &[u8], device_random: &[u8], xb: &[u8]) -> (r: Result<
    Vec<u8>,
    Error,
>)
    ensures
        r is Ok <==> (key_exchange_param_of(xb@) matches Some((x, y, owner_random)) && device_key_of(
            private_der@,
            x,
            y,
            owner_random,
            device_random@,
        ) is Some),
        r matches Ok(k) ==> (key_exchange_param_of(xb@) matches Some((x, y, owner_random)) && device_key_of(
            private_der@,
            x,
            y,
            owner_random,
            device_random@,
        ) == Some(k@)),
{
    let (x, y, owner_random) = read_key_exchange_param(xb)?;
    let ecdh = match ecdh_p384(private_der, x.as_slice(), y.as_slice()) {
        Some(s) => s,
        None => {
            return Err(Error::new("Error computing the ECDH secret"));
        },
    };
    derive_session_key(ecdh.as_slice(), owner_random.as_slice(), device_random)
}

} // verus!
