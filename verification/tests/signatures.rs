use fdo_data_formats::constants::{HashType, ProtocolVersion};
use fdo_data_formats::cose::{delegate_key, verify_cose_sign1, verify_cose_sign1_spki};
use fdo_data_formats::cose_aad::{
    aad_owner_sign, aad_prove_ov_hdr, serialize_protected_header, sig1_structure_bytes,
};
use fdo_data_formats::onboarding::check_owner;
use fdo_data_formats::ownershipvoucher::{OwnershipVoucher, OwnershipVoucherHeader, PublicKey};
use fdo_data_formats::types::{COSESign, Guid, HMac, RendezvousInfo};
use openssl::asn1::Asn1Time;
use openssl::bn::BigNum;
use openssl::ec::{EcGroup, EcKey};
use openssl::ecdsa::EcdsaSig;
use openssl::hash::MessageDigest;
use openssl::nid::Nid;
use openssl::pkey::{PKey, Private};
use openssl::sign::Signer;
use openssl::x509::{X509Builder, X509NameBuilder};

fn new_key() -> PKey<Private> {
    let group = EcGroup::from_curve_name(Nid::X9_62_PRIME256V1).unwrap();
    PKey::from_ec_key(EcKey::generate(&group).unwrap()).unwrap()
}

/// The FDO public key `[SECP256R1, X509, SubjectPublicKeyInfo]`.
fn fdo_key(key: &PKey<Private>) -> PublicKey {
    let spki = key.public_key_to_der().unwrap();
    let mut encoded = vec![0x83, 0x0a, 0x01, 0x58, spki.len() as u8];
    encoded.extend_from_slice(&spki);
    PublicKey { encoded }
}

/// A COSE_Sign1 (tag 18) over `payload` by `key` with ES256.
fn sign1(payload: &[u8], key: &PKey<Private>, aad: &[u8]) -> Vec<u8> {
    sign1_with_header(payload, key, aad, &[0xa0])
}

/// A COSE_Sign1 (tag 18) over `payload` by `key` with ES256, with the given
/// unprotected header.
fn sign1_with_header(payload: &[u8], key: &PKey<Private>, aad: &[u8], unprotected: &[u8]) -> Vec<u8> {
    let protected = serialize_protected_header(-7).unwrap();
    let tbs = sig1_structure_bytes(&protected, aad, payload).unwrap();
    let mut signer = Signer::new(MessageDigest::sha256(), key).unwrap();
    signer.update(&tbs).unwrap();
    let der = signer.sign_to_vec().unwrap();
    let sig = EcdsaSig::from_der(&der).unwrap();
    let mut raw = sig.r().to_vec_padded(32).unwrap();
    raw.extend_from_slice(&sig.s().to_vec_padded(32).unwrap());
    let mut out = vec![0xd2, 0x84, 0x43];
    out.extend_from_slice(&protected);
    out.extend_from_slice(unprotected);
    out.push(0x58);
    out.push(payload.len() as u8);
    out.extend_from_slice(payload);
    out.push(0x58);
    out.push(64);
    out.extend_from_slice(&raw);
    out
}

#[test]
fn cose_signatures_verify_with_the_signing_key_only() {
    let key = new_key();
    let other = new_key();
    let aad = aad_prove_ov_hdr();
    let cose = sign1(b"hello", &key, &aad);
    assert!(verify_cose_sign1(&cose, &fdo_key(&key), &aad));
    assert!(!verify_cose_sign1(&cose, &fdo_key(&other), &aad));
    assert!(!verify_cose_sign1(&cose, &fdo_key(&key), &aad_owner_sign()));
    let mut tampered = cose.clone();
    let n = tampered.len();
    tampered[n - 1] ^= 1;
    assert!(!verify_cose_sign1(&tampered, &fdo_key(&key), &aad));
}

#[test]
fn voucher_chain_and_owner_proofs() {
    let manufacturer = new_key();
    let owner = new_key();
    let header = OwnershipVoucherHeader::new(
        ProtocolVersion::Version2_0,
        Guid::new([4u8; 16]),
        RendezvousInfo(vec![]),
        "device-3".to_string(),
        fdo_key(&manufacturer),
        None,
    )
    .unwrap();
    let mut ov =
        OwnershipVoucher::new(header, HMac::new(HashType::HmacSha256, vec![1u8; 32]), None).unwrap();
    assert!(ov.validated_owner_public_key().is_err());

    let payload = ov.extend_payload(None, &fdo_key(&owner)).unwrap().to_cbor().unwrap();
    ov.append_entry(sign1(&payload, &manufacturer, &[])).unwrap();
    assert_eq!(ov.validated_owner_public_key().unwrap().encoded, fdo_key(&owner).encoded);

    let hdr = COSESign::from_bytes(sign1(b"prove", &owner, &aad_prove_ov_hdr()));
    let to1d = COSESign::from_bytes(sign1(b"to1d", &owner, &aad_owner_sign()));
    assert_eq!(check_owner(&ov, &hdr, &to1d).unwrap().encoded, fdo_key(&owner).encoded);
    let forged = COSESign::from_bytes(sign1(b"to1d", &manufacturer, &aad_owner_sign()));
    assert!(check_owner(&ov, &hdr, &forged).is_err());

    let mut bad = OwnershipVoucher::new(
        OwnershipVoucherHeader::new(
            ProtocolVersion::Version2_0,
            Guid::new([4u8; 16]),
            RendezvousInfo(vec![]),
            "device-3".to_string(),
            fdo_key(&manufacturer),
            None,
        )
        .unwrap(),
        HMac::new(HashType::HmacSha256, vec![1u8; 32]),
        None,
    )
    .unwrap();
    let payload = bad.extend_payload(None, &fdo_key(&owner)).unwrap().to_cbor().unwrap();
    bad.append_entry(sign1(&payload, &owner, &[])).unwrap();
    assert!(bad.validated_owner_public_key().is_err());
}

fn self_signed_cert(key: &PKey<Private>) -> Vec<u8> {
    let mut name = X509NameBuilder::new().unwrap();
    name.append_entry_by_text("CN", "delegate").unwrap();
    let name = name.build();
    let mut b = X509Builder::new().unwrap();
    b.set_version(2).unwrap();
    let serial = BigNum::from_u32(1).unwrap().to_asn1_integer().unwrap();
    b.set_serial_number(&serial).unwrap();
    b.set_not_before(&Asn1Time::days_from_now(0).unwrap()).unwrap();
    b.set_not_after(&Asn1Time::days_from_now(30).unwrap()).unwrap();
    b.set_subject_name(&name).unwrap();
    b.set_issuer_name(&name).unwrap();
    b.set_pubkey(key).unwrap();
    b.sign(key, MessageDigest::sha256()).unwrap();
    b.build().to_der().unwrap()
}

/// The unprotected header `{258: [10, 3, [cert]]}`.
fn delegate_header(cert: &[u8]) -> Vec<u8> {
    let mut h = vec![0xa1, 0x19, 0x01, 0x02, 0x83, 0x0a, 0x03, 0x81];
    if cert.len() < 24 {
        h.push(0x40 + cert.len() as u8);
    } else if cert.len() < 256 {
        h.push(0x58);
        h.push(cert.len() as u8);
    } else {
        h.push(0x59);
        h.push((cert.len() >> 8) as u8);
        h.push(cert.len() as u8);
    }
    h.extend_from_slice(cert);
    h
}

#[test]
fn delegate_chain_signs_prove_ov_hdr() {
    let manufacturer = new_key();
    let owner = new_key();
    let delegate = new_key();
    let header = OwnershipVoucherHeader::new(
        ProtocolVersion::Version2_0,
        Guid::new([5u8; 16]),
        RendezvousInfo(vec![]),
        "device-5".to_string(),
        fdo_key(&manufacturer),
        None,
    )
    .unwrap();
    let mut ov =
        OwnershipVoucher::new(header, HMac::new(HashType::HmacSha256, vec![1u8; 32]), None).unwrap();
    let payload = ov.extend_payload(None, &fdo_key(&owner)).unwrap().to_cbor().unwrap();
    ov.append_entry(sign1(&payload, &manufacturer, &[])).unwrap();
    let to1d = COSESign::from_bytes(sign1(b"to1d", &owner, &aad_owner_sign()));
    let hdr_header = delegate_header(&self_signed_cert(&delegate));

    let by_delegate =
        COSESign::from_bytes(sign1_with_header(b"prove", &delegate, &aad_prove_ov_hdr(), &hdr_header));
    let spki = delegate_key(&by_delegate.0).unwrap().unwrap();
    assert_eq!(spki, delegate.public_key_to_der().unwrap());
    assert!(verify_cose_sign1_spki(&by_delegate.0, &spki, &aad_prove_ov_hdr()));
    assert_eq!(check_owner(&ov, &by_delegate, &to1d).unwrap().encoded, fdo_key(&owner).encoded);

    let by_owner =
        COSESign::from_bytes(sign1_with_header(b"prove", &owner, &aad_prove_ov_hdr(), &hdr_header));
    assert!(check_owner(&ov, &by_owner, &to1d).is_err());

    let broken = delegate_header(&[1, 2, 3]);
    let with_broken =
        COSESign::from_bytes(sign1_with_header(b"prove", &owner, &aad_prove_ov_hdr(), &broken));
    assert!(check_owner(&ov, &with_broken, &to1d).is_err());
}

#[test]
fn no_delegate_chain_means_no_delegate_key() {
    let key = new_key();
    let plain = sign1(b"prove", &key, &aad_prove_ov_hdr());
    assert_eq!(delegate_key(&plain).unwrap(), None);
    let empty_chain = sign1_with_header(
        b"prove",
        &key,
        &aad_prove_ov_hdr(),
        &[0xa1, 0x19, 0x01, 0x02, 0x83, 0x0a, 0x03, 0x80],
    );
    assert_eq!(delegate_key(&empty_chain).unwrap(), None);
    assert!(delegate_key(&[0x80]).is_err());
}

#[test]
fn extend_signs_with_the_owner_key_only() {
    let manufacturer = new_key();
    let owner = new_key();
    let header = OwnershipVoucherHeader::new(
        ProtocolVersion::Version2_0,
        Guid::new([6u8; 16]),
        RendezvousInfo(vec![]),
        "device-6".to_string(),
        fdo_key(&manufacturer),
        None,
    )
    .unwrap();
    let mut ov =
        OwnershipVoucher::new(header, HMac::new(HashType::HmacSha256, vec![1u8; 32]), None).unwrap();
    let owner_der = owner.private_key_to_der().unwrap();
    assert!(ov.extend(&owner_der, None, &fdo_key(&owner)).is_err());
    assert_eq!(ov.num_entries(), 0);
    ov.extend(&manufacturer.private_key_to_der().unwrap(), None, &fdo_key(&owner)).unwrap();
    assert_eq!(ov.num_entries(), 1);
    assert_eq!(ov.validated_owner_public_key().unwrap().encoded, fdo_key(&owner).encoded);
    let next = new_key();
    ov.extend(&owner_der, None, &fdo_key(&next)).unwrap();
    assert_eq!(ov.validated_owner_public_key().unwrap().encoded, fdo_key(&next).encoded);
}
