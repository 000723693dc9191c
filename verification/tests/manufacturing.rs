use fdo_data_formats::csr::{extract_tbs_from_csr_der, make_certification_request_info};
use fdo_data_formats::manufacturing::generate_csr;
use openssl::ec::{EcGroup, EcKey};
use openssl::pkey::PKey;
use fdo_data_formats::constants::{HashType, ProtocolVersion, PublicKeyType};
use fdo_data_formats::manufacturing::{
    csr_digest, key_storage_attempts, ov_header_hmac, protocol_version_from_fdo_version,
    public_key_type, validate_mac_address, KeyStorageType, SigningKeyKind,
};
use fdo_data_formats::tpm::EccCurve;
use openssl::nid::Nid;
use fdo_data_formats::ownershipvoucher::{OwnershipVoucherHeader, PublicKey};
use fdo_data_formats::types::{Guid, RendezvousInfo};

#[test]
fn fdo_versions() {
    assert_eq!(protocol_version_from_fdo_version(101).unwrap(), ProtocolVersion::Version1_0);
    assert_eq!(protocol_version_from_fdo_version(110).unwrap(), ProtocolVersion::Version1_1);
    assert_eq!(protocol_version_from_fdo_version(200).unwrap(), ProtocolVersion::Version2_0);
    assert!(protocol_version_from_fdo_version(100).is_err());
}

#[test]
fn mac_addresses() {
    assert_eq!(validate_mac_address("aa:BB:0c:1d:2e:3f\n").unwrap(), "aa:BB:0c:1d:2e:3f");
    assert_eq!(validate_mac_address("aa-bb-cc-dd-ee-ff").unwrap(), "aa-bb-cc-dd-ee-ff");
    assert!(validate_mac_address("00:00:00:00:00:00").is_err());
    assert!(validate_mac_address("aa:bb:cc:dd:ee").is_err());
    assert!(validate_mac_address("aa:bb:cc:dd:ee:fg").is_err());
    assert!(validate_mac_address("").is_err());
}

#[test]
fn key_storage_order() {
    assert_eq!(key_storage_attempts(None).unwrap(), vec![KeyStorageType::FileSystem]);
    assert!(key_storage_attempts(Some(&vec![])).is_err());
    assert_eq!(
        key_storage_attempts(Some(&vec![KeyStorageType::Tpm, KeyStorageType::FileSystem])).unwrap(),
        vec![KeyStorageType::Tpm, KeyStorageType::FileSystem]
    );
}

fn header_with_info(info: &str) -> OwnershipVoucherHeader {
    OwnershipVoucherHeader::new(
        ProtocolVersion::Version2_0,
        Guid::new([3u8; 16]),
        RendezvousInfo(vec![]),
        info.to_string(),
        PublicKey { encoded: vec![0x83, 0x0a, 0x01, 0x41, 0x00] },
        None,
    )
    .unwrap()
}

#[test]
fn header_hmac_is_hmac_sha384_of_header_encoding() {
    let key = vec![0x11u8; 32];
    let header = header_with_info("device-9");
    let hmac = ov_header_hmac(&key, &header).unwrap();
    assert_eq!(hmac.hash_type, HashType::HmacSha384);
    let pkey = openssl::pkey::PKey::hmac(&key).unwrap();
    let mut signer =
        openssl::sign::Signer::new(openssl::hash::MessageDigest::sha384(), &pkey).unwrap();
    signer.update(&header.to_cbor().unwrap()).unwrap();
    assert_eq!(hmac.value, signer.sign_to_vec().unwrap());
    assert_eq!(hmac.value.len(), 48);
}

#[test]
fn header_hmac_refuses_bad_device_info() {
    let mut header = header_with_info("ok");
    header.device_info = "bad\n".to_string();
    assert!(ov_header_hmac(&[1, 2, 3], &header).is_err());
}

#[test]
fn signing_key_types() {
    let p256 = SigningKeyKind::Ec { curve_nid: Some(Nid::X9_62_PRIME256V1.as_raw()), bits: 256 };
    let p384 = SigningKeyKind::Ec { curve_nid: Some(Nid::SECP384R1.as_raw()), bits: 384 };
    assert_eq!(public_key_type(p256).unwrap(), PublicKeyType::SECP256R1);
    assert_eq!(public_key_type(p384).unwrap(), PublicKeyType::SECP384R1);
    assert!(public_key_type(SigningKeyKind::Ec { curve_nid: Some(Nid::SECP521R1.as_raw()), bits: 521 }).is_err());
    assert!(public_key_type(SigningKeyKind::Ec { curve_nid: None, bits: 256 }).is_err());
    assert_eq!(public_key_type(SigningKeyKind::Rsa { bits: 2048 }).unwrap(), PublicKeyType::Rsa2048Restr);
    assert_eq!(public_key_type(SigningKeyKind::Rsa { bits: 3072 }).unwrap(), PublicKeyType::RsaPkcs);
    assert_eq!(public_key_type(SigningKeyKind::TpmEcc { curve: EccCurve::NistP384 }).unwrap(), PublicKeyType::SECP384R1);
    assert!(public_key_type(SigningKeyKind::TpmEcc { curve: EccCurve::Other }).is_err());
    assert!(public_key_type(SigningKeyKind::Other).is_err());
}

#[test]
fn csr_digests() {
    let p256 = SigningKeyKind::Ec { curve_nid: Some(Nid::X9_62_PRIME256V1.as_raw()), bits: 256 };
    let p384 = SigningKeyKind::Ec { curve_nid: Some(Nid::SECP384R1.as_raw()), bits: 384 };
    assert_eq!(csr_digest(p256).unwrap(), HashType::Sha256);
    assert_eq!(csr_digest(p384).unwrap(), HashType::Sha384);
    assert_eq!(csr_digest(SigningKeyKind::Rsa { bits: 2048 }).unwrap(), HashType::Sha384);
    assert_eq!(csr_digest(SigningKeyKind::Other).unwrap(), HashType::Sha256);
    assert_eq!(csr_digest(SigningKeyKind::TpmEcc { curve: EccCurve::NistP256 }).unwrap(), HashType::Sha256);
    assert!(csr_digest(SigningKeyKind::TpmEcc { curve: EccCurve::Other }).is_err());
}

#[test]
fn csr_for_a_file_key() {
    let group = EcGroup::from_curve_name(Nid::X9_62_PRIME256V1).unwrap();
    let key = PKey::from_ec_key(EcKey::generate(&group).unwrap()).unwrap();
    let der = key.private_key_to_der().unwrap();
    let kind = SigningKeyKind::Ec { curve_nid: Some(Nid::X9_62_PRIME256V1.as_raw()), bits: 256 };
    let csr = generate_csr(&der, kind).unwrap();
    let req = openssl::x509::X509Req::from_der(&csr).unwrap();
    assert!(req.verify(&key).unwrap());
    let cn = req.subject_name().entries_by_nid(Nid::COMMONNAME).next().unwrap();
    assert_eq!(cn.data().as_utf8().unwrap().to_string(), "device.fdo-rs");
    assert!(generate_csr(&der, SigningKeyKind::TpmEcc { curve: EccCurve::NistP256 }).is_err());
    let tbs = extract_tbs_from_csr_der(&csr).unwrap();
    let spki = key.public_key_to_der().unwrap();
    assert_eq!(tbs, make_certification_request_info(&spki, "device.fdo-rs"));

    let group = EcGroup::from_curve_name(Nid::SECP384R1).unwrap();
    let key384 = PKey::from_ec_key(EcKey::generate(&group).unwrap()).unwrap();
    let der384 = key384.private_key_to_der().unwrap();
    let kind384 = SigningKeyKind::Ec { curve_nid: Some(Nid::SECP384R1.as_raw()), bits: 384 };
    let csr384 = generate_csr(&der384, kind384).unwrap();
    let req384 = openssl::x509::X509Req::from_der(&csr384).unwrap();
    assert!(req384.verify(&key384).unwrap());
    assert!(generate_csr(&[1, 2, 3], kind).is_err());
}

#[test]
fn csr_for_an_rsa_file_key() {
    let rsa = openssl::rsa::Rsa::generate(2048).unwrap();
    let key = PKey::from_rsa(rsa).unwrap();
    let der = key.private_key_to_der().unwrap();
    let kind = SigningKeyKind::Rsa { bits: 2048 };
    let csr = generate_csr(&der, kind).unwrap();
    let req = openssl::x509::X509Req::from_der(&csr).unwrap();
    assert!(req.verify(&key).unwrap());
    let cn = req.subject_name().entries_by_nid(Nid::COMMONNAME).next().unwrap();
    assert_eq!(cn.data().as_utf8().unwrap().to_string(), "device.fdo-rs");
    // sha384WithRSAEncryption (1.2.840.113549.1.1.12)
    let oid = [0x06, 0x09, 0x2a, 0x86, 0x48, 0x86, 0xf7, 0x0d, 0x01, 0x01, 0x0c];
    assert!(csr.windows(oid.len()).any(|w| w == oid));
    // PKCS#1 v1.5 signatures are deterministic: the same key gives the same request.
    assert_eq!(generate_csr(&der, kind).unwrap(), csr);
    assert!(generate_csr(&[1, 2, 3], kind).is_err());
}
