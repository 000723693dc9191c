use fdo_data_formats::constants::{DeviceSigType, HashType, ProtocolVersion, PublicKeyType};
use fdo_data_formats::tpm::{
    ecdsa_rs_to_cose, nv_credential_info, signature_parameters, tpm_key_params, EccCurve,
    TpmDeviceCredential, DCTPM_MAGIC,
};
use fdo_data_formats::types::HMac;

fn dctpm_record(magic: u32, active: bool, version: u16) -> Vec<u8> {
    let mut v = vec![0x8a, 0x1a];
    v.extend_from_slice(&magic.to_be_bytes());
    v.push(if active { 0xf5 } else { 0xf4 });
    v.push(0x19);
    v.extend_from_slice(&version.to_be_bytes());
    v.extend_from_slice(&[0x63, b'd', b'e', b'v']);
    v.push(0x50);
    v.extend_from_slice(&[0xab; 16]);
    // rendezvous info: [[[3, h'01']]]
    v.extend_from_slice(&[0x81, 0x81, 0x82, 0x03, 0x41, 0x01]);
    // hash inside a byte string: h'82 2f 42 aa bb' = [-16, h'aabb']
    v.extend_from_slice(&[0x45, 0x82, 0x2f, 0x42, 0xaa, 0xbb]);
    v.extend_from_slice(&[0x00, 0x1a, 0x81, 0x02, 0x00, 0x02, 0x1a, 0x81, 0x02, 0x00, 0x03]);
    v
}

#[test]
fn nv_info_reads_magic_and_active() {
    let info = nv_credential_info(Some(dctpm_record(DCTPM_MAGIC, true, 200)), None, true, true);
    assert!(info.has_dctpm);
    assert_eq!(info.magic, DCTPM_MAGIC);
    assert!(info.active);
    let empty = nv_credential_info(Some(vec![]), Some(vec![1]), true, false);
    assert!(!empty.has_dctpm);
    assert!(empty.active);
    assert!(!empty.has_hmac_key);
    let legacy_off = nv_credential_info(None, Some(vec![0]), false, false);
    assert!(!legacy_off.active);
}

#[test]
fn credential_from_dctpm() {
    let info = nv_credential_info(Some(dctpm_record(DCTPM_MAGIC, true, 200)), None, true, true);
    let cred = TpmDeviceCredential::from_nv_info(&info).unwrap().unwrap();
    assert!(cred.is_active());
    assert_eq!(cred.protocol_version(), ProtocolVersion::Version2_0);
    assert_eq!(cred.device_info(), "dev");
    assert_eq!(cred.device_guid().as_bytes(), &[0xab; 16]);
    assert_eq!(cred.rendezvous_info().0[0][0].key, 3);
    assert_eq!(cred.manufacturer_pubkey_hash().hash_type, HashType::Sha256);
    assert_eq!(cred.manufacturer_pubkey_hash().value, vec![0xaa, 0xbb]);

    let v11 = nv_credential_info(Some(dctpm_record(DCTPM_MAGIC, true, 110)), None, true, true);
    let cred = TpmDeviceCredential::from_nv_info(&v11).unwrap().unwrap();
    assert_eq!(cred.protocol_version(), ProtocolVersion::Version1_1);
    let v101 = nv_credential_info(Some(dctpm_record(DCTPM_MAGIC, true, 101)), None, true, true);
    let cred = TpmDeviceCredential::from_nv_info(&v101).unwrap().unwrap();
    assert_eq!(cred.protocol_version(), ProtocolVersion::Version1_0);
    let bad = nv_credential_info(Some(dctpm_record(DCTPM_MAGIC, true, 300)), None, true, true);
    assert!(TpmDeviceCredential::from_nv_info(&bad).is_err());
}

#[test]
fn unusable_credentials_are_none() {
    let wrong_magic = nv_credential_info(Some(dctpm_record(1, true, 200)), None, true, true);
    assert!(TpmDeviceCredential::from_nv_info(&wrong_magic).unwrap().is_none());
    let inactive = nv_credential_info(Some(dctpm_record(DCTPM_MAGIC, false, 200)), None, true, true);
    assert!(TpmDeviceCredential::from_nv_info(&inactive).unwrap().is_none());
    let no_keys = nv_credential_info(Some(dctpm_record(DCTPM_MAGIC, true, 200)), None, true, false);
    assert!(TpmDeviceCredential::from_nv_info(&no_keys).unwrap().is_none());
    let nothing = nv_credential_info(None, None, true, true);
    assert!(TpmDeviceCredential::from_nv_info(&nothing).unwrap().is_none());
}

#[test]
fn hmac_check() {
    let info = nv_credential_info(Some(dctpm_record(DCTPM_MAGIC, true, 200)), None, true, true);
    let cred = TpmDeviceCredential::from_nv_info(&info).unwrap().unwrap();
    let h = HMac::new(HashType::HmacSha256, vec![1, 2, 3]);
    assert!(cred.verify_hmac(&h, &[1, 2, 3]).is_ok());
    assert!(cred.verify_hmac(&h, &[1, 2, 4]).is_err());
    let h384 = HMac::new(HashType::HmacSha384, vec![1, 2, 3]);
    assert!(cred.verify_hmac(&h384, &[1, 2, 3]).is_err());
}

#[test]
fn signature_halves_are_padded() {
    let sig = ecdsa_rs_to_cose(&[1, 2], &[3]);
    assert_eq!(sig.len(), 64);
    assert_eq!(&sig[30..32], &[1, 2]);
    assert_eq!(sig[63], 3);
    assert!(sig[..30].iter().all(|b| *b == 0));
    let sig = ecdsa_rs_to_cose(&[7u8; 48], &[8u8; 47]);
    assert_eq!(sig.len(), 96);
    assert_eq!(sig[48], 0);
    assert_eq!(sig[49], 8);
    assert_eq!(
        signature_parameters(EccCurve::NistP384).unwrap(),
        (DeviceSigType::ES384, HashType::Sha384)
    );
    assert!(signature_parameters(EccCurve::Other).is_err());
}

#[test]
fn tpm_key_parameters() {
    let (curve, hash, size) = tpm_key_params(PublicKeyType::SECP256R1).unwrap();
    assert_eq!(curve, EccCurve::NistP256);
    assert_eq!(hash, HashType::Sha256);
    assert_eq!(size, 32);
    let (curve, hash, size) = tpm_key_params(PublicKeyType::SECP384R1).unwrap();
    assert_eq!(curve, EccCurve::NistP384);
    assert_eq!(hash, HashType::Sha384);
    assert_eq!(size, 48);
    assert!(tpm_key_params(PublicKeyType::RsaPkcs).is_err());
    assert!(tpm_key_params(PublicKeyType::Rsa2048Restr).is_err());
}
