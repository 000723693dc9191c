use fdo_data_formats::constants::{HashType, ProtocolVersion};
use fdo_data_formats::credential::{
    dcov_key_type, dcov_nv_bytes, dctpm_nv_bytes, file_credential_bytes, FileDeviceCredential,
};
use fdo_data_formats::tpm::EccCurve;
use fdo_data_formats::types::{Guid, RendezvousDirective, RendezvousInfo};

fn sample_rv() -> RendezvousInfo {
    RendezvousInfo(vec![vec![RendezvousDirective { key: 5, value: vec![0x19, 0x1f, 0x90] }]])
}

fn sample_hash() -> fdo_data_formats::types::Hash {
    fdo_data_formats::types::Hash { hash_type: HashType::Sha256, value: vec![0xaa; 32] }
}

#[test]
fn file_credential_reads_back() {
    let guid = Guid::new([3u8; 16]);
    let bytes = file_credential_bytes(
        ProtocolVersion::Version2_0,
        "dev-1",
        &guid,
        &sample_rv(),
        &sample_hash(),
        &[1, 2, 3],
        &[4, 5],
    );
    assert_eq!(bytes[0], 0x87);
    assert_eq!(bytes[1], 0xf5);
    let back = FileDeviceCredential::from_cbor(&bytes).unwrap();
    assert!(back.active);
    assert_eq!(back.protver, ProtocolVersion::Version2_0);
    assert_eq!(back.device_info, "dev-1");
    assert_eq!(back.guid.as_bytes(), guid.as_bytes());
    assert_eq!(back.rvinfo.0.len(), 1);
    assert_eq!(back.rvinfo.0[0][0].key, 5);
    assert_eq!(back.rvinfo.0[0][0].value, vec![0x19, 0x1f, 0x90]);
    assert_eq!(back.pubkey_hash.hash_type, HashType::Sha256);
    assert_eq!(back.pubkey_hash.value, vec![0xaa; 32]);
    assert_eq!(back.hmac_secret, vec![1, 2, 3]);
    assert_eq!(back.private_key, vec![4, 5]);
    assert!(FileDeviceCredential::from_cbor(&bytes[..bytes.len() - 1]).is_err());
    assert!(FileDeviceCredential::from_cbor(&[0x80]).is_err());
}

#[test]
fn dctpm_record_is_guid_then_device_info() {
    let guid = Guid::new([9u8; 16]);
    let bytes = dctpm_nv_bytes(&guid, "abc");
    let mut expected = vec![9u8; 16];
    expected.extend_from_slice(b"abc");
    assert_eq!(bytes, expected);
}

#[test]
fn dcov_record_layout() {
    let rv = RendezvousInfo(vec![]);
    let hash = fdo_data_formats::types::Hash { hash_type: HashType::Sha256, value: vec![1, 2] };
    let bytes = dcov_nv_bytes(ProtocolVersion::Version2_0, &rv, &hash, 10, 0x8102_0003);
    assert_eq!(
        bytes,
        vec![0x85, 0x18, 0xc8, 0x80, 0x82, 0x2f, 0x42, 0x01, 0x02, 0x0a, 0x1a, 0x81, 0x02, 0x00, 0x03]
    );
    assert_eq!(dcov_key_type(EccCurve::NistP256), 10);
    assert_eq!(dcov_key_type(EccCurve::NistP384), 11);
    assert_eq!(dcov_key_type(EccCurve::Other), 0);
}

#[test]
fn deactivated_credential_reads_back() {
    let guid = Guid::new([4u8; 16]);
    let bytes = file_credential_bytes(
        ProtocolVersion::Version2_0,
        "dev-2",
        &guid,
        &sample_rv(),
        &sample_hash(),
        &[1],
        &[2],
    );
    let mut dc = FileDeviceCredential::from_cbor(&bytes).unwrap();
    assert_eq!(dc.to_cbor(), bytes);
    dc.active = false;
    let off = dc.to_cbor();
    assert_eq!(off[1], 0xf4);
    let back = FileDeviceCredential::from_cbor(&off).unwrap();
    assert!(!back.active);
    assert_eq!(back.device_info, "dev-2");
}
