use fdo_data_formats::constants::{ProtocolVersion, PublicKeyEncoding, PublicKeyType};
use fdo_data_formats::messages::v20::di::{AppStart, Done};
use fdo_data_formats::types::{CapabilityFlags, DeviceMfgInfo};
use fdo_data_formats::Serializable;

fn sample_info() -> DeviceMfgInfo {
    DeviceMfgInfo::new(
        PublicKeyType::SECP384R1,
        PublicKeyEncoding::X509,
        "12345".to_string(),
        "rusttest".to_string(),
        vec![0xDE, 0xAD],
    )
}

#[test]
fn test_done_message_empty() {
    let done = Done {};
    let serialized = done.serialize_data().unwrap();
    assert!(!serialized.is_empty());
    let _deserialized = Done::deserialize_data(&serialized[..]).unwrap();
}

#[test]
fn test_device_mfg_info_serialization() {
    let info = sample_info();
    let serialized = info.serialize_data().unwrap();
    assert_eq!(serialized[0], 0x85, "DeviceMfgInfo must serialize as CBOR array(5)");
}

#[test]
fn test_app_start_with_device_mfg_info() {
    let info = sample_info();
    let caps = CapabilityFlags::new_v20_client();
    let app_start = AppStart::new(&info, caps);
    let serialized = app_start.serialize_data().unwrap();

    assert_eq!(serialized[0], 0x82, "AppStart must serialize as CBOR array(2)");

    let major_type = serialized[1] >> 5;
    assert_eq!(major_type, 2, "First element must be a CBOR byte string (bstr)");

    let deserialized = AppStart::deserialize_data(&serialized[..]).unwrap();
    assert!(deserialized.capability_flags().supports_version(ProtocolVersion::Version2_0));
}

#[test]
fn device_mfg_info_exact_bytes_and_roundtrip() {
    let info = sample_info();
    let bytes = info.to_cbor();
    let mut expected = vec![0x85, 0x0b, 0x01, 0x65];
    expected.extend_from_slice(b"12345");
    expected.push(0x68);
    expected.extend_from_slice(b"rusttest");
    expected.extend_from_slice(&[0x42, 0xDE, 0xAD]);
    assert_eq!(bytes, expected);
    let back = DeviceMfgInfo::from_cbor(&bytes).unwrap();
    assert_eq!(back.key_type, PublicKeyType::SECP384R1);
    assert_eq!(back.key_encoding, PublicKeyEncoding::X509);
    assert_eq!(back.serial_number, "12345");
    assert_eq!(back.device_info, "rusttest");
    assert_eq!(back.cert_info, vec![0xDE, 0xAD]);
}

#[test]
fn device_mfg_info_rejects_unknown_key_type() {
    let mut bytes = sample_info().to_cbor();
    bytes[1] = 0x02;
    assert!(DeviceMfgInfo::from_cbor(&bytes).is_err());
}

#[test]
fn capability_flags_encoding_with_and_without_vendor_strings() {
    let plain = CapabilityFlags::new_v20_client();
    assert_eq!(plain.to_cbor(), vec![0x82, 0x41, 0x02, 0xf6]);
    let vendor = CapabilityFlags { flags: vec![3], vendor_unique: Some(vec!["ab".to_string()]) };
    let bytes = vendor.to_cbor();
    assert_eq!(bytes, vec![0x82, 0x41, 0x03, 0x81, 0x62, b'a', b'b']);
    let back = CapabilityFlags::from_cbor(&bytes).unwrap();
    assert_eq!(back.flags, vec![3]);
    assert_eq!(back.vendor_unique, Some(vec!["ab".to_string()]));
    assert!(back.supports_delegate());
}

#[test]
fn app_start_roundtrip_keeps_info_bytes() {
    let info = sample_info();
    let app_start = AppStart::new(&info, CapabilityFlags::new_v20_client());
    let bytes = app_start.to_cbor();
    let back = AppStart::from_cbor(&bytes).unwrap();
    assert_eq!(back.info, Some(info.to_cbor()));
    assert_eq!(back.capability_flags.flags, vec![2]);
    assert!(AppStart::from_cbor(&[0x81, 0xf6]).is_err());
}

#[test]
fn done_rejects_non_empty_array() {
    assert_eq!(Done {}.to_cbor(), vec![0x80]);
    assert!(Done::from_cbor(&[0x81, 0x00]).is_err());
}
