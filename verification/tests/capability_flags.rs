use fdo_data_formats::constants::{HashType, ProtocolVersion};
use fdo_data_formats::interoperable_kdf_available;
use fdo_data_formats::onboarding::{check_credential, CredentialDecision};
use fdo_data_formats::types::CapabilityFlags;

#[test]
fn test_capability_flags_in_app_start() {
    let caps = CapabilityFlags::new_v20_client();
    assert!(caps.supports_version(ProtocolVersion::Version2_0));
    assert!(!caps.supports_delegate());
}

#[test]
fn test_set_credentials_with_capability_flags() {
    let caps = CapabilityFlags::new_v20_client();
    assert!(caps.supports_version(ProtocolVersion::Version2_0));
    assert!(!caps.supports_version(ProtocolVersion::Version1_1));
}

#[test]
fn flags_from_raw_bytes() {
    let caps = CapabilityFlags::from_flags(vec![0x03]);
    assert!(caps.vendor_unique.is_none());
    assert!(caps.supports_version(ProtocolVersion::Version2_0));
    assert!(caps.supports_delegate());
    let none = CapabilityFlags::from_flags(vec![0x00]);
    assert!(!none.supports_version(ProtocolVersion::Version2_0));
    assert!(!none.supports_delegate());
}

#[test]
fn digest_sizes() {
    assert_eq!(HashType::Sha256.digest_size(), 32);
    assert_eq!(HashType::HmacSha256.digest_size(), 32);
    assert_eq!(HashType::Sha384.digest_size(), 48);
    assert_eq!(HashType::HmacSha384.digest_size(), 48);
}

#[test]
fn credential_decisions() {
    assert_eq!(check_credential(false, ProtocolVersion::Version2_0).unwrap(), CredentialDecision::Skip);
    assert_eq!(check_credential(true, ProtocolVersion::Version1_1).unwrap(), CredentialDecision::Proceed);
    assert!(interoperable_kdf_available());
}
