use fdo_data_formats::constants::{HashType, MessageType, ProtocolVersion, TransportProtocol};
use fdo_data_formats::csr::{
    assemble_csr_der, assemble_csr_from_rs, encode_der_length, extract_tbs_from_csr_der,
    parse_der_tag_length, CsrSigningKey,
};
use fdo_data_formats::messages::v20::di::SetHMAC;
use fdo_data_formats::messages::v20::to2::{GetOVNextEntry20, OVNextEntry20};
use fdo_data_formats::serviceinfo_names::{FdoServiceInfoModule, ServiceInfoModule};
use fdo_data_formats::text::{i128_to_decimal, u128_to_decimal};
use fdo_data_formats::types::Guid;

#[test]
fn codes_roundtrip() {
    for v in [ProtocolVersion::Version1_0, ProtocolVersion::Version1_1, ProtocolVersion::Version2_0] {
        assert_eq!(ProtocolVersion::from_code(v.code()), Some(v));
    }
    assert_eq!(ProtocolVersion::Version2_0.code(), 200);
    assert_eq!(ProtocolVersion::from_code(110), None);
    assert_eq!(HashType::from_code(HashType::Sha384.code()), Some(HashType::Sha384));
    assert_eq!(HashType::Sha256.code(), -16);
    assert_eq!(HashType::HmacSha384.code(), 6);
    assert_eq!(MessageType::from_code(84), Some(MessageType::TO2GetOVNextEntry20));
    assert_eq!(MessageType::TO2DoneAck20.code(), 91);
    assert_eq!(TransportProtocol::from_code(5), Some(TransportProtocol::Https));
    assert_eq!(TransportProtocol::from_code(7), None);
}

#[test]
fn message_sequencing() {
    assert!(GetOVNextEntry20::is_valid_previous_message(Some(MessageType::TO2ProveOVHdr20)));
    assert!(GetOVNextEntry20::is_valid_previous_message(Some(MessageType::TO2OVNextEntry20)));
    assert!(!GetOVNextEntry20::is_valid_previous_message(None));
    assert_eq!(OVNextEntry20::message_type(), MessageType::TO2OVNextEntry20);
    assert_eq!(SetHMAC::message_type(), MessageType::DISetHMAC);
}

#[test]
fn module_names() {
    let m = ServiceInfoModule::from_str("fdo.bmo").unwrap();
    assert_eq!(m.to_string(), "fdo.bmo");
    assert!(m.same_module(&ServiceInfoModule::Fdo(FdoServiceInfoModule::Bmo)));
    let other = ServiceInfoModule::from_str("fdo.wget").unwrap();
    assert_eq!(other.to_string(), "fdo.wget");
    assert!(!other.same_module(&m));
}

#[test]
fn decimal_and_uuid_text() {
    assert_eq!(u128_to_decimal(0), "0");
    assert_eq!(u128_to_decimal(1234567890123), "1234567890123");
    assert_eq!(i128_to_decimal(-170141183460469231731687303715884105728), "-170141183460469231731687303715884105728");
    let g = Guid::new([0x12, 0x34, 0x56, 0x78, 0x9a, 0xbc, 0xde, 0xf0, 0, 1, 2, 3, 4, 5, 6, 7]);
    assert_eq!(g.to_uuid_string(), "12345678-9abc-def0-0001-020304050607");
    assert!(Guid::from_slice(&[1, 2, 3]).is_err());
}

#[test]
fn der_lengths_and_csr_assembly() {
    for len in [5usize, 0x80, 0xff, 0x100, 0x1234, 0x12345] {
        let mut buf = vec![0x30];
        encode_der_length(&mut buf, len);
        buf.extend(std::iter::repeat(0u8).take(len));
        let (total, rest) = parse_der_tag_length(&buf).unwrap();
        assert_eq!(total, buf.len());
        assert_eq!(rest.len(), len);
    }
    let tbs = vec![0x30, 0x03, 0x02, 0x01, 0x07];
    let csr = assemble_csr_der(&tbs, &[0x30, 0x00], CsrSigningKey::EcdsaNistP256).unwrap();
    assert_eq!(csr[0], 0x30);
    assert_eq!(extract_tbs_from_csr_der(&csr).unwrap(), tbs);
    assert!(assemble_csr_der(&tbs, &[0x30, 0x00], CsrSigningKey::NotEcdsa).is_err());
    assert!(parse_der_tag_length(&[0x30]).is_err());
    assert!(parse_der_tag_length(&[0x30, 0x85, 1, 1, 1, 1, 1]).is_err());
}

#[test]
fn csr_from_ecdsa_halves() {
    let tbs = vec![0x30, 0x00];
    // r = 1 (after leading zeros), s = 0x80 (needs a zero byte in front).
    let csr = assemble_csr_from_rs(&tbs, &[0x00, 0x01], &[0x80], CsrSigningKey::EcdsaNistP384).unwrap();
    let sig_der = vec![0x30, 0x07, 0x02, 0x01, 0x01, 0x02, 0x02, 0x00, 0x80];
    let expected = assemble_csr_der(&tbs, &sig_der, CsrSigningKey::EcdsaNistP384).unwrap();
    assert_eq!(csr, expected);
    assert_eq!(extract_tbs_from_csr_der(&csr).unwrap(), tbs);
    assert!(assemble_csr_from_rs(&tbs, &[1], &[1], CsrSigningKey::EcdsaOtherCurve).is_err());
}
