use fdo_data_formats::constants::HashType;
use fdo_data_formats::messages::v20::to2::HelloDeviceAck20;
use fdo_data_formats::types::{CipherSuite, KexSuite};
use fdo_data_formats::messages::v20::to1::RVRedirect;
use fdo_data_formats::messages::v20::to2::{DoneAck20, OwnerSvcInfo20};
use fdo_data_formats::constants::ProtocolVersion;
use fdo_data_formats::messages::v20::di::SetCredentials;
use fdo_data_formats::messages::v20::to1::{HelloRV, HelloRVAck};
use fdo_data_formats::messages::v20::to2::{OVNextEntry20, SetupDevice20, TO2ProveOVHdr20Payload};
use fdo_data_formats::ownershipvoucher::{OwnershipVoucherEntry, OwnershipVoucherHeader, PublicKey};
use fdo_data_formats::types::{
    CapabilityFlags, Guid, Nonce, RendezvousDirective, RendezvousInfo, ServiceInfo, SigInfo,
};

fn sample_rv() -> RendezvousInfo {
    RendezvousInfo(vec![vec![
        RendezvousDirective { key: 3, value: vec![0x19, 0x1f, 0x90] },
        RendezvousDirective { key: 5, value: vec![0x64, b'h', b'o', b's', b't'] },
    ]])
}

fn sample_header() -> OwnershipVoucherHeader {
    OwnershipVoucherHeader::new(
        ProtocolVersion::Version2_0,
        Guid::new([9u8; 16]),
        sample_rv(),
        "device-7".to_string(),
        PublicKey { encoded: vec![0x83, 0x0a, 0x01, 0x41, 0x00] },
        None,
    )
    .unwrap()
}

/// A COSE_Sign1 (behind tag 18) whose payload is the byte 0x00.
fn sample_entry_bytes() -> Vec<u8> {
    vec![0xd2, 0x84, 0x40, 0xa0, 0x41, 0x00, 0x40]
}

#[test]
fn set_credentials_wraps_header_and_reads_back() {
    let header = sample_header();
    let header_bytes = header.to_cbor().unwrap();
    let msg = SetCredentials::new(sample_header());
    let bytes = msg.to_cbor().unwrap();
    assert_eq!(bytes[0], 0x81);
    assert_eq!(bytes[1] >> 5, 2);
    assert!(bytes.ends_with(&header_bytes));
    let back = SetCredentials::from_cbor(&bytes).unwrap();
    assert_eq!(back.ov_header().device_info(), "device-7");
    assert_eq!(back.ov_header().guid().as_bytes(), &[9u8; 16]);
    assert!(SetCredentials::from_cbor(&[0x80]).is_err());
}

#[test]
fn ov_next_entry_frames_number_and_entry() {
    let entry = OwnershipVoucherEntry::from_cbor(&sample_entry_bytes()).unwrap();
    let msg = OVNextEntry20::new(3, entry);
    let bytes = msg.to_cbor();
    let mut expected = vec![0x82, 0x03, 0x47];
    expected.extend_from_slice(&sample_entry_bytes());
    assert_eq!(bytes, expected);
    let back = OVNextEntry20::from_cbor(&bytes).unwrap();
    assert_eq!(back.entry_num(), 3);
    assert_eq!(back.entry().to_cbor(), sample_entry_bytes());
    let mut big = bytes.clone();
    big[1] = 0x19;
    big.insert(2, 0x00);
    big.insert(2, 0x01);
    assert!(OVNextEntry20::from_cbor(&big).is_err());
}

#[test]
fn setup_device_roundtrip_with_and_without_replacements() {
    let plain = SetupDevice20 {
        nonce_to2_setup_dv: Nonce::new(vec![1, 2, 3]),
        replacement_guid: None,
        replacement_rv_info: None,
        max_device_service_info_sz: 1300,
    };
    let bytes = plain.to_cbor();
    assert_eq!(bytes, vec![0x84, 0x43, 1, 2, 3, 0xf6, 0xf6, 0x19, 0x05, 0x14]);
    let back = SetupDevice20::from_cbor(&bytes).unwrap();
    assert_eq!(back.nonce_to2_setup_dv().as_bytes(), &[1, 2, 3]);
    assert!(back.replacement_guid().is_none());
    assert_eq!(back.max_device_service_info_sz(), 1300);

    let full = SetupDevice20 {
        nonce_to2_setup_dv: Nonce::new(vec![4]),
        replacement_guid: Some(Guid::new([5u8; 16])),
        replacement_rv_info: Some(sample_rv()),
        max_device_service_info_sz: 0,
    };
    let back = SetupDevice20::from_cbor(&full.to_cbor()).unwrap();
    assert_eq!(back.replacement_guid().unwrap().as_bytes(), &[5u8; 16]);
    let rv = back.replacement_rv_info().unwrap();
    assert_eq!(rv.0.len(), 1);
    assert_eq!(rv.0[0][1].key, 5);
    assert_eq!(rv.0[0][1].value, vec![0x64, b'h', b'o', b's', b't']);
}

#[test]
fn setup_device_rejects_short_guid() {
    let bytes = vec![0x84, 0x41, 1, 0x42, 1, 2, 0xf6, 0x00];
    assert!(SetupDevice20::from_cbor(&bytes).is_err());
}

#[test]
fn hello_rv_ack_reads_three_and_four_items() {
    let three = vec![0x83, 0x42, 0xaa, 0xbb, 0x82, 0x38, 0x22, 0x40, 0x41, 0x02];
    let ack = HelloRVAck::from_cbor(&three).unwrap();
    assert_eq!(ack.nonce4().as_bytes(), &[0xaa, 0xbb]);
    assert_eq!(ack.b_signature_info().sig_type, -35);
    assert_eq!(ack.capability_flags, vec![2]);
    assert!(ack.vendor_unique.is_none());
    assert_eq!(ack.to_cbor(), three);

    let four_null = vec![0x84, 0x42, 0xaa, 0xbb, 0x82, 0x38, 0x22, 0x40, 0x41, 0x02, 0xf6];
    assert!(HelloRVAck::from_cbor(&four_null).unwrap().vendor_unique.is_none());

    let four = vec![0x84, 0x41, 0x01, 0x82, 0x26, 0x40, 0x41, 0x02, 0x81, 0x61, b'x'];
    let ack = HelloRVAck::from_cbor(&four).unwrap();
    assert_eq!(ack.b_signature_info().sig_type, -7);
    assert_eq!(ack.vendor_unique, Some(vec!["x".to_string()]));
    assert_eq!(ack.to_cbor(), four);

    assert!(HelloRVAck::from_cbor(&[0x82, 0x40, 0x40]).is_err());
}

#[test]
fn hello_rv_encodes_flattened_flags() {
    let msg = HelloRV::new(Guid::new([1u8; 16]), SigInfo::new(-35, vec![]), CapabilityFlags::new_v20_client());
    let bytes = msg.to_cbor();
    let mut expected = vec![0x83, 0x50];
    expected.extend_from_slice(&[1u8; 16]);
    expected.extend_from_slice(&[0x82, 0x38, 0x22, 0x40, 0x41, 0x02]);
    assert_eq!(bytes, expected);
}

#[test]
fn service_info_encoding_and_reading() {
    let mut si = ServiceInfo::new();
    si.add("devmod:active".to_string(), vec![0xf5]);
    si.add("a:b".to_string(), vec![]);
    let bytes = si.to_cbor();
    let mut expected = vec![0x82, 0x82, 0x6d];
    expected.extend_from_slice(b"devmod:active");
    expected.extend_from_slice(&[0x41, 0xf5, 0x82, 0x63, b'a', b':', b'b', 0x40]);
    assert_eq!(bytes, expected);
    let back = ServiceInfo::from_cbor(&bytes).unwrap();
    assert_eq!(back.0, si.0);
    assert!(ServiceInfo::from_cbor(&[0x81, 0x81, 0x60]).is_err());
    assert_eq!(ServiceInfo::from_cbor(&[0x80]).unwrap().0.len(), 0);
}

#[test]
fn prove_ov_hdr_payload_reads_eight_fields() {
    let mut d = vec![0x88, 0x42, 0xaa, 0xbb, 0x03];
    d.extend_from_slice(&[0x82, 0x06, 0x41, 0x01]);
    d.extend_from_slice(&[0x41, 0x09]);
    d.extend_from_slice(&[0x82, 0x38, 0x22, 0x40]);
    d.extend_from_slice(&[0x43, 1, 2, 3]);
    d.extend_from_slice(&[0x82, 0x38, 0x2a, 0x41, 0x07]);
    d.extend_from_slice(&[0x19, 0x05, 0xdc]);
    let p = TO2ProveOVHdr20Payload::from_cbor(&d).unwrap();
    assert_eq!(p.ov_header, vec![0xaa, 0xbb]);
    assert_eq!(p.num_ov_entries, 3);
    assert_eq!(p.hmac.value, vec![1]);
    assert_eq!(p.nonce_to2_prove_ov.as_bytes(), &[9]);
    assert_eq!(p.b_signature_info.sig_type, -35);
    assert_eq!(p.xb_key_exchange, vec![1, 2, 3]);
    assert_eq!(p.hello_device_hash.value, vec![7]);
    assert_eq!(p.max_owner_message_size, 1500);
    let mut short = d.clone();
    short[0] = 0x87;
    short.truncate(short.len() - 3);
    assert!(TO2ProveOVHdr20Payload::from_cbor(&short).is_err());
}

#[test]
fn hello_device_ack_encoding_and_reading() {
    let ack = HelloDeviceAck20 {
        capability_flags: CapabilityFlags::new_v20_client(),
        guid: Guid::new([1u8; 16]),
        max_owner_message_size: 65535,
        kex_suites: vec![KexSuite::Ecdh384],
        cipher_suites: vec![CipherSuite::A256Gcm],
        nonce_to2_prove_dv_prep: Nonce::new(vec![7u8; 16]),
        hash_prev: fdo_data_formats::types::Hash::new(HashType::Sha256, vec![8, 9]),
    };
    let bytes = ack.to_cbor();
    let mut expected = vec![0x87, 0x82, 0x41, 0x02, 0xf6, 0x50];
    expected.extend_from_slice(&[1u8; 16]);
    expected.extend_from_slice(&[0x19, 0xff, 0xff, 0x81, 0x02, 0x81, 0x02, 0x50]);
    expected.extend_from_slice(&[7u8; 16]);
    expected.extend_from_slice(&[0x82, 0x2f, 0x42, 8, 9]);
    assert_eq!(bytes, expected);
    let back = HelloDeviceAck20::from_cbor(&bytes).unwrap();
    assert_eq!(back.max_owner_message_size, 65535);
    assert_eq!(back.kex_suites, vec![KexSuite::Ecdh384]);
    assert_eq!(back.cipher_suites, vec![CipherSuite::A256Gcm]);
    assert_eq!(back.nonce_to2_prove_dv_prep.as_bytes(), &[7u8; 16]);
    assert_eq!(back.hash_prev.value, vec![8, 9]);
    let mut bad = bytes.clone();
    let kex_at = 6 + 16 + 3 + 1;
    bad[kex_at] = 0x09; // no key exchange suite 9
    assert!(HelloDeviceAck20::from_cbor(&bad).is_err());
}

#[test]
fn owner_messages_are_read() {
    // [false, true, [["devmod:active", h'f5']]]
    let mut si = vec![0x83, 0xf4, 0xf5, 0x81, 0x82, 0x6d];
    si.extend_from_slice(b"devmod:active");
    si.extend_from_slice(&[0x41, 0xf5]);
    let m = OwnerSvcInfo20::from_cbor(&si).unwrap();
    assert!(!m.is_more_service_info());
    assert!(m.is_done());
    assert_eq!(m.service_info().0.len(), 1);
    assert_eq!(m.service_info().0[0].0, "devmod:active");
    assert_eq!(m.service_info().0[0].1, vec![0xf5]);
    assert!(OwnerSvcInfo20::from_cbor(&[0x83, 0xf4, 0x01, 0x80]).is_err());

    let done = DoneAck20::from_cbor(&[0x81, 0x42, 1, 2]).unwrap();
    assert_eq!(done.nonce_to2_prove_ov().as_bytes(), &[1, 2]);
    assert!(DoneAck20::from_cbor(&[0x81, 0x01]).is_err());

    // 18([h'a0', {}, h'01', h''])
    let cose = vec![0xd2, 0x84, 0x41, 0xa0, 0xa0, 0x41, 0x01, 0x40];
    let redirect = RVRedirect::from_cbor(&cose).unwrap();
    assert_eq!(redirect.0.as_bytes(), cose.as_slice());
    assert!(RVRedirect::from_cbor(&[0x80]).is_err());
}
