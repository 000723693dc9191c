use fdo_data_formats::onboarding::manufacturer_key_matches;
use fdo_data_formats::ownershipvoucher::{
    check_device_info, OwnershipVoucher, OwnershipVoucherEntry, OwnershipVoucherEntryPayload,
    OwnershipVoucherHeader, PublicKey, Serializable,
};
use fdo_data_formats::constants::{HashType, ProtocolVersion};
use fdo_data_formats::types::{Guid, HMac, RendezvousDirective, RendezvousInfo};
use fdo_data_formats::cbor_write::{write_bytes, write_head, write_int, write_null};

fn hex_decode(s: &str) -> Vec<u8> {
    (0..s.len())
        .step_by(2)
        .map(|i| u8::from_str_radix(&s[i..i + 2], 16).unwrap())
        .collect()
}

#[test]
fn test_check_device_info_unsupported_characters() {
    let device_info: String = "FDO\n".to_string();
    let is_device_info_valid = check_device_info(&device_info);
    assert!(is_device_info_valid.is_err());
}

#[test]
fn test_check_device_info_supported_characters() {
    let device_info: String = "FDO".to_string();
    let is_device_info_valid = check_device_info(&device_info);
    assert!(is_device_info_valid.is_ok());
}

#[test]
fn test_ov_entry_payload_deserialize_from_array() {
    // The COSE payload bytes from the Go server's OV entry
    // First byte 0x84 = CBOR array(4)
    let payload_bytes: Vec<u8> = vec![
        0x84, // array(4)
        0x82, 0x2f, 0x58, 0x20, // Hash: [Sha256(-16), bytes(32)]
        0x6f, 0x2b, 0x1e, 0x1c, 0x8f, 0x8c, 0x26, 0x63, 0x5e, 0xf7, 0x32, 0xff, 0x60, 0x80,
        0x1f, 0x00, 0x00, 0x00, 0x00, 0x00, 0x00, 0x00, 0x00, 0x00, 0x00, 0x00, 0x00, 0x00,
        0x00, 0x00, 0x00, 0x00, 0x82, 0x2f, 0x58, 0x20, // Hash: [Sha256(-16), bytes(32)]
        0x00, 0x00, 0x00, 0x00, 0x00, 0x00, 0x00, 0x00, 0x00, 0x00, 0x00, 0x00, 0x00, 0x00,
        0x00, 0x00, 0x00, 0x00, 0x00, 0x00, 0x00, 0x00, 0x00, 0x00, 0x00, 0x00, 0x00, 0x00,
        0x00, 0x00, 0x00, 0x00, 0x41, 0xa0, // extra: bytes(1) 0xa0  OR  empty map
        0x83, 0x0a, 0x01, 0x41, 0x00, // PublicKey: [10, 1, bytes(1)]
    ];

    let result = OwnershipVoucherEntryPayload::from_cbor(&payload_bytes);
    match result {
        Ok(_) => println!("deserialization succeeded"),
        Err(e) => println!("deserialization failed: {}", e.0),
    }
}

#[test]
fn test_ov_entry_cose_roundtrip() {
    // Actual OV entry bytes from Go FDO server's TO2.OVNextEntry20 response
    let entry_hex = "d28443a10126a058ab84822f5820c71d7110ca19380db5fe9f25767cc03d5bda5d20b1f56e97687fba79139acf6c822f5820c4347dcd86249676720e60b16f1dc213a9dbab6c34a744781c32f20d1e1a472d41a0830a01585b3059301306072a8648ce3d020106082a8648ce3d03010703420004c635bbfddca7499345d35e1e86ffddc1ad5287a58b51d5450109229093b28f4a1f9212db16390b2b63ee2c501efb905324a8f461bcbc253761c4fae070cd4b935840474effc48c7aeebd5d2d27071682c559dd9ab81c9866eec9eeae479a7f94bb54ce0c91b6666f15790376e16538f4143fba8a80455775c73fe0e7f2f077fad7e9";
    let entry_bytes = hex_decode(entry_hex);

    let entry = OwnershipVoucherEntry::from_cbor(&entry_bytes)
        .expect("Failed to deserialize OV entry from Go server bytes");
    let reserialized = entry.to_cbor();
    let _entry2 = OwnershipVoucherEntry::from_cbor(&reserialized)
        .expect("Failed to deserialize OV entry after round-trip");
}

fn sample_header(device_info: &str) -> OwnershipVoucherHeader {
    let rv = RendezvousInfo(vec![vec![
        RendezvousDirective { key: 3, value: vec![0x42, 0x01, 0x02] },
        RendezvousDirective { key: 5, value: vec![0x19, 0x1f, 0x90] },
    ]]);
    OwnershipVoucherHeader::new(
        ProtocolVersion::Version1_1,
        Guid::new([7u8; 16]),
        rv,
        device_info.to_string(),
        PublicKey { encoded: vec![0x83, 0x0a, 0x01, 0x41, 0x00] },
        None,
    )
    .unwrap()
}

#[test]
fn header_new_trims_device_info() {
    let h = sample_header("  device-1 \n");
    assert_eq!(h.device_info(), "device-1");
}

#[test]
fn header_serialize_then_read_back() {
    let h = sample_header("device-1");
    let bytes = h.to_cbor().unwrap();
    assert_eq!(bytes[0], 0x86);
    let back = OwnershipVoucherHeader::from_cbor(&bytes).unwrap();
    assert_eq!(back.device_info(), "device-1");
    assert_eq!(back.guid().as_bytes(), &[7u8; 16]);
    assert_eq!(back.protocol_version(), ProtocolVersion::Version1_1);
    assert_eq!(back.rendezvous_info().0.len(), 1);
    assert_eq!(back.rendezvous_info().0[0][1].key, 5);
    assert_eq!(back.rendezvous_info().0[0][1].value, vec![0x19, 0x1f, 0x90]);
    assert_eq!(back.manufacturer_public_key().encoded, vec![0x83, 0x0a, 0x01, 0x41, 0x00]);
    assert!(back.device_certificate_chain_hash().is_none());
}

#[test]
fn header_with_bad_device_info_is_not_written() {
    let h = sample_header("bad\u{7f}info");
    assert!(h.to_cbor().is_err());
}

#[test]
fn voucher_new_then_read_back() {
    let h = sample_header("device-1");
    let hmac = HMac::new(HashType::HmacSha256, vec![9u8; 32]);
    let ov = OwnershipVoucher::new(h, hmac, None).unwrap();
    assert_eq!(ov.num_entries(), 0);
    let bytes = ov.to_cbor();
    let back = OwnershipVoucher::from_cbor(&bytes).unwrap();
    assert_eq!(back.protocol_version, ProtocolVersion::Version1_1);
    assert_eq!(back.header_hmac().value, vec![9u8; 32]);
    assert_eq!(back.header().device_info(), "device-1");
    assert!(back.device_certificate_chain().is_none());
    assert!(back.entry(0).is_err());
    let raw_again = OwnershipVoucher::from_pem_or_raw(&bytes).unwrap();
    assert_eq!(raw_again.raw, bytes);
}

#[test]
fn voucher_from_parts_keeps_entries() {
    let h = sample_header("device-1");
    let header_bytes = h.to_cbor().unwrap();
    let entry_hex = "d28443a10126a058ab84822f5820c71d7110ca19380db5fe9f25767cc03d5bda5d20b1f56e97687fba79139acf6c822f5820c4347dcd86249676720e60b16f1dc213a9dbab6c34a744781c32f20d1e1a472d41a0830a01585b3059301306072a8648ce3d020106082a8648ce3d03010703420004c635bbfddca7499345d35e1e86ffddc1ad5287a58b51d5450109229093b28f4a1f9212db16390b2b63ee2c501efb905324a8f461bcbc253761c4fae070cd4b935840474effc48c7aeebd5d2d27071682c559dd9ab81c9866eec9eeae479a7f94bb54ce0c91b6666f15790376e16538f4143fba8a80455775c73fe0e7f2f077fad7e9";
    let entry = hex_decode(entry_hex);
    let hmac = HMac::new(HashType::HmacSha384, vec![1u8; 48]);
    let ov = OwnershipVoucher::from_parts(
        ProtocolVersion::Version2_0,
        &header_bytes,
        hmac,
        vec![entry.clone()],
    )
    .unwrap();
    assert_eq!(ov.num_entries(), 1);
    assert_eq!(ov.entry(0).unwrap().to_cbor(), entry);
    let back = OwnershipVoucher::from_cbor(&ov.to_cbor()).unwrap();
    assert_eq!(back.entries, vec![entry]);
    assert_eq!(back.protocol_version, ProtocolVersion::Version2_0);
}

#[test]
fn voucher_from_pem_or_raw_refuses_empty_and_bad_pem() {
    assert!(OwnershipVoucher::from_pem_or_raw(&[]).is_err());
    assert!(OwnershipVoucher::from_pem_or_raw(b"--not pem at all").is_err());
    assert!(OwnershipVoucher::from_pem_or_raw(&[0x84, 0x01, 0x02, 0x03, 0x04]).is_err());
}

#[test]
fn voucher_pem_roundtrip() {
    let h = sample_header("device-1");
    let hmac = HMac::new(HashType::HmacSha256, vec![9u8; 32]);
    let ov = OwnershipVoucher::new(h, hmac, None).unwrap();
    let pem = ov.to_pem().unwrap();
    assert!(pem.starts_with("-----BEGIN OWNERSHIP VOUCHER-----"));
    let back = OwnershipVoucher::from_pem_or_raw(pem.as_bytes()).unwrap();
    assert_eq!(back.raw, ov.raw);
    let many = OwnershipVoucher::many_from_pem(format!("{}{}", pem, pem).as_bytes()).unwrap();
    assert_eq!(many.len(), 2);
    let other = pem.replace("OWNERSHIP VOUCHER", "CERTIFICATE");
    assert!(OwnershipVoucher::many_from_pem(format!("{}{}", pem, other).as_bytes()).is_err());
    assert!(OwnershipVoucher::many_from_pem(&[]).is_err());
}

#[test]
fn header_hash_and_chain_hash() {
    let h = sample_header("device-1");
    let hash = h.manufacturer_public_key_hash(HashType::Sha256).unwrap();
    assert_eq!(hash.value.len(), 32);
    assert!(h.manufacturer_public_key_hash(HashType::HmacSha256).is_err());
    let hmac = HMac::new(HashType::HmacSha256, vec![9u8; 32]);
    let ov = OwnershipVoucher::new(h, hmac, None).unwrap();
    assert!(ov.device_certificate_chain_hash(HashType::Sha256).is_none());
    let hh = ov.hdr_hash(HashType::Sha384).unwrap();
    assert_eq!(hh.value.len(), 48);
}

#[test]
fn serializable_roundtrip_of_voucher() {
    let h = sample_header("device-2");
    let hmac = HMac::new(HashType::HmacSha256, vec![3u8; 32]);
    let ov = OwnershipVoucher::new(h, hmac, None).unwrap();
    let bytes = Serializable::serialize_data(&ov).unwrap();
    let back = <OwnershipVoucher as Serializable>::deserialize_data(&bytes).unwrap();
    assert_eq!(back.raw, ov.raw);
    assert_eq!(back.header().device_info(), "device-2");
}

fn entry_for(prev_hash: &[u8], hdr_info_hash: &[u8], pubkey: &[u8]) -> Vec<u8> {
    let mut payload = Vec::new();
    write_head(&mut payload, 4, 4);
    write_head(&mut payload, 4, 2);
    write_int(&mut payload, -16);
    write_bytes(&mut payload, prev_hash);
    write_head(&mut payload, 4, 2);
    write_int(&mut payload, -16);
    write_bytes(&mut payload, hdr_info_hash);
    write_null(&mut payload);
    payload.extend_from_slice(pubkey);
    let mut cose = vec![0xd2];
    write_head(&mut cose, 4, 4);
    write_bytes(&mut cose, &[0xa1, 0x01, 0x26]);
    cose.push(0xa0);
    write_bytes(&mut cose, &payload);
    write_bytes(&mut cose, &[0u8; 64]);
    cose
}

#[test]
fn entry_chain_is_checked() {
    let h = sample_header("device-1");
    let hmac = HMac::new(HashType::HmacSha256, vec![9u8; 32]);
    let base = OwnershipVoucher::new(h, hmac.clone(), None).unwrap();
    let mut linked = base.header_raw.clone();
    linked.extend_from_slice(&base.header_hmac_raw);
    let h1 = openssl::sha::sha256(&linked).to_vec();
    let mut info = vec![7u8; 16];
    info.extend_from_slice(b"device-1");
    let h2 = openssl::sha::sha256(&info).to_vec();
    let owner_key = vec![0x83, 0x0a, 0x01, 0x41, 0x05];
    let good = entry_for(&h1, &h2, &owner_key);
    let ov = OwnershipVoucher::from_parts(
        ProtocolVersion::Version2_0,
        &base.header_raw,
        hmac.clone(),
        vec![good.clone()],
    )
    .unwrap();
    let mut it = ov.iter_entries().unwrap();
    assert_eq!(it.last_pubkey.encoded, vec![0x83, 0x0a, 0x01, 0x41, 0x00]);
    assert_eq!(it.pending_entry(), Some(&good));
    let first = it.next(true).unwrap().unwrap();
    assert_eq!(first.public_key().encoded, owner_key);
    assert_eq!(first.hash_previous_entry().value, h1);
    assert!(first.extra().is_none());
    assert_eq!(it.last_pubkey.encoded, owner_key);
    assert!(it.next(true).is_none());

    let mut it = ov.iter_entries().unwrap();
    assert!(it.next(false).unwrap().is_err());
    assert!(it.next(true).is_none());

    let bad = entry_for(&[0u8; 32], &h2, &owner_key);
    let ov_bad = OwnershipVoucher::from_parts(
        ProtocolVersion::Version2_0,
        &base.header_raw,
        hmac,
        vec![bad],
    )
    .unwrap();
    let mut it = ov_bad.iter_entries().unwrap();
    assert!(it.next(true).unwrap().is_err());
    assert!(it.errored);
}

fn sign1_around(payload: &[u8]) -> Vec<u8> {
    let mut cose = vec![0xd2];
    write_head(&mut cose, 4, 4);
    write_bytes(&mut cose, &[0xa1, 0x01, 0x26]);
    cose.push(0xa0);
    write_bytes(&mut cose, payload);
    write_bytes(&mut cose, &[0u8; 64]);
    cose
}

#[test]
fn extend_then_walk() {
    let h = sample_header("device-1");
    let hmac = HMac::new(HashType::HmacSha384, vec![9u8; 48]);
    let mut ov = OwnershipVoucher::new(h, hmac, None).unwrap();
    assert_eq!(ov.hash_type(), HashType::Sha384);
    assert_eq!(
        ov.current_owner_public_key().unwrap().encoded,
        vec![0x83, 0x0a, 0x01, 0x41, 0x00]
    );
    let next = PublicKey { encoded: vec![0x83, 0x0a, 0x01, 0x41, 0x01] };
    let p1 = ov.extend_payload(None, &next).unwrap();
    let e1 = sign1_around(&p1.to_cbor().unwrap());
    ov.append_entry(e1.clone()).unwrap();
    assert_eq!(ov.num_entries(), 1);
    assert_eq!(ov.current_owner_public_key().unwrap().encoded, next.encoded);

    let third = PublicKey { encoded: vec![0x83, 0x0a, 0x01, 0x41, 0x02] };
    let p2 = ov.extend_payload(Some(vec![0xa0]), &third).unwrap();
    let e2 = sign1_around(&p2.to_cbor().unwrap());
    ov.append_entry(e2).unwrap();
    assert!(ov.append_entry(vec![0x82, 0x01]).is_err());
    assert_eq!(ov.num_entries(), 2);

    let back = OwnershipVoucher::from_cbor(&ov.to_cbor()).unwrap();
    let mut it = back.iter_entries().unwrap();
    let first = it.next(true).unwrap().unwrap();
    assert_eq!(first.public_key().encoded, next.encoded);
    let second = it.next(true).unwrap().unwrap();
    assert_eq!(second.public_key().encoded, third.encoded);
    assert_eq!(second.extra(), Some(&vec![0xa0]));
    assert!(it.next(true).is_none());

    // Checking signatures too: the first entry's signature does not verify
    // with the manufacturer's key, so the walk fails there and then stops.
    let mut it = back.iter_entries().unwrap();
    assert!(it.next_verified().unwrap().is_err());
    assert!(it.errored);
    assert_eq!(it.index, 1);
    assert!(it.next_verified().is_none());
    assert!(it.next_verified().is_none());
}

#[test]
fn manufacturer_key_hash_matching() {
    let h = sample_header("device-1");
    let good = h.manufacturer_public_key_hash(HashType::Sha384).unwrap();
    assert_eq!(good.value.len(), 48);
    assert!(manufacturer_key_matches(&h, &good));
    let mut wrong = good.clone();
    wrong.value[0] ^= 1;
    assert!(!manufacturer_key_matches(&h, &wrong));
    let hmac_type = fdo_data_formats::types::Hash::new(HashType::HmacSha256, good.value.clone());
    assert!(!manufacturer_key_matches(&h, &hmac_type));
}

#[test]
fn entry_payload_from_parts() {
    let prev = fdo_data_formats::types::Hash::new(HashType::Sha256, vec![1u8; 32]);
    let info = fdo_data_formats::types::Hash::new(HashType::Sha256, vec![2u8; 32]);
    let key = PublicKey { encoded: vec![0x83, 0x0a, 0x01, 0x41, 0x00] };
    let p = OwnershipVoucherEntryPayload::new(prev, info, None, key).unwrap();
    let bytes = p.to_cbor().unwrap();
    let back = OwnershipVoucherEntryPayload::from_cbor(&bytes).unwrap();
    assert_eq!(back.hash_previous_entry.value, vec![1u8; 32]);
    assert_eq!(back.hash_header_info.value, vec![2u8; 32]);
    assert!(back.extra.is_none());
    assert_eq!(back.public_key.encoded, vec![0x83, 0x0a, 0x01, 0x41, 0x00]);
}
