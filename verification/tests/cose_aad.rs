use fdo_data_formats::cose_aad::{
    aad_owner_sign, aad_ov_entry, aad_prove_device, aad_prove_ov_hdr, aad_prove_to_rv,
    serialize_protected_header, sig1_structure_bytes,
};
use serde_bytes::ByteBuf;

#[test]
fn test_aad_encoding() {
    // The Go server encodes ["FDO-TO1-ProveToRV-v1"] as CBOR array of 1 tstr.
    let aad = aad_prove_to_rv();
    let decoded: Vec<String> = serde_cbor::from_slice(&aad).unwrap();
    assert_eq!(decoded, vec!["FDO-TO1-ProveToRV-v1"]);
}

#[test]
fn test_sig1_structure() {
    let protected = vec![0xa1, 0x01, 0x26]; // {1: -7} (ES256)
    let aad = b"test-aad";
    let payload = b"test-payload";

    let result = sig1_structure_bytes(&protected, aad, payload).unwrap();
    let decoded: (String, ByteBuf, ByteBuf, ByteBuf) = serde_cbor::from_slice(&result).unwrap();
    assert_eq!(decoded.0, "Signature1");
    assert_eq!(decoded.1.as_ref(), &protected);
    assert_eq!(decoded.2.as_ref(), aad);
    assert_eq!(decoded.3.as_ref(), payload);
}

#[test]
fn test_protected_header_es256() {
    let header = serialize_protected_header(-7).unwrap(); // ES256
    assert_eq!(header, vec![0xa1, 0x01, 0x26]);
}

#[test]
fn test_protected_header_es384() {
    let header = serialize_protected_header(-35).unwrap(); // ES384
    assert_eq!(header, vec![0xa1, 0x01, 0x38, 0x22]);
}

#[test]
fn domain_tags_are_distinct_single_text_arrays() {
    let all = [
        aad_owner_sign(),
        aad_prove_to_rv(),
        aad_prove_device(),
        aad_prove_ov_hdr(),
        aad_ov_entry(),
    ];
    for (i, a) in all.iter().enumerate() {
        assert_eq!(a[0], 0x81);
        for (j, b) in all.iter().enumerate() {
            if i != j {
                assert_ne!(a, b);
            }
        }
    }
}

#[test]
fn test_1tuple_ciborium_deser() {
    // Verify ciborium can deserialize 1-tuple from CBOR array(1)
    let test_data: Vec<u8> = vec![0x81, 0x43, 0xDE, 0xAD, 0xBE];
    let result: (serde_bytes::ByteBuf,) = ciborium::de::from_reader(&test_data[..]).unwrap();
    assert_eq!(&result.0[..], &[0xDE, 0xAD, 0xBE]);
}
