use fdo_data_formats::bmo::{
    bios_param_line, bios_param_response, bmo_handle_set, BmoFinalizeStep, BmoInProgress,
    BmoReply, BMO_DELIVERY_MODE_INLINE, BMO_DELIVERY_MODE_META_URL, BMO_DELIVERY_MODE_URL,
};
use fdo_data_formats::cbor_value::CborValue;

fn text(s: &str) -> CborValue {
    CborValue::Text(s.to_string())
}

fn begin_map(pairs: Vec<(i128, CborValue)>) -> CborValue {
    CborValue::Pairs(pairs.into_iter().map(|(k, v)| (CborValue::Integer(k), v)).collect())
}

fn completion(step: BmoFinalizeStep) -> (Vec<(String, Vec<u8>)>, u64, String) {
    match step {
        BmoFinalizeStep::Complete(c) => (
            c.writes.into_iter().map(|w| (w.file_name, w.contents)).collect(),
            c.status,
            c.message,
        ),
        BmoFinalizeStep::FetchMeta { .. } => panic!("unexpected fetch"),
    }
}

#[test]
fn image_begin_reads_fields_and_defaults() {
    let v = begin_map(vec![
        (-1, text("efi")),
        (0, CborValue::Integer(1234)),
        (1, text("sha384")),
        (-3, text("image.efi")),
        (-2, text("quiet")),
    ]);
    let b = BmoInProgress::parse_image_begin(&v).unwrap();
    assert_eq!(b.image_type, "efi");
    assert_eq!(b.total_size, Some(1234));
    assert_eq!(b.hash_alg.as_deref(), Some("sha384"));
    assert!(!b.require_ack);
    assert_eq!(b.delivery_mode, BMO_DELIVERY_MODE_INLINE);
    assert_eq!(b.name.as_deref(), Some("image.efi"));
    assert_eq!(b.boot_args.as_deref(), Some("quiet"));
    assert!(b.url.is_none());
}

#[test]
fn image_begin_errors() {
    assert!(BmoInProgress::parse_image_begin(&CborValue::Array(vec![])).is_err());
    let no_type = begin_map(vec![(0, CborValue::Integer(1))]);
    assert!(BmoInProgress::parse_image_begin(&no_type).is_err());
    let type_not_text = begin_map(vec![(-1, CborValue::Integer(1))]);
    assert!(BmoInProgress::parse_image_begin(&type_not_text).is_err());
}

#[test]
fn ack_and_result_values() {
    let mut out: Vec<BmoReply> = Vec::new();
    BmoInProgress::send_ack(&mut out, true, Some(7), Some("ok"));
    BmoInProgress::send_result(&mut out, 2, "bad");
    assert_eq!(out.len(), 2);
    assert_eq!(out[0].key, "image-ack");
    match &out[0].value {
        CborValue::Array(items) => {
            assert_eq!(items.len(), 3);
            assert!(matches!(items[0], CborValue::Bool(true)));
            assert!(matches!(items[1], CborValue::Integer(7)));
            assert!(matches!(&items[2], CborValue::Text(t) if t == "ok"));
        }
        _ => panic!("image-ack is an array"),
    }
    assert_eq!(out[1].key, "image-result");
    match &out[1].value {
        CborValue::Array(items) => {
            assert!(matches!(items[0], CborValue::Integer(2)));
            assert!(matches!(&items[1], CborValue::Text(t) if t == "bad"));
        }
        _ => panic!("image-result is an array"),
    }
}

#[test]
fn finalize_without_begin_fails() {
    let mut st = BmoInProgress::new();
    assert!(st.finalize(None, &None).is_err());
}

#[test]
fn finalize_inline_without_hash_writes_image_and_boot_args() {
    let mut st = BmoInProgress::new();
    st.begin = Some(
        BmoInProgress::parse_image_begin(&begin_map(vec![(-1, text("efi")), (-2, text("quiet"))]))
            .unwrap(),
    );
    st.data = vec![1, 2, 3];
    let (writes, status, msg) = completion(st.finalize(None, &None).unwrap());
    assert_eq!(status, 0);
    assert_eq!(msg, "Image received: 3 bytes");
    assert_eq!(
        writes,
        vec![
            ("bmo-image.bin".to_string(), vec![1, 2, 3]),
            ("boot_args".to_string(), b"quiet".to_vec())
        ]
    );
    assert!(st.begin.is_none());
    assert!(st.data.is_empty());
}

#[test]
fn finalize_inline_checks_hash() {
    let data = b"hello bmo".to_vec();
    let digest = openssl::sha::sha256(&data).to_vec();
    let make = || {
        let mut st = BmoInProgress::new();
        st.begin = Some(
            BmoInProgress::parse_image_begin(&begin_map(vec![
                (-1, text("efi")),
                (-3, text("img")),
            ]))
            .unwrap(),
        );
        st.data = data.clone();
        st
    };
    let mut good = make();
    let (writes, status, _) = completion(good.finalize(Some(&digest), &None).unwrap());
    assert_eq!(status, 0);
    assert_eq!(writes, vec![("img".to_string(), data.clone())]);

    let mut bad = make();
    let (writes, status, msg) = completion(bad.finalize(Some(&[0u8; 32]), &None).unwrap());
    assert_eq!((writes.len(), status, msg.as_str()), (0, 2, "Hash verification failed"));
    assert_eq!(bad.data, data);

    let mut unknown = make();
    let (writes, status, msg) = completion(
        unknown.finalize(Some(&digest), &Some("md5".to_string())).unwrap(),
    );
    assert_eq!(writes.len(), 0);
    assert_eq!(status, 2);
    assert_eq!(msg, "Unsupported hash algorithm: md5");
}

#[test]
fn finalize_url_records_url_and_files() {
    let mut st = BmoInProgress::new();
    st.begin = Some(
        BmoInProgress::parse_image_begin(&begin_map(vec![
            (-1, text("iso")),
            (-6, CborValue::Integer(BMO_DELIVERY_MODE_URL as i128)),
            (-7, text("https://example.com/x.iso")),
            (-3, text("x.iso")),
            (-9, CborValue::Bytes(vec![9, 9])),
        ]))
        .unwrap(),
    );
    let (writes, status, msg) = completion(st.finalize(None, &None).unwrap());
    assert_eq!(status, 0);
    assert_eq!(msg, "URL received: https://example.com/x.iso");
    assert_eq!(writes[0].0, "bmo-url.txt");
    assert_eq!(
        String::from_utf8(writes[0].1.clone()).unwrap(),
        "delivery_mode=1\nurl=https://example.com/x.iso\nimage_type=iso\nname=x.iso\n"
    );
    assert_eq!(writes[1], ("expected_hash.bin".to_string(), vec![9, 9]));
    assert_eq!(writes.len(), 2);
}

#[test]
fn finalize_meta_url_asks_for_fetch_then_completes() {
    let mut st = BmoInProgress::new();
    st.begin = Some(
        BmoInProgress::parse_image_begin(&begin_map(vec![
            (-1, text("iso")),
            (-6, CborValue::Integer(BMO_DELIVERY_MODE_META_URL as i128)),
            (-7, text("https://meta")),
        ]))
        .unwrap(),
    );
    let step = st.finalize(None, &None).unwrap();
    let (begin, url) = match step {
        BmoFinalizeStep::FetchMeta { begin, url } => (begin, url),
        _ => panic!("expected fetch"),
    };
    assert_eq!(url, "https://meta");
    // {0: "iso", 1: "https://img", 6: "n"}
    let meta: Vec<u8> = vec![
        0xa3, 0x00, 0x63, b'i', b's', b'o', 0x01, 0x6b, b'h', b't', b't', b'p', b's', b':', b'/', b'/',
        b'i', b'm', b'g', 0x06, 0x61, b'n',
    ];
    let c = BmoInProgress::finish_meta_url(&begin, &url, &meta).unwrap();
    assert_eq!(c.status, 0);
    assert_eq!(c.message, "Meta-URL resolved: image_url=https://img");
    assert_eq!(c.writes[0].file_name, "bmo-meta-url.txt");
    assert_eq!(
        String::from_utf8(c.writes[0].contents.clone()).unwrap(),
        "delivery_mode=2\nmeta_url=https://meta\nimage_type=iso\nimage_url=https://img\nname=n\n"
    );
    assert_eq!(c.writes[1].file_name, "meta_payload.cbor");
    assert_eq!(c.writes[1].contents, meta);
    assert!(BmoInProgress::finish_meta_url(&begin, &url, &[0x80]).is_err());
    assert!(BmoInProgress::finish_meta_url(&begin, &url, &[0xa1, 0x00]).is_err());
    let empty = BmoInProgress::finish_meta_url(&begin, &url, &[0xa0]).unwrap();
    assert_eq!(empty.message, "Meta-URL resolved: image_url=");
}

#[test]
fn finalize_meta_url_without_url_fails_and_unknown_mode_is_answered() {
    let mut st = BmoInProgress::new();
    st.begin = Some(
        BmoInProgress::parse_image_begin(&begin_map(vec![
            (-1, text("iso")),
            (-6, CborValue::Integer(2)),
        ]))
        .unwrap(),
    );
    assert!(st.finalize(None, &None).is_err());

    let mut st = BmoInProgress::new();
    st.begin = Some(
        BmoInProgress::parse_image_begin(&begin_map(vec![
            (-1, text("iso")),
            (-6, CborValue::Integer(9)),
        ]))
        .unwrap(),
    );
    let (writes, status, msg) = completion(st.finalize(None, &None).unwrap());
    assert_eq!((writes.len(), status), (0, 2));
    assert_eq!(msg, "Unsupported delivery mode: 9");
}

#[test]
fn set_reads_parameters_and_skips_malformed() {
    let v = CborValue::Array(vec![
        CborValue::Array(vec![text("BootOrder"), text("usb")]),
        CborValue::Array(vec![text("Secure"), CborValue::Bool(true)]),
        CborValue::Array(vec![CborValue::Integer(1), text("x")]),
        CborValue::Array(vec![text("lonely")]),
        CborValue::Array(vec![text("Count"), CborValue::Integer(-5)]),
        CborValue::Array(vec![text("Nothing"), CborValue::Null]),
        CborValue::Array(vec![text("Blob"), CborValue::Bytes(vec![1])]),
    ]);
    let ps = bmo_handle_set(&v).unwrap();
    let got: Vec<(usize, String, Option<String>)> =
        ps.into_iter().map(|p| (p.index, p.name, p.value)).collect();
    assert_eq!(
        got,
        vec![
            (0, "BootOrder".to_string(), Some("usb".to_string())),
            (1, "Secure".to_string(), Some("true".to_string())),
            (4, "Count".to_string(), Some("-5".to_string())),
            (5, "Nothing".to_string(), Some("null".to_string())),
            (6, "Blob".to_string(), None),
        ]
    );
    assert!(bmo_handle_set(&text("not an array")).is_err());
    assert_eq!(bios_param_line("A", "b"), "A=b");
    let r = bios_param_response("A", "b");
    assert_eq!(r.key, "response");
    match r.value {
        CborValue::Array(items) => {
            assert!(matches!(items[0], CborValue::Integer(0)));
            assert!(matches!(&items[1], CborValue::Text(t) if t == "Set A=b"));
        }
        _ => panic!("response is an array"),
    }
}
