use fdo_data_formats::cbor_scan::{
    item_len_at, read_bool, read_bytes, read_int, read_null, read_text, read_uint, split_array,
};
use fdo_data_formats::cbor_write::{write_bytes, write_head, write_int, write_null, write_text};

#[test]
fn write_then_split() {
    let mut buf = Vec::new();
    write_head(&mut buf, 4, 5);
    write_int(&mut buf, -500);
    write_bytes(&mut buf, &[1, 2, 3]);
    write_text(&mut buf, "héllo");
    write_null(&mut buf);
    write_int(&mut buf, 1 << 40);
    let parts = split_array(&buf).unwrap();
    assert_eq!(parts.len(), 5);
    assert_eq!(read_int(&parts[0]), Some(-500));
    assert_eq!(read_bytes(&parts[1]), Some(vec![1, 2, 3]));
    assert_eq!(read_text(&parts[2]).as_deref(), Some("héllo"));
    assert!(read_null(&parts[3]));
    assert_eq!(read_uint(&parts[4]), Some(1 << 40));
    assert_eq!(parts[0], vec![0x39, 0x01, 0xf3]);
}

#[test]
fn malformed_items() {
    assert!(split_array(&[]).is_none());
    assert!(split_array(&[0x82, 0x01]).is_none());
    assert!(split_array(&[0x81, 0x01, 0x02]).is_none());
    assert!(split_array(&[0x9f, 0x01, 0xff]).is_none());
    assert!(split_array(&[0x01]).is_none());
    assert_eq!(item_len_at(&[0xa1, 0x01, 0x82, 0x02, 0x03, 0x00], 0, 32), Some(5));
    assert_eq!(item_len_at(&[0x5a, 0x00, 0x00, 0x00, 0x09], 0, 32), None);
    assert_eq!(read_bool(&[0xf5]), Some(true));
    assert_eq!(read_bool(&[0xf6]), None);
    assert!(read_text(&[0x62, 0xff, 0xfe]).is_none());
}

#[test]
fn nesting_limit() {
    let mut deep = vec![0x81u8; 40];
    deep.push(0x00);
    assert!(split_array(&deep).is_none());
    let mut ok = vec![0x81u8; 10];
    ok.push(0x00);
    assert_eq!(split_array(&ok).unwrap().len(), 1);
}
