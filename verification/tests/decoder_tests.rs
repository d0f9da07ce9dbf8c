use aeromessage::decoder::parse_attributed_body;

#[test]
fn test_parse_attributed_body_simple() {
    let mut blob = Vec::new();
    blob.extend_from_slice(b"prefix");
    blob.extend_from_slice(b"NSString");
    blob.extend_from_slice(&[0, 0, 0, 0, 0]);
    blob.push(5);
    blob.extend_from_slice(b"Hello");

    assert_eq!(parse_attributed_body(&blob), Some("Hello".to_string()));
}

#[test]
fn test_parse_attributed_body_empty() {
    assert_eq!(parse_attributed_body(&[]), None);
    assert_eq!(parse_attributed_body(b"no marker here"), None);
}

#[test]
fn test_parse_attributed_body_long_length() {
    let mut blob = Vec::new();
    blob.extend_from_slice(b"NSString");
    blob.extend_from_slice(&[0, 0, 0, 0, 0]);
    blob.push(0x81);
    blob.extend_from_slice(&[10, 0]);
    blob.extend_from_slice(b"0123456789");

    assert_eq!(parse_attributed_body(&blob), Some("0123456789".to_string()));
}

#[test]
fn test_parse_attributed_body_truncated() {
    let blob = b"NSString12345";
    assert_eq!(parse_attributed_body(blob), None);
}

#[test]
fn test_parse_attributed_body_length_exceeds_data() {
    let mut blob = Vec::new();
    blob.extend_from_slice(b"NSString");
    blob.extend_from_slice(&[0, 0, 0, 0, 0]);
    blob.push(100);
    blob.extend_from_slice(b"short");

    assert_eq!(parse_attributed_body(&blob), None);
}

#[test]
fn test_parse_attributed_body_invalid_utf8() {
    let mut blob = Vec::new();
    blob.extend_from_slice(b"NSString");
    blob.extend_from_slice(&[0, 0, 0, 0, 0]);
    blob.push(2);
    blob.extend_from_slice(&[0xff, 0xfe]);

    assert_eq!(parse_attributed_body(&blob), None);
}

#[test]
fn test_parse_attributed_body_zero_length() {
    let mut blob = Vec::new();
    blob.extend_from_slice(b"NSString");
    blob.extend_from_slice(&[0, 0, 0, 0, 0]);
    blob.push(0);

    assert_eq!(parse_attributed_body(&blob), Some(String::new()));
}
