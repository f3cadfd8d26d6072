use base64::engine::general_purpose::STANDARD;
use base64::Engine;
use snap_marketplace::base64_text::decode_base64;

#[test]
fn known_texts() {
    assert_eq!(decode_base64("").unwrap(), b"");
    assert_eq!(decode_base64("Zg==").unwrap(), b"f");
    assert_eq!(decode_base64("Zm8=").unwrap(), b"fo");
    assert_eq!(decode_base64("Zm9vYmFy").unwrap(), b"foobar");
    assert_eq!(decode_base64("+/+/").unwrap(), [0xfb, 0xff, 0xbf]);
}

#[test]
fn encoded_bytes_decode() {
    for n in 0..70usize {
        let bytes: Vec<u8> = (0..n).map(|i| (i * 53 + n * 7) as u8).collect();
        assert_eq!(decode_base64(&STANDARD.encode(&bytes)), Some(bytes));
    }
}

#[test]
fn other_texts_do_not_decode() {
    for text in ["Z", "Zg", "Zg=", "Zh==", "Zg==Zg==", "Z-_=", "Zg== ", "=", "Zm9v\n"] {
        assert_eq!(decode_base64(text), None);
    }
}
