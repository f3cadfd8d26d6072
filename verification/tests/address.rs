use snap_marketplace::address::{address_from_text, address_text, same_id};

#[test]
fn short_addresses_are_filled_up() {
    let id = address_from_text("0x2").unwrap();
    let mut expected = [0u8; 32];
    expected[31] = 2;
    assert_eq!(id, expected);
    assert_eq!(
        address_text(&id),
        "0x0000000000000000000000000000000000000000000000000000000000000002"
    );
}

#[test]
fn written_addresses_read_back() {
    let mut id = [0u8; 32];
    for (i, b) in id.iter_mut().enumerate() {
        *b = (i * 37 + 11) as u8;
    }
    assert_eq!(address_from_text(&address_text(&id)), Some(id));
    assert_eq!(address_text(&[0xab; 32]), format!("0x{}", "ab".repeat(32)));
}

#[test]
fn upper_case_digits_are_read() {
    assert_eq!(address_from_text("0xAb"), address_from_text("0xaB"));
    assert_eq!(address_from_text("0xAb").unwrap()[31], 0xab);
    assert_eq!(address_from_text("0xabc").unwrap()[30..], [0x0a, 0xbc]);
}

#[test]
fn other_texts_are_no_addresses() {
    assert_eq!(address_from_text(""), None);
    assert_eq!(address_from_text("0x"), None);
    assert_eq!(address_from_text("0xg"), None);
    assert_eq!(address_from_text("hello"), None);
    assert_eq!(address_from_text(" 0x2"), None);
    assert_eq!(address_from_text(&format!("0x{}", "0".repeat(65))), None);
}

#[test]
fn identifiers_are_compared_byte_by_byte() {
    let a = [1u8; 32];
    let mut b = a;
    assert!(same_id(&a, &b));
    b[31] = 2;
    assert!(!same_id(&a, &b));
}
