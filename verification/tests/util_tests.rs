use metec_sensor::util::from_string_to_u8;

#[test]
fn shorter_text_is_padded_with_zeros() {
    let field: [u8; 10] = from_string_to_u8("CH4A");
    assert_eq!(field, [b'C', b'H', b'4', b'A', 0, 0, 0, 0, 0, 0]);
}

#[test]
fn text_of_exact_width_fills_field() {
    let field: [u8; 10] = from_string_to_u8("0123456789");
    assert_eq!(&field, b"0123456789");
}

#[test]
fn longer_text_is_cut() {
    let field: [u8; 10] = from_string_to_u8("C2H6sensorB-extra");
    assert_eq!(&field, b"C2H6sensor");
}

#[test]
fn empty_text_gives_zeros() {
    let field: [u8; 4] = from_string_to_u8("");
    assert_eq!(field, [0, 0, 0, 0]);
}

#[test]
fn field_of_width_zero() {
    let field: [u8; 0] = from_string_to_u8("anything");
    assert_eq!(field.len(), 0);
}

#[test]
fn text_is_cut_by_bytes_not_by_characters() {
    // "é" is two bytes in UTF-8: 0xC3 0xA9.
    let field: [u8; 2] = from_string_to_u8("aé");
    assert_eq!(field, [b'a', 0xC3]);
    let whole: [u8; 4] = from_string_to_u8("aé");
    assert_eq!(whole, [b'a', 0xC3, 0xA9, 0]);
}
