use tag_access::error::ErrorKind;
use tag_access::hexconf::get_from_hex_array;

#[test]
fn decodes_two_tokens() {
    let v = get_from_hex_array("0x1A, 0x2B").unwrap();
    assert_eq!(v, vec![0x1a, 0x2b]);
}

#[test]
fn decodes_single_token() {
    let v = get_from_hex_array("0xFF").unwrap();
    assert_eq!(v, vec![0xff]);
}

#[test]
fn decodes_lower_and_upper_case() {
    let v = get_from_hex_array("0xab, 0xCd, 0x0e").unwrap();
    assert_eq!(v, vec![0xab, 0xcd, 0x0e]);
}

#[test]
fn ignores_characters_past_the_fourth() {
    let v = get_from_hex_array("0x1Azz, 0x2B").unwrap();
    assert_eq!(v, vec![0x1a, 0x2b]);
}

#[test]
fn sixteen_byte_key_decodes() {
    let bytes: Vec<u8> = (0u8..16).collect();
    let key = bytes
        .iter()
        .map(|b| format!("0x{:02X}", b))
        .collect::<Vec<_>>()
        .join(", ");
    let v = get_from_hex_array(&key).unwrap();
    assert_eq!(v, bytes);
}

#[test]
fn empty_string_is_an_error() {
    let e = get_from_hex_array("").unwrap_err();
    assert_eq!(e.kind, ErrorKind::Config);
}

#[test]
fn short_token_is_an_error() {
    let e = get_from_hex_array("0x1").unwrap_err();
    assert_eq!(e.kind, ErrorKind::Config);
}

#[test]
fn non_hex_digits_are_an_error() {
    let e = get_from_hex_array("0xZZ").unwrap_err();
    assert_eq!(e.kind, ErrorKind::Config);
}

#[test]
fn one_bad_token_poisons_the_whole_string() {
    let e = get_from_hex_array("0x1A, 0x2, 0x3C").unwrap_err();
    assert_eq!(e.kind, ErrorKind::Config);
}
