use poh::hex::{hex_decode, hex_encode};

#[test]
fn hex_encode_is_lower_case_two_digits_per_byte() {
    assert_eq!(hex_encode(&[0x00, 0x0f, 0xab, 0xff]), "000fabff");
    assert_eq!(hex_encode(&[]), "");
}

#[test]
fn hex_decode_accepts_both_cases() {
    assert_eq!(hex_decode("00fFaB"), Some(vec![0x00, 0xff, 0xab]));
    assert_eq!(hex_decode(""), Some(vec![]));
}

#[test]
fn hex_decode_refuses_odd_length_and_non_digits() {
    assert_eq!(hex_decode("abc"), None);
    assert_eq!(hex_decode("zz"), None);
    assert_eq!(hex_decode("é0"), None);
}

#[test]
fn hex_round_trip() {
    let bytes: Vec<u8> = (0u8..=255).collect();
    assert_eq!(hex_decode(&hex_encode(&bytes)), Some(bytes));
}
