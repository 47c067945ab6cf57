//! Telephony-BCD packing and unpacking.

use sccp::bcd::{decode_tbcd, encode_tbcd};
use sccp::SccpError;

#[test]
fn encode_even_digits() {
    let encoded = encode_tbcd("1234").unwrap();
    assert_eq!(encoded, vec![0x21, 0x43]);
}

#[test]
fn encode_odd_digits() {
    let encoded = encode_tbcd("12345").unwrap();
    assert_eq!(encoded, vec![0x21, 0x43, 0xF5]);
}

#[test]
fn encode_phone_number() {
    // "15551234567" (odd length): digits pair low-nibble-first, and the
    // final unpaired digit gets a 0xF filler in its high nibble.
    let encoded = encode_tbcd("15551234567").unwrap();
    assert_eq!(encoded, vec![0x51, 0x55, 0x21, 0x43, 0x65, 0xF7]);
}

#[test]
fn decode_even_digits() {
    let decoded = decode_tbcd(&[0x21, 0x43]);
    assert_eq!(decoded, "1234");
}

#[test]
fn decode_odd_digits() {
    let decoded = decode_tbcd(&[0x21, 0x43, 0xF5]);
    assert_eq!(decoded, "12345");
}

#[test]
fn round_trip_even() {
    // Even digit count → no filler nibble.
    let original = "1234567890";
    let encoded = encode_tbcd(original).unwrap();
    assert_eq!(encoded.len(), original.len() / 2);
    let decoded = decode_tbcd(&encoded);
    assert_eq!(decoded, original);
}

#[test]
fn round_trip_odd() {
    let original = "15551234567";
    let encoded = encode_tbcd(original).unwrap();
    let decoded = decode_tbcd(&encoded);
    assert_eq!(decoded, original);
}

#[test]
fn empty() {
    let encoded = encode_tbcd("").unwrap();
    assert!(encoded.is_empty());
    assert_eq!(decode_tbcd(&[]), "");
}

#[test]
fn invalid_digit() {
    match encode_tbcd("123x456") {
        Err(SccpError::InvalidBcdDigit(b'x')) => {}
        other => panic!("expected InvalidBcdDigit, got {other:?}"),
    }
}

#[test]
fn extension_nibbles_round_trip() {
    // `*`, `#`, and `a`-`c` are valid TBCD extension nibbles.
    let original = "12*34#5abc";
    let encoded = encode_tbcd(original).unwrap();
    assert_eq!(decode_tbcd(&encoded), original);
}

#[test]
fn uppercase_hex_letters_normalise_to_lowercase() {
    // Uppercase A/B/C encode to the same nibbles as lowercase and decode back
    // to lowercase.
    let encoded = encode_tbcd("ABC").unwrap();
    assert_eq!(decode_tbcd(&encoded), "abc");
}

#[test]
fn extension_nibbles_encode_to_their_values() {
    // '*' → 0xA, '#' → 0xB, 'a'/'A' → 0xC, 'b' → 0xD, 'c' → 0xE.
    assert_eq!(encode_tbcd("*#").unwrap(), vec![0xBA]);
    assert_eq!(encode_tbcd("aBc").unwrap(), vec![0xDC, 0xFE]);
}

#[test]
fn first_invalid_byte_is_reported() {
    match encode_tbcd("12-3x") {
        Err(SccpError::InvalidBcdDigit(b'-')) => {}
        other => panic!("expected InvalidBcdDigit('-'), got {other:?}"),
    }
    // A non-ASCII character is reported by its first UTF-8 byte.
    match encode_tbcd("1é") {
        Err(SccpError::InvalidBcdDigit(0xC3)) => {}
        other => panic!("expected InvalidBcdDigit(0xC3), got {other:?}"),
    }
}

#[test]
fn decode_stops_at_filler_nibble() {
    assert_eq!(decode_tbcd(&[0xF1, 0x32]), "1");
    assert_eq!(decode_tbcd(&[0x5F, 0x21]), "");
    assert_eq!(decode_tbcd(&[0xCA, 0xEB, 0xFD]), "*a#cb");
}
