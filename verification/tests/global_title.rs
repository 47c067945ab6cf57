//! Global Title formats and the GT indicator.

use sccp::{GlobalTitle, GtIndicator, SccpError};

#[test]
fn gt0100_round_trip() {
    let gt = GlobalTitle::Gt0100 {
        translation_type: 0,
        numbering_plan: 1,  // E.164
        encoding_scheme: 1, // BCD odd
        nature_of_address: 4,
        digits: "15551234567".to_string(),
    };

    let encoded = gt.encode().unwrap();
    let decoded = GlobalTitle::decode(&encoded, GtIndicator::Gt0100).unwrap();

    match &decoded {
        GlobalTitle::Gt0100 {
            translation_type,
            numbering_plan,
            encoding_scheme,
            nature_of_address,
            digits,
        } => {
            assert_eq!(*translation_type, 0);
            assert_eq!(*numbering_plan, 1);
            assert_eq!(*encoding_scheme, 1);
            assert_eq!(*nature_of_address, 4);
            assert_eq!(digits, "15551234567");
        }
        _ => panic!("Expected Gt0100"),
    }
}

#[test]
fn gt0001_round_trip() {
    let gt = GlobalTitle::Gt0001 {
        nature_of_address: 4,
        odd_even: true,
        digits: "12345".to_string(),
    };
    let encoded = gt.encode().unwrap();
    let decoded = GlobalTitle::decode(&encoded, GtIndicator::Gt0001).unwrap();
    assert_eq!(decoded.digits(), Some("12345"));
}

#[test]
fn no_title() {
    let gt = GlobalTitle::NoTitle;
    let encoded = gt.encode().unwrap();
    assert!(encoded.is_empty());
    let decoded = GlobalTitle::decode(&[], GtIndicator::NoGt).unwrap();
    assert_eq!(decoded, GlobalTitle::NoTitle);
}

#[test]
fn display() {
    let gt = GlobalTitle::Gt0100 {
        translation_type: 0,
        numbering_plan: 1,
        encoding_scheme: 1,
        nature_of_address: 4,
        digits: "15551234567".to_string(),
    };
    let s = gt.to_text();
    assert!(s.contains("15551234567"));
    assert!(s.contains("GT0100"));
}

#[test]
fn indicator_matches_variant() {
    assert_eq!(GlobalTitle::NoTitle.indicator(), GtIndicator::NoGt);
    let gt = GlobalTitle::Gt0011 {
        translation_type: 0,
        numbering_plan: 1,
        encoding_scheme: 1,
        digits: "5550100".to_string(),
    };
    assert_eq!(gt.indicator(), GtIndicator::Gt0011);
}

#[test]
fn gt0010_round_trip() {
    let gt = GlobalTitle::Gt0010 {
        translation_type: 9,
        digits: "5550199".to_string(),
    };
    let decoded = GlobalTitle::decode(&gt.encode().unwrap(), GtIndicator::Gt0010).unwrap();
    assert_eq!(decoded, gt);
}

#[test]
fn gt0011_round_trip() {
    let gt = GlobalTitle::Gt0011 {
        translation_type: 0,
        numbering_plan: 1,
        encoding_scheme: 2,
        digits: "5550142".to_string(),
    };
    let decoded = GlobalTitle::decode(&gt.encode().unwrap(), GtIndicator::Gt0011).unwrap();
    assert_eq!(decoded, gt);
}

#[test]
fn indicator_from_u8_rejects_out_of_range() {
    assert!(matches!(
        GtIndicator::from_u8(5),
        Err(SccpError::InvalidGtIndicator(5))
    ));
    assert_eq!(GtIndicator::from_u8(0).unwrap(), GtIndicator::NoGt);
}

#[test]
fn decode_truncated_gt_headers() {
    // Each format needs at least its fixed header bytes before the digits.
    assert!(matches!(
        GlobalTitle::decode(&[], GtIndicator::Gt0001),
        Err(SccpError::TooShort { .. })
    ));
    assert!(matches!(
        GlobalTitle::decode(&[0x00], GtIndicator::Gt0011),
        Err(SccpError::TooShort { .. })
    ));
    assert!(matches!(
        GlobalTitle::decode(&[0x00, 0x11], GtIndicator::Gt0100),
        Err(SccpError::TooShort { .. })
    ));
}

#[test]
fn gt_encode_known_bytes() {
    // Gt0001: odd/even flag in bit 7, nature of address in the low 7 bits.
    let gt = GlobalTitle::Gt0001 {
        nature_of_address: 4,
        odd_even: true,
        digits: "123".to_string(),
    };
    assert_eq!(gt.encode().unwrap(), vec![0x84, 0x21, 0xF3]);
    // Gt0100: numbering plan high nibble, encoding scheme low nibble.
    let gt = GlobalTitle::Gt0100 {
        translation_type: 7,
        numbering_plan: 1,
        encoding_scheme: 2,
        nature_of_address: 0x84,
        digits: "12".to_string(),
    };
    assert_eq!(gt.encode().unwrap(), vec![0x07, 0x12, 0x04, 0x21]);
}

#[test]
fn gt_fields_are_cut_to_their_bits() {
    // Fields wider than the wire carries come back with only their low bits.
    let gt = GlobalTitle::Gt0011 {
        translation_type: 3,
        numbering_plan: 0x21,
        encoding_scheme: 0x1F,
        digits: "9".to_string(),
    };
    let decoded = GlobalTitle::decode(&gt.encode().unwrap(), GtIndicator::Gt0011).unwrap();
    assert_eq!(
        decoded,
        GlobalTitle::Gt0011 {
            translation_type: 3,
            numbering_plan: 1,
            encoding_scheme: 0xF,
            digits: "9".to_string(),
        }
    );
}

#[test]
fn gt_encode_rejects_bad_digit() {
    let gt = GlobalTitle::Gt0010 {
        translation_type: 0,
        digits: "12?".to_string(),
    };
    assert!(matches!(gt.encode(), Err(SccpError::InvalidBcdDigit(b'?'))));
}

#[test]
fn gt_digits_and_text_of_each_format() {
    assert_eq!(GlobalTitle::NoTitle.digits(), None);
    assert_eq!(GlobalTitle::NoTitle.to_text(), "NoGT");
    let gt = GlobalTitle::Gt0001 { nature_of_address: 3, odd_even: false, digits: "12".to_string() };
    assert_eq!(gt.to_text(), "GT0001 [noa=3, digits=12]");
    let gt = GlobalTitle::Gt0010 { translation_type: 9, digits: "5".to_string() };
    assert_eq!(gt.to_text(), "GT0010 [tt=9, digits=5]");
    let gt = GlobalTitle::Gt0011 {
        translation_type: 0,
        numbering_plan: 1,
        encoding_scheme: 2,
        digits: "77".to_string(),
    };
    assert_eq!(gt.to_text(), "GT0011 [tt=0, np=1, digits=77]");
    let gt = GlobalTitle::Gt0100 {
        translation_type: 10,
        numbering_plan: 1,
        encoding_scheme: 1,
        nature_of_address: 104,
        digits: "31".to_string(),
    };
    assert_eq!(gt.to_text(), "GT0100 [tt=10, np=1, noa=104, digits=31]");
    assert_eq!(gt.digits(), Some("31"));
}

#[test]
fn gt_indicator_values() {
    for v in 0..=4u8 {
        assert_eq!(GtIndicator::from_u8(v).unwrap().value(), v);
    }
    assert!(matches!(GtIndicator::from_u8(15), Err(SccpError::InvalidGtIndicator(15))));
}
