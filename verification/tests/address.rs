//! SCCP party addresses.

use sccp::{GlobalTitle, SccpAddress, SccpError, SubsystemNumber};

#[test]
fn address_with_gt_round_trip() {
    let gt = GlobalTitle::Gt0100 {
        translation_type: 0,
        numbering_plan: 1,
        encoding_scheme: 1,
        nature_of_address: 4,
        digits: "31612345678".to_string(),
    };
    let addr = SccpAddress::with_gt(gt, Some(SubsystemNumber::Hlr));

    let encoded = addr.encode().unwrap();
    let decoded = SccpAddress::decode(&encoded).unwrap();
    assert_eq!(decoded, addr);
}

#[test]
fn address_with_ssn_round_trip() {
    let addr = SccpAddress::with_ssn(SubsystemNumber::Hlr, Some(1234));
    let encoded = addr.encode().unwrap();
    let decoded = SccpAddress::decode(&encoded).unwrap();
    assert_eq!(decoded, addr);
}

#[test]
fn address_ssn_only_no_pc() {
    let addr = SccpAddress::with_ssn(SubsystemNumber::Msc, None);
    let encoded = addr.encode().unwrap();
    let decoded = SccpAddress::decode(&encoded).unwrap();
    assert_eq!(decoded.ssn, Some(SubsystemNumber::Msc));
    assert_eq!(decoded.point_code, None);
    assert!(decoded.route_on_ssn);
}

#[test]
fn display_gt() {
    let gt = GlobalTitle::Gt0100 {
        translation_type: 0,
        numbering_plan: 1,
        encoding_scheme: 1,
        nature_of_address: 4,
        digits: "31612345678".to_string(),
    };
    let addr = SccpAddress::with_gt(gt, Some(SubsystemNumber::Hlr));
    let s = addr.to_text();
    assert!(s.contains("route=GT"));
    assert!(s.contains("HLR"));
    assert!(s.contains("31612345678"));
}

#[test]
fn display_ssn() {
    let addr = SccpAddress::with_ssn(SubsystemNumber::Msc, Some(100));
    let s = addr.to_text();
    assert!(s.contains("route=SSN"));
    assert!(s.contains("MSC"));
}

#[test]
fn address_known_bytes() {
    // AI: PC present (bit 0), SSN present (bit 1), no GT, route on SSN (bit 6).
    let addr = SccpAddress::with_ssn(SubsystemNumber::Hlr, Some(0x1234));
    assert_eq!(addr.encode().unwrap(), vec![0x43, 0x34, 0x12, 0x06]);
    // AI: SSN present, GT indicator 4 in bits 2-5, route on GT.
    let gt = GlobalTitle::Gt0010 { translation_type: 0, digits: "12".to_string() };
    let addr = SccpAddress::with_gt(gt, Some(SubsystemNumber::Msc));
    assert_eq!(addr.encode().unwrap(), vec![0x0A, 0x08, 0x00, 0x21]);
}

#[test]
fn address_text_exact() {
    let addr = SccpAddress::with_ssn(SubsystemNumber::Msc, Some(100));
    assert_eq!(addr.to_text(), "SccpAddress [route=SSN, pc=100, ssn=MSC(8)]");
    let gt = GlobalTitle::Gt0010 { translation_type: 5, digits: "42".to_string() };
    let addr = SccpAddress::with_gt(gt, None);
    assert_eq!(addr.to_text(), "SccpAddress [route=GT, gt=GT0010 [tt=5, digits=42]]");
}

#[test]
fn address_decode_errors() {
    assert!(matches!(
        SccpAddress::decode(&[]),
        Err(SccpError::TooShort { expected: 1, actual: 0 })
    ));
    // GT indicator 5 (bits 2-5 = 0b0101) is out of range.
    assert!(matches!(SccpAddress::decode(&[0x14]), Err(SccpError::InvalidGtIndicator(5))));
    // Point code announced but only one of its two octets present.
    assert!(matches!(
        SccpAddress::decode(&[0x01, 0x34]),
        Err(SccpError::TooShort { expected: 3, actual: 2 })
    ));
    // SSN announced after a point code but missing.
    assert!(matches!(
        SccpAddress::decode(&[0x03, 0x34, 0x12]),
        Err(SccpError::TooShort { expected: 4, actual: 3 })
    ));
    // A GT0011 header needs two octets.
    assert!(matches!(
        SccpAddress::decode(&[0x0C, 0x00]),
        Err(SccpError::TooShort { expected: 2, actual: 1 })
    ));
}

#[test]
fn address_encode_rejects_bad_digit() {
    let gt = GlobalTitle::Gt0001 { nature_of_address: 1, odd_even: false, digits: "1-2".to_string() };
    let addr = SccpAddress::with_gt(gt, None);
    assert!(matches!(addr.encode(), Err(SccpError::InvalidBcdDigit(b'-'))));
}

#[test]
fn address_other_ssn_is_canonicalised() {
    // `Other(6)` has the HLR octet, so it decodes as `Hlr`.
    let addr = SccpAddress::with_ssn(SubsystemNumber::Other(6), None);
    let decoded = SccpAddress::decode(&addr.encode().unwrap()).unwrap();
    assert_eq!(decoded.ssn, Some(SubsystemNumber::Hlr));
    let addr = SccpAddress::with_ssn(SubsystemNumber::Other(42), None);
    let decoded = SccpAddress::decode(&addr.encode().unwrap()).unwrap();
    assert_eq!(decoded.ssn, Some(SubsystemNumber::Other(42)));
}
