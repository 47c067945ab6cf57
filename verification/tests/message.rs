//! The connectionless messages and the dispatch enum.

use sccp::message::{
    ExtendedUnitData, ExtendedUnitDataService, LongUnitData, LongUnitDataService,
    DEFAULT_HOP_COUNTER,
};
use sccp::{
    GlobalTitle, MessageType, ReturnCause, SccpAddress, SccpError, SccpMessage, SubsystemNumber,
    UnitData, UnitDataService,
};

#[test]
fn udt_round_trip_ssn() {
    let called = SccpAddress::with_ssn(SubsystemNumber::Hlr, None);
    let calling = SccpAddress::with_ssn(SubsystemNumber::Msc, None);
    let data = vec![0x62, 0x40, 0x01, 0x02, 0x03]; // fake TCAP

    let udt = UnitData::new(called.clone(), calling.clone(), data.clone());
    let encoded = udt.encode().unwrap();
    let decoded = UnitData::decode(&encoded).unwrap();

    assert_eq!(decoded.called_party, called);
    assert_eq!(decoded.calling_party, calling);
    assert_eq!(decoded.data, data);
}

#[test]
fn udt_round_trip_gt() {
    let called_gt = GlobalTitle::Gt0100 {
        translation_type: 0,
        numbering_plan: 1,
        encoding_scheme: 1,
        nature_of_address: 4,
        digits: "15551234567".to_string(),
    };
    let calling_gt = GlobalTitle::Gt0100 {
        translation_type: 0,
        numbering_plan: 1,
        encoding_scheme: 1,
        nature_of_address: 4,
        digits: "15559876543".to_string(),
    };

    let called = SccpAddress::with_gt(called_gt, Some(SubsystemNumber::Hlr));
    let calling = SccpAddress::with_gt(calling_gt, Some(SubsystemNumber::Msc));
    let data = vec![0x62, 0x40];

    let udt = UnitData::new(called.clone(), calling.clone(), data.clone());
    let encoded = udt.encode().unwrap();
    let decoded = UnitData::decode(&encoded).unwrap();

    assert_eq!(decoded.called_party, called);
    assert_eq!(decoded.calling_party, calling);
    assert_eq!(decoded.data, data);
}

#[test]
fn sccp_message_decode() {
    let called = SccpAddress::with_ssn(SubsystemNumber::Hlr, None);
    let calling = SccpAddress::with_ssn(SubsystemNumber::Msc, None);
    let udt = UnitData::new(called, calling, vec![0x01, 0x02]);
    let encoded = udt.encode().unwrap();

    let msg = SccpMessage::decode(&encoded).unwrap();
    match msg {
        SccpMessage::Udt(decoded_udt) => {
            assert_eq!(decoded_udt.data, vec![0x01, 0x02]);
        }
        _ => panic!("Expected UDT"),
    }
}

#[test]
fn udt_display() {
    let called = SccpAddress::with_ssn(SubsystemNumber::Hlr, None);
    let calling = SccpAddress::with_ssn(SubsystemNumber::Msc, None);
    let udt = UnitData::new(called, calling, vec![0x01]);
    let s = udt.to_text();
    assert!(s.contains("UDT"));
    assert!(s.contains("HLR"));
}

#[test]
fn udts_round_trip() {
    let called = SccpAddress::with_ssn(SubsystemNumber::Hlr, Some(100));
    let calling = SccpAddress::with_ssn(SubsystemNumber::Msc, Some(200));
    let udts = UnitDataService::new(
        ReturnCause::SubsystemFailure,
        called.clone(),
        calling.clone(),
        vec![0x62, 0x40],
    );

    let encoded = udts.encode().unwrap();
    assert_eq!(encoded[0], MessageType::Udts.value());
    let decoded = UnitDataService::decode(&encoded).unwrap();
    assert_eq!(decoded, udts);
    assert_eq!(decoded.return_cause, ReturnCause::SubsystemFailure);
}

#[test]
fn sccp_message_dispatches_udts() {
    let called = SccpAddress::with_ssn(SubsystemNumber::Hlr, None);
    let calling = SccpAddress::with_ssn(SubsystemNumber::Msc, None);
    let udts = UnitDataService::new(ReturnCause::Unequipped, called, calling, vec![0xAA]);
    let encoded = udts.encode().unwrap();

    match SccpMessage::decode(&encoded).unwrap() {
        SccpMessage::Udts(d) => assert_eq!(d.return_cause, ReturnCause::Unequipped),
        other => panic!("expected UDTS, got {other:?}"),
    }
}

#[test]
fn sccp_message_round_trip_via_enum() {
    let called = SccpAddress::with_ssn(SubsystemNumber::Hlr, None);
    let calling = SccpAddress::with_ssn(SubsystemNumber::Msc, None);
    let msg = SccpMessage::Udt(UnitData::new(called, calling, vec![0x01, 0x02]));
    let encoded = msg.encode().unwrap();
    assert_eq!(SccpMessage::decode(&encoded).unwrap(), msg);
}

#[test]
fn decode_empty_is_too_short() {
    assert!(matches!(
        SccpMessage::decode(&[]),
        Err(SccpError::TooShort { .. })
    ));
}

#[test]
fn decode_unknown_type_is_invalid() {
    // 0xFF is not a valid SCCP message type.
    assert!(matches!(
        SccpMessage::decode(&[0xFF, 0, 0, 0, 0]),
        Err(SccpError::InvalidMessageType(0xFF))
    ));
}

#[test]
fn decode_known_but_unsupported_type_is_invalid() {
    // CR (0x01) is a valid type but not decoded by this connectionless codec.
    assert!(matches!(
        SccpMessage::decode(&[MessageType::Cr.value(), 0, 0, 0, 0]),
        Err(SccpError::InvalidMessageType(_))
    ));
}

#[test]
fn udt_decode_truncated_variable_part() {
    // Valid UDT header claiming a called-party pointer past the buffer end.
    let bytes = [MessageType::Udt.value(), 0x00, 0x7F, 0x03, 0x04];
    assert!(matches!(
        UnitData::decode(&bytes),
        Err(SccpError::TooShort { .. })
    ));
}

#[test]
fn udts_decode_wrong_type() {
    // A well-formed UDT is not a UDTS.
    let called = SccpAddress::with_ssn(SubsystemNumber::Hlr, None);
    let calling = SccpAddress::with_ssn(SubsystemNumber::Msc, None);
    let udt = UnitData::new(called, calling, vec![0x01]);
    let encoded = udt.encode().unwrap();
    assert!(matches!(
        UnitDataService::decode(&encoded),
        Err(SccpError::InvalidMessageType(_))
    ));
}

// ── XUDT / XUDTS / LUDT / LUDTS ──────────────────────────────────────────
// The encode vectors below are known-answer vectors for the ITU-T Q.713 wire
// layout: message type, hop counter, addresses and (for XUDTS) return cause.

#[test]
fn xudt_encode_matches_q713_vector() {
    let called = SccpAddress::with_ssn(SubsystemNumber::Hlr, None);
    let calling = SccpAddress::with_ssn(SubsystemNumber::Msc, None);
    let xudt = ExtendedUnitData::new(called, calling, vec![0x62, 0x40]);
    // type 0x11, class 0, hop 0x0f, ptrs 04 06 08 00, called SSN=HLR,
    // calling SSN=MSC, data 62 40.
    let expected = [
        0x11, 0x00, 0x0F, 0x04, 0x06, 0x08, 0x00, 0x02, 0x42, 0x06, 0x02, 0x42, 0x08, 0x02,
        0x62, 0x40,
    ];
    assert_eq!(xudt.encode().unwrap(), expected);
    assert_eq!(ExtendedUnitData::decode(&expected).unwrap(), xudt);
    assert_eq!(xudt.hop_counter, DEFAULT_HOP_COUNTER);
}

#[test]
fn xudt_optional_part_preserved() {
    let called = SccpAddress::with_ssn(SubsystemNumber::Hlr, None);
    let calling = SccpAddress::with_ssn(SubsystemNumber::Msc, None);
    let mut xudt = ExtendedUnitData::new(called, calling, vec![0x62, 0x40]);
    // Importance parameter (0x12 len 1 value 3) + end-of-optional (0x00).
    xudt.optional_part = vec![0x12, 0x01, 0x03, 0x00];
    let expected = [
        0x11, 0x00, 0x0F, 0x04, 0x06, 0x08, 0x0A, 0x02, 0x42, 0x06, 0x02, 0x42, 0x08, 0x02,
        0x62, 0x40, 0x12, 0x01, 0x03, 0x00,
    ];
    assert_eq!(xudt.encode().unwrap(), expected);
    let decoded = ExtendedUnitData::decode(&expected).unwrap();
    assert_eq!(decoded.optional_part, vec![0x12, 0x01, 0x03, 0x00]);
    assert_eq!(decoded, xudt);
}

#[test]
fn xudts_hop_counter_violation_uses_q713_cause_0x0c() {
    let called = SccpAddress::with_ssn(SubsystemNumber::Hlr, None);
    let calling = SccpAddress::with_ssn(SubsystemNumber::Msc, None);
    let xudts = ExtendedUnitDataService::new(
        ReturnCause::HopCounterViolation,
        called,
        calling,
        vec![0x62, 0x40],
    );
    let expected = [
        0x12, 0x0C, 0x0F, 0x04, 0x06, 0x08, 0x00, 0x02, 0x42, 0x06, 0x02, 0x42, 0x08, 0x02,
        0x62, 0x40,
    ];
    assert_eq!(xudts.encode().unwrap(), expected);
    assert_eq!(ExtendedUnitDataService::decode(&expected).unwrap(), xudts);
    // Q.713 §3.12: hop counter violation is 0x0C, not 0x0D (which is
    // "segmentation not supported").
    assert_eq!(expected[1], 0x0C);
    assert_eq!(ReturnCause::HopCounterViolation.value(), 0x0C);
}

#[test]
fn ludt_encode_matches_q713_vector() {
    let called = SccpAddress::with_ssn(SubsystemNumber::Hlr, None);
    let calling = SccpAddress::with_ssn(SubsystemNumber::Msc, None);
    let ludt = LongUnitData::new(called, calling, vec![0x62, 0x40]);
    // type 0x13, class 0, hop 0x0f, two-octet LE pointers 7/8/9/0, SSN
    // addresses, two-octet LE data length 02 00, data 62 40.
    let expected = [
        0x13, 0x00, 0x0F, 0x07, 0x00, 0x08, 0x00, 0x09, 0x00, 0x00, 0x00, 0x02, 0x42, 0x06,
        0x02, 0x42, 0x08, 0x02, 0x00, 0x62, 0x40,
    ];
    assert_eq!(ludt.encode().unwrap(), expected);
    assert_eq!(LongUnitData::decode(&expected).unwrap(), ludt);
    assert_eq!(ludt.hop_counter, DEFAULT_HOP_COUNTER);
}

#[test]
fn ludts_round_trips_through_enum() {
    let called = SccpAddress::with_ssn(SubsystemNumber::Hlr, None);
    let calling = SccpAddress::with_ssn(SubsystemNumber::Msc, None);
    let ludts = LongUnitDataService::new(
        ReturnCause::HopCounterViolation,
        called,
        calling,
        vec![0x62, 0x40],
    );
    let expected = [
        0x14, 0x0C, 0x0F, 0x07, 0x00, 0x08, 0x00, 0x09, 0x00, 0x00, 0x00, 0x02, 0x42, 0x06,
        0x02, 0x42, 0x08, 0x02, 0x00, 0x62, 0x40,
    ];
    assert_eq!(ludts.encode().unwrap(), expected);
    match SccpMessage::decode(&expected).unwrap() {
        SccpMessage::Ludts(d) => assert_eq!(d, ludts),
        other => panic!("expected LUDTS, got {other:?}"),
    }
}

#[test]
fn ludt_carries_data_beyond_the_udt_ceiling() {
    // 600 octets of data cannot fit a one-octet UDT/XUDT length; the LUDT
    // two-octet length carries it.
    let called = SccpAddress::with_ssn(SubsystemNumber::Hlr, None);
    let calling = SccpAddress::with_ssn(SubsystemNumber::Msc, None);
    let data = vec![0xAB; 600];
    let ludt = LongUnitData::new(called, calling, data.clone());
    let decoded = LongUnitData::decode(&ludt.encode().unwrap()).unwrap();
    assert_eq!(decoded.data, data);
    assert_eq!(decoded, ludt);
}

#[test]
fn xudt_and_ludt_gt_round_trip() {
    let gt = GlobalTitle::Gt0100 {
        translation_type: 0,
        numbering_plan: 1,
        encoding_scheme: 1,
        nature_of_address: 4,
        digits: "15551234567".to_string(),
    };
    let called = SccpAddress::with_gt(gt.clone(), Some(SubsystemNumber::Hlr));
    let calling = SccpAddress::with_gt(gt, Some(SubsystemNumber::Msc));

    let xudt = ExtendedUnitData::new(called.clone(), calling.clone(), vec![0x62, 0x40]);
    assert_eq!(
        ExtendedUnitData::decode(&xudt.encode().unwrap()).unwrap(),
        xudt
    );

    let ludt = LongUnitData::new(called, calling, vec![0x62, 0x40]);
    assert_eq!(LongUnitData::decode(&ludt.encode().unwrap()).unwrap(), ludt);
}

#[test]
fn sccp_message_accessors_and_dispatch() {
    let called = SccpAddress::with_ssn(SubsystemNumber::Hlr, None);
    let calling = SccpAddress::with_ssn(SubsystemNumber::Msc, None);
    let encoded = ExtendedUnitData::new(called, calling, vec![0x01, 0x02])
        .encode()
        .unwrap();
    let msg = SccpMessage::decode(&encoded).unwrap();
    assert!(matches!(msg, SccpMessage::Xudt(_)));
    assert_eq!(msg.data(), &[0x01, 0x02]);
    assert_eq!(msg.hop_counter(), Some(DEFAULT_HOP_COUNTER));
    assert_eq!(msg.called_party().ssn, Some(SubsystemNumber::Hlr));
    assert_eq!(msg.calling_party().ssn, Some(SubsystemNumber::Msc));
}

#[test]
fn udt_has_no_hop_counter() {
    let called = SccpAddress::with_ssn(SubsystemNumber::Hlr, None);
    let calling = SccpAddress::with_ssn(SubsystemNumber::Msc, None);
    let msg = SccpMessage::Udt(UnitData::new(called, calling, vec![]));
    assert_eq!(msg.hop_counter(), None);
}

#[test]
fn extended_and_long_decode_wrong_type() {
    let called = SccpAddress::with_ssn(SubsystemNumber::Hlr, None);
    let calling = SccpAddress::with_ssn(SubsystemNumber::Msc, None);
    let udt = UnitData::new(called, calling, vec![0x01]).encode().unwrap();
    assert!(matches!(
        ExtendedUnitData::decode(&udt),
        Err(SccpError::InvalidMessageType(_))
    ));
    assert!(matches!(
        LongUnitData::decode(&udt),
        Err(SccpError::InvalidMessageType(_))
    ));
}

#[test]
fn extended_and_long_decode_truncated() {
    assert!(matches!(
        ExtendedUnitData::decode(&[0x11, 0x00, 0x0F]),
        Err(SccpError::TooShort { .. })
    ));
    assert!(matches!(
        LongUnitData::decode(&[0x13, 0x00, 0x0F, 0x07]),
        Err(SccpError::TooShort { .. })
    ));
}

#[test]
fn udt_encode_known_bytes() {
    let called = SccpAddress::with_ssn(SubsystemNumber::Hlr, None);
    let calling = SccpAddress::with_ssn(SubsystemNumber::Msc, None);
    let mut udt = UnitData::new(called, calling, vec![0x62, 0x40]);
    udt.protocol_class = 1;
    udt.message_handling = 8;
    // type 09, class octet 0x81, ptrs 03 05 07, then the three length-prefixed fields.
    let expected = [0x09, 0x81, 0x03, 0x05, 0x07, 0x02, 0x42, 0x06, 0x02, 0x42, 0x08, 0x02, 0x62, 0x40];
    assert_eq!(udt.encode().unwrap(), expected);
    let decoded = UnitData::decode(&expected).unwrap();
    assert_eq!(decoded.protocol_class, 1);
    assert_eq!(decoded.message_handling, 8);
}

#[test]
fn udt_decode_error_values() {
    assert!(matches!(
        UnitData::decode(&[0x09, 0, 3]),
        Err(SccpError::TooShort { expected: 5, actual: 3 })
    ));
    // The called pointer (0x7F at octet 2) points at octet 129.
    assert!(matches!(
        UnitData::decode(&[0x09, 0x00, 0x7F, 0x03, 0x04]),
        Err(SccpError::TooShort { expected: 130, actual: 5 })
    ));
    // The called field claims 9 octets where only 1 follows.
    assert!(matches!(
        UnitData::decode(&[0x09, 0x00, 0x03, 0x03, 0x03, 0x09, 0x42]),
        Err(SccpError::TooShort { expected: 15, actual: 7 })
    ));
    assert!(matches!(
        UnitData::decode(&[0x0A, 0x00, 0x03, 0x03, 0x03]),
        Err(SccpError::InvalidMessageType(0x0A))
    ));
}

#[test]
fn xudt_optional_pointer_past_end() {
    // Optional pointer 0x20 at octet 6 points past the end of the message.
    let bytes = [
        0x11, 0x00, 0x0F, 0x04, 0x06, 0x08, 0x20, 0x02, 0x42, 0x06, 0x02, 0x42, 0x08, 0x02,
        0x62, 0x40,
    ];
    assert!(matches!(
        ExtendedUnitData::decode(&bytes),
        Err(SccpError::TooShort { expected: 38, actual: 16 })
    ));
}

#[test]
fn ludts_optional_part_and_cause_text() {
    let called = SccpAddress::with_ssn(SubsystemNumber::Hlr, None);
    let calling = SccpAddress::with_ssn(SubsystemNumber::Msc, None);
    let mut ludts =
        LongUnitDataService::new(ReturnCause::Other(99), called, calling, vec![0x01]);
    ludts.optional_part = vec![0x00];
    let encoded = ludts.encode().unwrap();
    // Optional pointer at octets 9-10: 5 + 2 + 2 + 1 = 10.
    assert_eq!(&encoded[9..11], &[0x0A, 0x00]);
    let decoded = LongUnitDataService::decode(&encoded).unwrap();
    assert_eq!(decoded, ludts);
    assert!(ludts.to_text().starts_with("LUDTS [cause=Other(99), hop=15, called="));
}

#[test]
fn message_texts() {
    let called = SccpAddress::with_ssn(SubsystemNumber::Hlr, None);
    let calling = SccpAddress::with_ssn(SubsystemNumber::Msc, None);
    let udt = UnitData::new(called.clone(), calling.clone(), vec![0x01, 0x02]);
    assert_eq!(
        udt.to_text(),
        "UDT [class=0, called=SccpAddress [route=SSN, ssn=HLR(6)], \
         calling=SccpAddress [route=SSN, ssn=MSC(8)], data_len=2]"
    );
    let xudts = ExtendedUnitDataService::new(ReturnCause::MtpFailure, called, calling, vec![]);
    let msg = SccpMessage::Xudts(xudts);
    assert!(msg.to_text().starts_with("XUDTS [cause=MTP failure, hop=15, called="));
    assert!(msg.to_text().ends_with("data_len=0]"));
}

#[test]
fn udt_data_length_wraps_past_one_octet() {
    // A UDT length octet carries the data length modulo 256.
    let called = SccpAddress::with_ssn(SubsystemNumber::Hlr, None);
    let calling = SccpAddress::with_ssn(SubsystemNumber::Msc, None);
    let udt = UnitData::new(called, calling, vec![0x55; 300]);
    let encoded = udt.encode().unwrap();
    assert_eq!(encoded[11], (300 % 256) as u8);
    assert_eq!(encoded.len(), 12 + 300);
}
