//! Message types, subsystem numbers and return causes.

use sccp::{MessageType, ReturnCause, SubsystemNumber};

#[test]
fn message_type_octets_round_trip() {
    for v in 0..=255u8 {
        match MessageType::from_u8(v) {
            Some(t) => {
                assert!((0x01..=0x14).contains(&v));
                assert_eq!(t.value(), v);
            }
            None => assert!(!(0x01..=0x14).contains(&v)),
        }
    }
    assert_eq!(MessageType::from_u8(0x09), Some(MessageType::Udt));
    assert_eq!(MessageType::from_u8(0x0F), Some(MessageType::PduError));
    assert_eq!(MessageType::Ludts.to_text(), "LUDTS");
    assert_eq!(MessageType::PduError.to_text(), "ERR");
}

#[test]
fn subsystem_number_octets_round_trip() {
    for v in 0..=255u8 {
        assert_eq!(SubsystemNumber::from_u8(v).value(), v);
    }
    assert_eq!(SubsystemNumber::from_u8(249), SubsystemNumber::Pcap);
    assert_eq!(SubsystemNumber::from_u8(11), SubsystemNumber::Other(11));
    assert_eq!(SubsystemNumber::Hlr.to_text(), "HLR(6)");
    assert_eq!(SubsystemNumber::Other(77).to_text(), "SSN(77)");
}

#[test]
fn return_cause_octets_round_trip() {
    for v in 0..=255u8 {
        assert_eq!(ReturnCause::from_u8(v).value(), v);
    }
    assert_eq!(ReturnCause::from_u8(12), ReturnCause::HopCounterViolation);
    assert_eq!(ReturnCause::from_u8(15), ReturnCause::Other(15));
    assert_eq!(ReturnCause::SubsystemFailure.to_text(), "Subsystem failure");
    assert_eq!(ReturnCause::Other(200).to_text(), "Other(200)");
}
