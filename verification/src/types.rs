//! SCCP enumerations: message types, subsystem numbers, and return causes.

use vstd::prelude::*;

use crate::text::{decimal, push_decimal, push_str};

verus! {

/// SCCP Message Types (ITU-T Q.713 Section 4).
#[derive(Debug, Clone, Copy, PartialEq, Eq, Structural)]
pub enum MessageType {
    /// Connection Request
    Cr,
    /// Connection Confirm
    Cc,
    /// Connection Refused
    Cref,
    /// Released
    Rlsd,
    /// Release Complete
    Rlc,
    /// Data Form 1
    Dt1,
    /// Data Form 2
    Dt2,
    /// Data Acknowledgement
    Ak,
    /// Unitdata
    Udt,
    /// Unitdata Service
    Udts,
    /// Expedited Data
    Ed,
    /// Expedited Data Acknowledgement
    Ea,
    /// Reset Request
    Rsr,
    /// Reset Confirmation
    Rsc,
    /// Protocol Data Unit Error
    PduError,
    /// Inactivity Test
    It,
    /// Extended Unitdata
    Xudt,
    /// Extended Unitdata Service
    Xudts,
    /// Long Unitdata
    Ludt,
    /// Long Unitdata Service
    Ludts,
}

impl MessageType {
    /// The message-type octet of this type.
    pub open spec fn spec_value(&self) -> u8 {
        match self {
            Self::Cr => 0x01,
            Self::Cc => 0x02,
            Self::Cref => 0x03,
            Self::Rlsd => 0x04,
            Self::Rlc => 0x05,
            Self::Dt1 => 0x06,
            Self::Dt2 => 0x07,
            Self::Ak => 0x08,
            Self::Udt => 0x09,
            Self::Udts => 0x0A,
            Self::Ed => 0x0B,
            Self::Ea => 0x0C,
            Self::Rsr => 0x0D,
            Self::Rsc => 0x0E,
            Self::PduError => 0x0F,
            Self::It => 0x10,
            Self::Xudt => 0x11,
            Self::Xudts => 0x12,
            Self::Ludt => 0x13,
            Self::Ludts => 0x14,
        }
    }

    /// The message-type octet of this type.
    #[verifier::when_used_as_spec(spec_value)]
    pub fn value(&self) -> (v: u8)
        ensures
            v == self.spec_value(),
    {
        match self {
            Self::Cr => 0x01,
            Self::Cc => 0x02,
            Self::Cref => 0x03,
            Self::Rlsd => 0x04,
            Self::Rlc => 0x05,
            Self::Dt1 => 0x06,
            Self::Dt2 => 0x07,
            Self::Ak => 0x08,
            Self::Udt => 0x09,
            Self::Udts => 0x0A,
            Self::Ed => 0x0B,
            Self::Ea => 0x0C,
            Self::Rsr => 0x0D,
            Self::Rsc => 0x0E,
            Self::PduError => 0x0F,
            Self::It => 0x10,
            Self::Xudt => 0x11,
            Self::Xudts => 0x12,
            Self::Ludt => 0x13,
            Self::Ludts => 0x14,
        }
    }

    /// The message type that an octet stands for, if any.
    pub open spec fn spec_from_u8(value: u8) -> Option<Self> {
        match value {
            0x01 => Some(Self::Cr),
            0x02 => Some(Self::Cc),
            0x03 => Some(Self::Cref),
            0x04 => Some(Self::Rlsd),
            0x05 => Some(Self::Rlc),
            0x06 => Some(Self::Dt1),
            0x07 => Some(Self::Dt2),
            0x08 => Some(Self::Ak),
            0x09 => Some(Self::Udt),
            0x0A => Some(Self::Udts),
            0x0B => Some(Self::Ed),
            0x0C => Some(Self::Ea),
            0x0D => Some(Self::Rsr),
            0x0E => Some(Self::Rsc),
            0x0F => Some(Self::PduError),
            0x10 => Some(Self::It),
            0x11 => Some(Self::Xudt),
            0x12 => Some(Self::Xudts),
            0x13 => Some(Self::Ludt),
            0x14 => Some(Self::Ludts),
            _ => None,
        }
    }

    /// Map a message-type octet to its [`MessageType`], or `None` if unknown.
    #[verifier::when_used_as_spec(spec_from_u8)]
    pub fn from_u8(value: u8) -> (r: Option<Self>)
        ensures
            r == Self::spec_from_u8(value),
            r is None <==> !(0x01 <= value <= 0x14),
            r matches Some(t) ==> t.value() == value,
    {
        match value {
            0x01 => Some(Self::Cr),
            0x02 => Some(Self::Cc),
            0x03 => Some(Self::Cref),
            0x04 => Some(Self::Rlsd),
            0x05 => Some(Self::Rlc),
            0x06 => Some(Self::Dt1),
            0x07 => Some(Self::Dt2),
            0x08 => Some(Self::Ak),
            0x09 => Some(Self::Udt),
            0x0A => Some(Self::Udts),
            0x0B => Some(Self::Ed),
            0x0C => Some(Self::Ea),
            0x0D => Some(Self::Rsr),
            0x0E => Some(Self::Rsc),
            0x0F => Some(Self::PduError),
            0x10 => Some(Self::It),
            0x11 => Some(Self::Xudt),
            0x12 => Some(Self::Xudts),
            0x13 => Some(Self::Ludt),
            0x14 => Some(Self::Ludts),
            _ => None,
        }
    }

    /// The abbreviation of this message type, as Q.713 writes it.
    pub open spec fn spec_name(self) -> Seq<char> {
        match self {
            Self::Cr => "CR"@,
            Self::Cc => "CC"@,
            Self::Cref => "CREF"@,
            Self::Rlsd => "RLSD"@,
            Self::Rlc => "RLC"@,
            Self::Dt1 => "DT1"@,
            Self::Dt2 => "DT2"@,
            Self::Ak => "AK"@,
            Self::Udt => "UDT"@,
            Self::Udts => "UDTS"@,
            Self::Ed => "ED"@,
            Self::Ea => "EA"@,
            Self::Rsr => "RSR"@,
            Self::Rsc => "RSC"@,
            Self::PduError => "ERR"@,
            Self::It => "IT"@,
            Self::Xudt => "XUDT"@,
            Self::Xudts => "XUDTS"@,
            Self::Ludt => "LUDT"@,
            Self::Ludts => "LUDTS"@,
        }
    }

    /// The abbreviation of this message type, as Q.713 writes it.
    pub fn to_text(&self) -> (s: String)
        ensures
            s@ == self.spec_name(),
    {
        let name = match self {
            Self::Cr => "CR",
            Self::Cc => "CC",
            Self::Cref => "CREF",
            Self::Rlsd => "RLSD",
            Self::Rlc => "RLC",
            Self::Dt1 => "DT1",
            Self::Dt2 => "DT2",
            Self::Ak => "AK",
            Self::Udt => "UDT",
            Self::Udts => "UDTS",
            Self::Ed => "ED",
            Self::Ea => "EA",
            Self::Rsr => "RSR",
            Self::Rsc => "RSC",
            Self::PduError => "ERR",
            Self::It => "IT",
            Self::Xudt => "XUDT",
            Self::Xudts => "XUDTS",
            Self::Ludt => "LUDT",
            Self::Ludts => "LUDTS",
        };
        let mut s = String::new();
        push_str(&mut s, name);
        s
    }
}

/// Subsystem Numbers (ITU-T Q.713 Section 3.4.2.2).
#[derive(Debug, Clone, Copy, PartialEq, Eq, Structural)]
pub enum SubsystemNumber {
    /// SSN not known or not used.
    Unknown,
    /// SCCP Management
    SccpMgmt,
    /// ITU-T reserved
    Reserved,
    /// ISUP (ISDN User Part)
    Isup,
    /// OMAP (Operations, Maintenance and Administration Part)
    Omap,
    /// MAP (Mobile Application Part)
    MapPart,
    /// HLR (Home Location Register)
    Hlr,
    /// VLR (Visitor Location Register)
    Vlr,
    /// MSC (Mobile Switching Centre)
    Msc,
    /// EIR (Equipment Identity Register)
    Eir,
    /// AuC (Authentication Centre)
    Auc,
    /// CAP (CAMEL Application Part)
    Cap,
    /// PCAP
    Pcap,
    /// Any other subsystem number not named above.
    Other(u8),
}

/// Whether a subsystem-number octet has a named variant.
pub open spec fn is_named_ssn(v: u8) -> bool {
    v <= 10 || v == 146 || v == 249
}

impl SubsystemNumber {
    /// The raw SSN octet for this subsystem number.
    pub open spec fn spec_value(&self) -> u8 {
        match self {
            Self::Unknown => 0,
            Self::SccpMgmt => 1,
            Self::Reserved => 2,
            Self::Isup => 3,
            Self::Omap => 4,
            Self::MapPart => 5,
            Self::Hlr => 6,
            Self::Vlr => 7,
            Self::Msc => 8,
            Self::Eir => 9,
            Self::Auc => 10,
            Self::Cap => 146,
            Self::Pcap => 249,
            Self::Other(v) => *v,
        }
    }

    /// Whether this value is the one that [`SubsystemNumber::from_u8`] gives
    /// for its octet: a named variant, or `Other` of an unnamed octet.
    pub open spec fn is_canonical(self) -> bool {
        self matches Self::Other(v) ==> !is_named_ssn(v)
    }

    /// The subsystem number that an octet stands for.
    pub open spec fn spec_from_u8(value: u8) -> Self {
        match value {
            0 => Self::Unknown,
            1 => Self::SccpMgmt,
            2 => Self::Reserved,
            3 => Self::Isup,
            4 => Self::Omap,
            5 => Self::MapPart,
            6 => Self::Hlr,
            7 => Self::Vlr,
            8 => Self::Msc,
            9 => Self::Eir,
            10 => Self::Auc,
            146 => Self::Cap,
            249 => Self::Pcap,
            other => Self::Other(other),
        }
    }

    /// Map a raw SSN octet to a [`SubsystemNumber`]; unknown values become [`SubsystemNumber::Other`].
    #[verifier::when_used_as_spec(spec_from_u8)]
    pub fn from_u8(value: u8) -> (r: Self)
        ensures
            r == Self::spec_from_u8(value),
            r.value() == value,
            r.is_canonical(),
    {
        match value {
            0 => Self::Unknown,
            1 => Self::SccpMgmt,
            2 => Self::Reserved,
            3 => Self::Isup,
            4 => Self::Omap,
            5 => Self::MapPart,
            6 => Self::Hlr,
            7 => Self::Vlr,
            8 => Self::Msc,
            9 => Self::Eir,
            10 => Self::Auc,
            146 => Self::Cap,
            249 => Self::Pcap,
            other => Self::Other(other),
        }
    }

    /// The raw SSN octet for this subsystem number.
    #[verifier::when_used_as_spec(spec_value)]
    pub fn value(&self) -> (v: u8)
        ensures
            v == self.spec_value(),
    {
        match self {
            Self::Unknown => 0,
            Self::SccpMgmt => 1,
            Self::Reserved => 2,
            Self::Isup => 3,
            Self::Omap => 4,
            Self::MapPart => 5,
            Self::Hlr => 6,
            Self::Vlr => 7,
            Self::Msc => 8,
            Self::Eir => 9,
            Self::Auc => 10,
            Self::Cap => 146,
            Self::Pcap => 249,
            Self::Other(v) => *v,
        }
    }

    /// The name of this subsystem with its number, such as `HLR(6)`.
    pub open spec fn spec_text(self) -> Seq<char> {
        match self {
            Self::Unknown => "Unknown(0)"@,
            Self::SccpMgmt => "SCCP-MGMT(1)"@,
            Self::Reserved => "Reserved(2)"@,
            Self::Isup => "ISUP(3)"@,
            Self::Omap => "OMAP(4)"@,
            Self::MapPart => "MAP(5)"@,
            Self::Hlr => "HLR(6)"@,
            Self::Vlr => "VLR(7)"@,
            Self::Msc => "MSC(8)"@,
            Self::Eir => "EIR(9)"@,
            Self::Auc => "AuC(10)"@,
            Self::Cap => "CAP(146)"@,
            Self::Pcap => "PCAP(249)"@,
            Self::Other(v) => "SSN("@ + decimal(v as nat) + ")"@,
        }
    }

    /// The name of this subsystem with its number, such as `HLR(6)`.
    pub fn to_text(&self) -> (s: String)
        ensures
            s@ == self.spec_text(),
    {
        let mut s = String::new();
        match self {
            Self::Unknown => push_str(&mut s, "Unknown(0)"),
            Self::SccpMgmt => push_str(&mut s, "SCCP-MGMT(1)"),
            Self::Reserved => push_str(&mut s, "Reserved(2)"),
            Self::Isup => push_str(&mut s, "ISUP(3)"),
            Self::Omap => push_str(&mut s, "OMAP(4)"),
            Self::MapPart => push_str(&mut s, "MAP(5)"),
            Self::Hlr => push_str(&mut s, "HLR(6)"),
            Self::Vlr => push_str(&mut s, "VLR(7)"),
            Self::Msc => push_str(&mut s, "MSC(8)"),
            Self::Eir => push_str(&mut s, "EIR(9)"),
            Self::Auc => push_str(&mut s, "AuC(10)"),
            Self::Cap => push_str(&mut s, "CAP(146)"),
            Self::Pcap => push_str(&mut s, "PCAP(249)"),
            Self::Other(v) => {
                push_str(&mut s, "SSN(");
                push_decimal(&mut s, *v as u64);
                push_str(&mut s, ")");
            },
        }
        s
    }
}

/// Return Cause for UDTS/XUDTS messages (ITU-T Q.713 Section 3.12).
#[derive(Debug, Clone, Copy, PartialEq, Eq, Structural)]
pub enum ReturnCause {
    /// No translation for an address of such nature.
    NoTranslationForAddress,
    /// No translation for this specific address.
    NoTranslationForSpecificAddress,
    /// The destination subsystem is congested.
    SubsystemCongestion,
    /// The destination subsystem has failed.
    SubsystemFailure,
    /// The destination subsystem is unequipped.
    Unequipped,
    /// The underlying MTP transport failed.
    MtpFailure,
    /// The network is congested.
    NetworkCongestion,
    /// Message returned for an unqualified reason.
    Unqualified,
    /// Error in message transport (XUDT/LUDT).
    ErrorInMessageTransport,
    /// Error in local processing (XUDT/LUDT).
    ErrorInLocalProcessing,
    /// Destination cannot perform reassembly (XUDT/LUDT).
    DestinationCannotPerformReassembly,
    /// SCCP failure.
    SccpFailure,
    /// The hop counter reached zero (routing loop protection).
    HopCounterViolation,
    /// Segmentation not supported.
    SegmentationNotSupported,
    /// Segmentation failure.
    SegmentationFailure,
    /// Any other return cause not named above.
    Other(u8),
}

impl ReturnCause {
    /// The raw return-cause octet for this cause.
    pub open spec fn spec_value(&self) -> u8 {
        match self {
            Self::NoTranslationForAddress => 0,
            Self::NoTranslationForSpecificAddress => 1,
            Self::SubsystemCongestion => 2,
            Self::SubsystemFailure => 3,
            Self::Unequipped => 4,
            Self::MtpFailure => 5,
            Self::NetworkCongestion => 6,
            Self::Unqualified => 7,
            Self::ErrorInMessageTransport => 8,
            Self::ErrorInLocalProcessing => 9,
            Self::DestinationCannotPerformReassembly => 10,
            Self::SccpFailure => 11,
            Self::HopCounterViolation => 12,
            Self::SegmentationNotSupported => 13,
            Self::SegmentationFailure => 14,
            Self::Other(v) => *v,
        }
    }

    /// Whether this value is the one that [`ReturnCause::from_u8`] gives for
    /// its octet: a named cause, or `Other` of an octet above 14.
    pub open spec fn is_canonical(self) -> bool {
        self matches Self::Other(v) ==> v > 14
    }

    /// The return cause that an octet stands for.
    pub open spec fn spec_from_u8(value: u8) -> Self {
        match value {
            0 => Self::NoTranslationForAddress,
            1 => Self::NoTranslationForSpecificAddress,
            2 => Self::SubsystemCongestion,
            3 => Self::SubsystemFailure,
            4 => Self::Unequipped,
            5 => Self::MtpFailure,
            6 => Self::NetworkCongestion,
            7 => Self::Unqualified,
            8 => Self::ErrorInMessageTransport,
            9 => Self::ErrorInLocalProcessing,
            10 => Self::DestinationCannotPerformReassembly,
            11 => Self::SccpFailure,
            12 => Self::HopCounterViolation,
            13 => Self::SegmentationNotSupported,
            14 => Self::SegmentationFailure,
            other => Self::Other(other),
        }
    }

    /// Map a raw return-cause octet to a [`ReturnCause`]; unknown values become [`ReturnCause::Other`].
    #[verifier::when_used_as_spec(spec_from_u8)]
    pub fn from_u8(value: u8) -> (r: Self)
        ensures
            r == Self::spec_from_u8(value),
            r.value() == value,
            r.is_canonical(),
    {
        match value {
            0 => Self::NoTranslationForAddress,
            1 => Self::NoTranslationForSpecificAddress,
            2 => Self::SubsystemCongestion,
            3 => Self::SubsystemFailure,
            4 => Self::Unequipped,
            5 => Self::MtpFailure,
            6 => Self::NetworkCongestion,
            7 => Self::Unqualified,
            8 => Self::ErrorInMessageTransport,
            9 => Self::ErrorInLocalProcessing,
            10 => Self::DestinationCannotPerformReassembly,
            11 => Self::SccpFailure,
            12 => Self::HopCounterViolation,
            13 => Self::SegmentationNotSupported,
            14 => Self::SegmentationFailure,
            other => Self::Other(other),
        }
    }

    /// The raw return-cause octet for this cause.
    #[verifier::when_used_as_spec(spec_value)]
    pub fn value(&self) -> (v: u8)
        ensures
            v == self.spec_value(),
    {
        match self {
            Self::NoTranslationForAddress => 0,
            Self::NoTranslationForSpecificAddress => 1,
            Self::SubsystemCongestion => 2,
            Self::SubsystemFailure => 3,
            Self::Unequipped => 4,
            Self::MtpFailure => 5,
            Self::NetworkCongestion => 6,
            Self::Unqualified => 7,
            Self::ErrorInMessageTransport => 8,
            Self::ErrorInLocalProcessing => 9,
            Self::DestinationCannotPerformReassembly => 10,
            Self::SccpFailure => 11,
            Self::HopCounterViolation => 12,
            Self::SegmentationNotSupported => 13,
            Self::SegmentationFailure => 14,
            Self::Other(v) => *v,
        }
    }

    /// A description of this cause in words.
    pub open spec fn spec_text(self) -> Seq<char> {
        match self {
            Self::NoTranslationForAddress => "No translation for address"@,
            Self::NoTranslationForSpecificAddress => "No translation for specific address"@,
            Self::SubsystemCongestion => "Subsystem congestion"@,
            Self::SubsystemFailure => "Subsystem failure"@,
            Self::Unequipped => "Unequipped"@,
            Self::MtpFailure => "MTP failure"@,
            Self::NetworkCongestion => "Network congestion"@,
            Self::Unqualified => "Unqualified"@,
            Self::ErrorInMessageTransport => "Error in message transport"@,
            Self::ErrorInLocalProcessing => "Error in local processing"@,
            Self::DestinationCannotPerformReassembly => "Destination cannot perform reassembly"@,
            Self::SccpFailure => "SCCP failure"@,
            Self::HopCounterViolation => "Hop counter violation"@,
            Self::SegmentationNotSupported => "Segmentation not supported"@,
            Self::SegmentationFailure => "Segmentation failure"@,
            Self::Other(v) => "Other("@ + decimal(v as nat) + ")"@,
        }
    }

    /// A description of this cause in words.
    pub fn to_text(&self) -> (s: String)
        ensures
            s@ == self.spec_text(),
    {
        let mut s = String::new();
        match self {
            Self::NoTranslationForAddress => push_str(&mut s, "No translation for address"),
            Self::NoTranslationForSpecificAddress => {
                push_str(&mut s, "No translation for specific address")
            },
            Self::SubsystemCongestion => push_str(&mut s, "Subsystem congestion"),
            Self::SubsystemFailure => push_str(&mut s, "Subsystem failure"),
            Self::Unequipped => push_str(&mut s, "Unequipped"),
            Self::MtpFailure => push_str(&mut s, "MTP failure"),
            Self::NetworkCongestion => push_str(&mut s, "Network congestion"),
            Self::Unqualified => push_str(&mut s, "Unqualified"),
            Self::ErrorInMessageTransport => push_str(&mut s, "Error in message transport"),
            Self::ErrorInLocalProcessing => push_str(&mut s, "Error in local processing"),
            Self::DestinationCannotPerformReassembly => {
                push_str(&mut s, "Destination cannot perform reassembly")
            },
            Self::SccpFailure => push_str(&mut s, "SCCP failure"),
            Self::HopCounterViolation => push_str(&mut s, "Hop counter violation"),
            Self::SegmentationNotSupported => push_str(&mut s, "Segmentation not supported"),
            Self::SegmentationFailure => push_str(&mut s, "Segmentation failure"),
            Self::Other(v) => {
                push_str(&mut s, "Other(");
                push_decimal(&mut s, *v as u64);
                push_str(&mut s, ")");
            },
        }
        s
    }
}

/// The octet of a message type determines it: mapping the value of a
/// message type back gives that type.
pub proof fn lemma_message_type_octet_injective(a: MessageType, b: MessageType)
    requires
        a.spec_value() == b.spec_value(),
    ensures
        a == b,
{
}

/// The octet of a subsystem number in the form that mapping produces
/// determines it, so mapping the value back gives the same subsystem number.
pub proof fn lemma_subsystem_number_octet_injective(a: SubsystemNumber, b: SubsystemNumber)
    requires
        a.is_canonical(),
        b.is_canonical(),
        a.spec_value() == b.spec_value(),
    ensures
        a == b,
{
}

/// The octet of a return cause in the form that mapping produces determines
/// it, so mapping the value back gives the same cause.
pub proof fn lemma_return_cause_octet_injective(a: ReturnCause, b: ReturnCause)
    requires
        a.is_canonical(),
        b.is_canonical(),
        a.spec_value() == b.spec_value(),
    ensures
        a == b,
{
}

/// Q.713 §4: each message type has its fixed octet (CR 0x01 … LUDTS 0x14),
/// and octets outside 0x01–0x14 name no type.
pub proof fn lemma_message_type_octets()
    ensures
        MessageType::Cr.spec_value() == 1,
        MessageType::Cc.spec_value() == 2,
        MessageType::Cref.spec_value() == 3,
        MessageType::Rlsd.spec_value() == 4,
        MessageType::Rlc.spec_value() == 5,
        MessageType::Dt1.spec_value() == 6,
        MessageType::Dt2.spec_value() == 7,
        MessageType::Ak.spec_value() == 8,
        MessageType::Udt.spec_value() == 9,
        MessageType::Udts.spec_value() == 10,
        MessageType::Ed.spec_value() == 11,
        MessageType::Ea.spec_value() == 12,
        MessageType::Rsr.spec_value() == 13,
        MessageType::Rsc.spec_value() == 14,
        MessageType::PduError.spec_value() == 15,
        MessageType::It.spec_value() == 16,
        MessageType::Xudt.spec_value() == 17,
        MessageType::Xudts.spec_value() == 18,
        MessageType::Ludt.spec_value() == 19,
        MessageType::Ludts.spec_value() == 20,
        MessageType::spec_from_u8(1) == Some(MessageType::Cr),
        MessageType::spec_from_u8(2) == Some(MessageType::Cc),
        MessageType::spec_from_u8(3) == Some(MessageType::Cref),
        MessageType::spec_from_u8(4) == Some(MessageType::Rlsd),
        MessageType::spec_from_u8(5) == Some(MessageType::Rlc),
        MessageType::spec_from_u8(6) == Some(MessageType::Dt1),
        MessageType::spec_from_u8(7) == Some(MessageType::Dt2),
        MessageType::spec_from_u8(8) == Some(MessageType::Ak),
        MessageType::spec_from_u8(9) == Some(MessageType::Udt),
        MessageType::spec_from_u8(10) == Some(MessageType::Udts),
        MessageType::spec_from_u8(11) == Some(MessageType::Ed),
        MessageType::spec_from_u8(12) == Some(MessageType::Ea),
        MessageType::spec_from_u8(13) == Some(MessageType::Rsr),
        MessageType::spec_from_u8(14) == Some(MessageType::Rsc),
        MessageType::spec_from_u8(15) == Some(MessageType::PduError),
        MessageType::spec_from_u8(16) == Some(MessageType::It),
        MessageType::spec_from_u8(17) == Some(MessageType::Xudt),
        MessageType::spec_from_u8(18) == Some(MessageType::Xudts),
        MessageType::spec_from_u8(19) == Some(MessageType::Ludt),
        MessageType::spec_from_u8(20) == Some(MessageType::Ludts),
        forall|v: u8| !(0x01 <= v <= 0x14) ==> MessageType::spec_from_u8(v) is None,
{
}

/// Q.713 §3.4.2.2: each named subsystem has its fixed octet (SCCP management
/// 1, MAP 5, HLR 6, … CAP 146, PCAP 249); every other octet maps to `Other`
/// of itself, and every octet maps back to itself.
pub proof fn lemma_subsystem_number_octets()
    ensures
        SubsystemNumber::Unknown.spec_value() == 0,
        SubsystemNumber::SccpMgmt.spec_value() == 1,
        SubsystemNumber::Reserved.spec_value() == 2,
        SubsystemNumber::Isup.spec_value() == 3,
        SubsystemNumber::Omap.spec_value() == 4,
        SubsystemNumber::MapPart.spec_value() == 5,
        SubsystemNumber::Hlr.spec_value() == 6,
        SubsystemNumber::Vlr.spec_value() == 7,
        SubsystemNumber::Msc.spec_value() == 8,
        SubsystemNumber::Eir.spec_value() == 9,
        SubsystemNumber::Auc.spec_value() == 10,
        SubsystemNumber::Cap.spec_value() == 146,
        SubsystemNumber::Pcap.spec_value() == 249,
        SubsystemNumber::spec_from_u8(0) == SubsystemNumber::Unknown,
        SubsystemNumber::spec_from_u8(1) == SubsystemNumber::SccpMgmt,
        SubsystemNumber::spec_from_u8(2) == SubsystemNumber::Reserved,
        SubsystemNumber::spec_from_u8(3) == SubsystemNumber::Isup,
        SubsystemNumber::spec_from_u8(4) == SubsystemNumber::Omap,
        SubsystemNumber::spec_from_u8(5) == SubsystemNumber::MapPart,
        SubsystemNumber::spec_from_u8(6) == SubsystemNumber::Hlr,
        SubsystemNumber::spec_from_u8(7) == SubsystemNumber::Vlr,
        SubsystemNumber::spec_from_u8(8) == SubsystemNumber::Msc,
        SubsystemNumber::spec_from_u8(9) == SubsystemNumber::Eir,
        SubsystemNumber::spec_from_u8(10) == SubsystemNumber::Auc,
        SubsystemNumber::spec_from_u8(146) == SubsystemNumber::Cap,
        SubsystemNumber::spec_from_u8(249) == SubsystemNumber::Pcap,
        forall|v: u8| !is_named_ssn(v) ==> SubsystemNumber::spec_from_u8(v) == SubsystemNumber::Other(v),
        forall|v: u8| #[trigger] SubsystemNumber::spec_from_u8(v).spec_value() == v,
{
}

/// Q.713 §3.12: each named return cause has its fixed octet (no translation
/// for an address of such nature 0, for this specific address 1, … hop
/// counter violation 12, … segmentation failure 14); octets above 14 map to
/// `Other` of themselves, and every octet maps back to itself.
pub proof fn lemma_return_cause_octets()
    ensures
        ReturnCause::NoTranslationForAddress.spec_value() == 0,
        ReturnCause::NoTranslationForSpecificAddress.spec_value() == 1,
        ReturnCause::SubsystemCongestion.spec_value() == 2,
        ReturnCause::SubsystemFailure.spec_value() == 3,
        ReturnCause::Unequipped.spec_value() == 4,
        ReturnCause::MtpFailure.spec_value() == 5,
        ReturnCause::NetworkCongestion.spec_value() == 6,
        ReturnCause::Unqualified.spec_value() == 7,
        ReturnCause::ErrorInMessageTransport.spec_value() == 8,
        ReturnCause::ErrorInLocalProcessing.spec_value() == 9,
        ReturnCause::DestinationCannotPerformReassembly.spec_value() == 10,
        ReturnCause::SccpFailure.spec_value() == 11,
        ReturnCause::HopCounterViolation.spec_value() == 12,
        ReturnCause::SegmentationNotSupported.spec_value() == 13,
        ReturnCause::SegmentationFailure.spec_value() == 14,
        ReturnCause::spec_from_u8(0) == ReturnCause::NoTranslationForAddress,
        ReturnCause::spec_from_u8(1) == ReturnCause::NoTranslationForSpecificAddress,
        ReturnCause::spec_from_u8(2) == ReturnCause::SubsystemCongestion,
        ReturnCause::spec_from_u8(3) == ReturnCause::SubsystemFailure,
        ReturnCause::spec_from_u8(4) == ReturnCause::Unequipped,
        ReturnCause::spec_from_u8(5) == ReturnCause::MtpFailure,
        ReturnCause::spec_from_u8(6) == ReturnCause::NetworkCongestion,
        ReturnCause::spec_from_u8(7) == ReturnCause::Unqualified,
        ReturnCause::spec_from_u8(8) == ReturnCause::ErrorInMessageTransport,
        ReturnCause::spec_from_u8(9) == ReturnCause::ErrorInLocalProcessing,
        ReturnCause::spec_from_u8(10) == ReturnCause::DestinationCannotPerformReassembly,
        ReturnCause::spec_from_u8(11) == ReturnCause::SccpFailure,
        ReturnCause::spec_from_u8(12) == ReturnCause::HopCounterViolation,
        ReturnCause::spec_from_u8(13) == ReturnCause::SegmentationNotSupported,
        ReturnCause::spec_from_u8(14) == ReturnCause::SegmentationFailure,
        forall|v: u8| v > 14 ==> ReturnCause::spec_from_u8(v) == ReturnCause::Other(v),
        forall|v: u8| #[trigger] ReturnCause::spec_from_u8(v).spec_value() == v,
{
}


/// The rendering of every subsystem number ends with its octet in decimal,
/// in brackets: `SCCP-MGMT(1)`, `HLR(6)`, `PCAP(249)`, `SSN(42)`.
pub proof fn lemma_subsystem_number_text(s: SubsystemNumber)
    ensures
        ("("@ + decimal(s.spec_value() as nat) + ")"@).is_suffix_of(s.spec_text()),
{
    reveal_with_fuel(decimal, 3);
    reveal_strlit("(");
    reveal_strlit(")");
    match s {
        SubsystemNumber::Unknown => {
            reveal_strlit("Unknown(0)");
        },
        SubsystemNumber::SccpMgmt => {
            reveal_strlit("SCCP-MGMT(1)");
        },
        SubsystemNumber::Reserved => {
            reveal_strlit("Reserved(2)");
        },
        SubsystemNumber::Isup => {
            reveal_strlit("ISUP(3)");
        },
        SubsystemNumber::Omap => {
            reveal_strlit("OMAP(4)");
        },
        SubsystemNumber::MapPart => {
            reveal_strlit("MAP(5)");
        },
        SubsystemNumber::Hlr => {
            reveal_strlit("HLR(6)");
        },
        SubsystemNumber::Vlr => {
            reveal_strlit("VLR(7)");
        },
        SubsystemNumber::Msc => {
            reveal_strlit("MSC(8)");
        },
        SubsystemNumber::Eir => {
            reveal_strlit("EIR(9)");
        },
        SubsystemNumber::Auc => {
            reveal_strlit("AuC(10)");
        },
        SubsystemNumber::Cap => {
            reveal_strlit("CAP(146)");
        },
        SubsystemNumber::Pcap => {
            reveal_strlit("PCAP(249)");
        },
        SubsystemNumber::Other(v) => {
            reveal_strlit("SSN(");
        },
    }
    let t = s.spec_text();
    let d = "("@ + decimal(s.spec_value() as nat) + ")"@;
    assert(d =~= t.subrange(t.len() - d.len(), t.len() as int));
}


/// Q.713 §4 abbreviations: each message type is rendered by its own name
/// (CR, CC, CREF, … UDT, UDTS, … LUDT, LUDTS; ERR for the protocol data unit
/// error).
pub proof fn lemma_message_type_names()
    ensures
        MessageType::Cr.spec_name() == "CR"@,
        MessageType::Cc.spec_name() == "CC"@,
        MessageType::Cref.spec_name() == "CREF"@,
        MessageType::Rlsd.spec_name() == "RLSD"@,
        MessageType::Rlc.spec_name() == "RLC"@,
        MessageType::Dt1.spec_name() == "DT1"@,
        MessageType::Dt2.spec_name() == "DT2"@,
        MessageType::Ak.spec_name() == "AK"@,
        MessageType::Udt.spec_name() == "UDT"@,
        MessageType::Udts.spec_name() == "UDTS"@,
        MessageType::Ed.spec_name() == "ED"@,
        MessageType::Ea.spec_name() == "EA"@,
        MessageType::Rsr.spec_name() == "RSR"@,
        MessageType::Rsc.spec_name() == "RSC"@,
        MessageType::PduError.spec_name() == "ERR"@,
        MessageType::It.spec_name() == "IT"@,
        MessageType::Xudt.spec_name() == "XUDT"@,
        MessageType::Xudts.spec_name() == "XUDTS"@,
        MessageType::Ludt.spec_name() == "LUDT"@,
        MessageType::Ludts.spec_name() == "LUDTS"@,
{
}

/// Each named return cause is rendered by its own description, and any other
/// cause octet as `Other(` and the octet in decimal and `)`.
pub proof fn lemma_return_cause_texts()
    ensures
        ReturnCause::NoTranslationForAddress.spec_text() == "No translation for address"@,
        ReturnCause::NoTranslationForSpecificAddress.spec_text() == "No translation for specific address"@,
        ReturnCause::SubsystemCongestion.spec_text() == "Subsystem congestion"@,
        ReturnCause::SubsystemFailure.spec_text() == "Subsystem failure"@,
        ReturnCause::Unequipped.spec_text() == "Unequipped"@,
        ReturnCause::MtpFailure.spec_text() == "MTP failure"@,
        ReturnCause::NetworkCongestion.spec_text() == "Network congestion"@,
        ReturnCause::Unqualified.spec_text() == "Unqualified"@,
        ReturnCause::ErrorInMessageTransport.spec_text() == "Error in message transport"@,
        ReturnCause::ErrorInLocalProcessing.spec_text() == "Error in local processing"@,
        ReturnCause::DestinationCannotPerformReassembly.spec_text() == "Destination cannot perform reassembly"@,
        ReturnCause::SccpFailure.spec_text() == "SCCP failure"@,
        ReturnCause::HopCounterViolation.spec_text() == "Hop counter violation"@,
        ReturnCause::SegmentationNotSupported.spec_text() == "Segmentation not supported"@,
        ReturnCause::SegmentationFailure.spec_text() == "Segmentation failure"@,
        forall|v: u8| #[trigger] ReturnCause::Other(v).spec_text() == "Other("@ + decimal(v as nat) + ")"@,
{
}

} // verus!
