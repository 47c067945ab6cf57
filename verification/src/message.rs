//! SCCP connectionless messages: [`UnitData`] (UDT), [`UnitDataService`] (UDTS)
//! and their extended / long forms [`ExtendedUnitData`] (XUDT),
//! [`ExtendedUnitDataService`] (XUDTS), [`LongUnitData`] (LUDT) and
//! [`LongUnitDataService`] (LUDTS) — the latter four carrying a hop counter —
//! plus the [`SccpMessage`] dispatch enum.

use vstd::prelude::*;

use crate::address::{SccpAddress, SccpAddressView};
use crate::error::{view_result, SccpError};
use crate::octets::{append_bytes, lemma_nibble_pair, make_nibble_pair, nibble_pair};
use crate::text::{decimal, push_decimal, push_str};
use crate::types::{MessageType, ReturnCause};
use crate::variable_part::{
    addresses_encoding, decode_extended_variable_part, decode_long_variable_part,
    decode_variable_part, encode_extended_variable_part, encode_long_variable_part,
    encode_variable_part, extended_variable_part_decoding, extended_variable_part_encoding,
    lemma_extended_variable_part_round_trip, lemma_long_variable_part_round_trip,
    lemma_short_variable_part_round_trip, long_variable_part_decoding, long_variable_part_encoding,
    short_variable_part_decoding, short_variable_part_encoding, lemma_short_layout,
    lemma_extended_layout, lemma_long_layout, lemma_two_octets, le16_at, long_variable_part,
};

verus! {

/// The hop-counter value a new extended/long message starts with. ITU-T Q.714
/// leaves the initial value to the originating node; 15 is the usual maximum.
pub const DEFAULT_HOP_COUNTER: u8 = 15;

/// A message with its header octets prepended, or the error of its variable part.
pub open spec fn with_header(header: Seq<u8>, variable: Result<Seq<u8>, SccpError>) -> Result<
    Seq<u8>,
    SccpError,
> {
    match variable {
        Ok(v) => Ok(header + v),
        Err(e) => Err(e),
    }
}

/// The canonical form of a return cause: the one its octet maps to.
pub open spec fn normalized_cause(cause: ReturnCause) -> ReturnCause {
    ReturnCause::spec_from_u8(cause.spec_value())
}

/// The text fields that every message rendering ends with.
pub open spec fn parties_text(called: SccpAddressView, calling: SccpAddressView, data: Seq<u8>) -> Seq<
    char,
> {
    ", called="@ + called.text() + ", calling="@ + calling.text() + ", data_len="@ + decimal(
        data.len(),
    ) + "]"@
}

/// Append the called / calling renderings and the data length, then the closing bracket.
fn push_parties(s: &mut String, called: &SccpAddress, calling: &SccpAddress, data: &Vec<u8>)
    ensures
        final(s)@ == old(s)@ + parties_text(called@, calling@, data@),
{
    push_str(s, ", called=");
    let t = called.to_text();
    push_str(s, t.as_str());
    push_str(s, ", calling=");
    let t = calling.to_text();
    push_str(s, t.as_str());
    push_str(s, ", data_len=");
    push_decimal(s, data.len() as u64);
    push_str(s, "]");
    assert(s@ =~= old(s)@ + parties_text(called@, calling@, data@));
}

// ── UDT ─────────────────────────────────────────────────────────────────────
/// SCCP Unitdata (UDT) message — connectionless data transfer.
///
/// ```ignore
/// 0: Message type (0x09)
/// 1: Protocol class + message handling
/// 2: Pointer to called party address
/// 3: Pointer to calling party address
/// 4: Pointer to data
/// Variable: Called party address (length-prefixed)
/// Variable: Calling party address (length-prefixed)
/// Variable: Data (length-prefixed)
/// ```
#[derive(Debug, Clone, PartialEq, Eq)]
pub struct UnitData {
    /// Protocol class (0 or 1).
    pub protocol_class: u8,
    /// Message handling (0 = no special options, 1 = return on error).
    pub message_handling: u8,
    /// Called (destination) party address.
    pub called_party: SccpAddress,
    /// Calling (source) party address.
    pub calling_party: SccpAddress,
    /// User data (TCAP payload typically).
    pub data: Vec<u8>,
}

/// The mathematical model of a [`UnitData`].
pub struct UnitDataView {
    pub protocol_class: u8,
    pub message_handling: u8,
    pub called_party: SccpAddressView,
    pub calling_party: SccpAddressView,
    pub data: Seq<u8>,
}

impl View for UnitData {
    type V = UnitDataView;

    open spec fn view(&self) -> UnitDataView {
        UnitDataView {
            protocol_class: self.protocol_class,
            message_handling: self.message_handling,
            called_party: self.called_party@,
            calling_party: self.calling_party@,
            data: self.data@,
        }
    }
}

impl UnitDataView {
    /// The wire encoding: type, class octet, then the three-pointer variable part.
    pub open spec fn encoding(self) -> Result<Seq<u8>, SccpError> {
        with_header(
            seq![0x09u8, nibble_pair(self.message_handling, self.protocol_class)],
            short_variable_part_encoding(self.called_party, self.calling_party, self.data),
        )
    }

    /// What a decode of this message's encoding gives back.
    pub open spec fn normalized(self) -> UnitDataView {
        UnitDataView {
            protocol_class: self.protocol_class % 16,
            message_handling: self.message_handling % 16,
            called_party: self.called_party.normalized(),
            calling_party: self.calling_party.normalized(),
            data: self.data,
        }
    }

    /// Whether the pointers and lengths of the encoding fit in one octet.
    pub open spec fn fits(self) -> bool {
        addresses_encoding(self.called_party, self.calling_party) matches Ok((c, k)) ==> 3 + c.len()
            + k.len() <= 255 && self.data.len() <= 255
    }

    /// A one-line rendering.
    pub open spec fn text(self) -> Seq<char> {
        "UDT [class="@ + decimal(self.protocol_class as nat) + parties_text(
            self.called_party,
            self.calling_party,
            self.data,
        )
    }
}

/// The UDT that `bytes` hold, or the error for the first thing wrong with them.
pub open spec fn unit_data_decoding(bytes: Seq<u8>) -> Result<UnitDataView, SccpError> {
    if bytes.len() < 5 {
        Err(SccpError::TooShort { expected: 5, actual: bytes.len() as usize })
    } else if bytes[0] != 0x09 {
        Err(SccpError::InvalidMessageType(bytes[0]))
    } else {
        match short_variable_part_decoding(bytes, 2) {
            Err(e) => Err(e),
            Ok((called, calling, data)) => Ok(
                UnitDataView {
                    protocol_class: bytes[1] % 16,
                    message_handling: bytes[1] / 16,
                    called_party: called,
                    calling_party: calling,
                    data,
                },
            ),
        }
    }
}

impl UnitData {
    /// Build a UDT with protocol class 0 and no special message handling.
    pub fn new(called_party: SccpAddress, calling_party: SccpAddress, data: Vec<u8>) -> (m: Self)
        ensures
            m@ == (UnitDataView {
                protocol_class: 0,
                message_handling: 0,
                called_party: called_party@,
                calling_party: calling_party@,
                data: data@,
            }),
    {
        Self { protocol_class: 0, message_handling: 0, called_party, calling_party, data }
    }

    /// Decode a UDT message from raw bytes (including the leading message-type octet).
    pub fn decode(bytes: &[u8]) -> (res: Result<Self, SccpError>)
        ensures
            view_result(res) == unit_data_decoding(bytes@),
    {
        if bytes.len() < 5 {
            return Err(SccpError::TooShort { expected: 5, actual: bytes.len() });
        }
        match MessageType::from_u8(bytes[0]) {
            Some(MessageType::Udt) => {},
            _ => {
                return Err(SccpError::InvalidMessageType(bytes[0]));
            },
        }
        let protocol_class = bytes[1] % 16;
        let message_handling = bytes[1] / 16;

        // Variable part: the three pointers begin at byte 2 (after type + class).
        let (called_party, calling_party, data) = match decode_variable_part(bytes, 2) {
            Ok(t) => t,
            Err(e) => {
                return Err(e);
            },
        };
        Ok(Self { protocol_class, message_handling, called_party, calling_party, data })
    }

    /// Encode this UDT to bytes, including the leading message-type octet.
    pub fn encode(&self) -> (res: Result<Vec<u8>, SccpError>)
        ensures
            view_result(res) == self@.encoding(),
    {
        let mut buf = vec![
            MessageType::Udt.value(),
            make_nibble_pair(self.message_handling, self.protocol_class),
        ];
        match encode_variable_part(&self.called_party, &self.calling_party, self.data.as_slice()) {
            Ok(v) => {
                append_bytes(&mut buf, v.as_slice());
                Ok(buf)
            },
            Err(e) => Err(e),
        }
    }

    /// A one-line rendering, such as `UDT [class=0, called=…, calling=…, data_len=2]`.
    pub fn to_text(&self) -> (s: String)
        ensures
            s@ == self@.text(),
    {
        let mut s = String::new();
        push_str(&mut s, "UDT [class=");
        push_decimal(&mut s, self.protocol_class as u64);
        push_parties(&mut s, &self.called_party, &self.calling_party, &self.data);
        s
    }
}

/// Decoding what `UnitData::encode` produced gives the message back, with its
/// class octet cut to its two nibbles and its addresses normalized, when the
/// pointers and lengths fit in one octet.
#[verifier::spinoff_prover]
pub proof fn lemma_unit_data_round_trip(m: UnitDataView)
    requires
        m.fits(),
    ensures
        m.encoding() matches Ok(b) ==> unit_data_decoding(b) == Ok::<UnitDataView, SccpError>(
            m.normalized(),
        ),
{
    let header = seq![0x09u8, nibble_pair(m.message_handling, m.protocol_class)];
    lemma_short_variable_part_round_trip(header, m.called_party, m.calling_party, m.data);
    lemma_nibble_pair(m.message_handling, m.protocol_class);
    if let Ok(v) = short_variable_part_encoding(m.called_party, m.calling_party, m.data) {
        assert((header + v)[0] == 0x09 && (header + v)[1] == header[1]);
        assert((header + v).len() >= 5);
    }
}

// ── UDTS ────────────────────────────────────────────────────────────────────
/// SCCP Unitdata Service (UDTS, type `0x0A`) — the error response returned when a
/// UDT cannot be delivered.
///
/// The wire layout mirrors UDT, with a [`ReturnCause`] octet in place of the
/// protocol-class/message-handling octet:
///
/// ```ignore
/// 0: Message type (0x0A)
/// 1: Return cause
/// 2: Pointer to called party address
/// 3: Pointer to calling party address
/// 4: Pointer to data
/// Variable: Called party address (length-prefixed)
/// Variable: Calling party address (length-prefixed)
/// Variable: Data (length-prefixed)
/// ```
#[derive(Debug, Clone, PartialEq, Eq)]
pub struct UnitDataService {
    /// Why the returned UDT could not be delivered.
    pub return_cause: ReturnCause,
    /// Called (destination) party address, copied from the returned UDT.
    pub called_party: SccpAddress,
    /// Calling (source) party address, copied from the returned UDT.
    pub calling_party: SccpAddress,
    /// The returned user data.
    pub data: Vec<u8>,
}

/// The mathematical model of a [`UnitDataService`].
pub struct UnitDataServiceView {
    pub return_cause: ReturnCause,
    pub called_party: SccpAddressView,
    pub calling_party: SccpAddressView,
    pub data: Seq<u8>,
}

impl View for UnitDataService {
    type V = UnitDataServiceView;

    open spec fn view(&self) -> UnitDataServiceView {
        UnitDataServiceView {
            return_cause: self.return_cause,
            called_party: self.called_party@,
            calling_party: self.calling_party@,
            data: self.data@,
        }
    }
}

impl UnitDataServiceView {
    /// The wire encoding: type, return cause, then the three-pointer variable part.
    pub open spec fn encoding(self) -> Result<Seq<u8>, SccpError> {
        with_header(
            seq![0x0Au8, self.return_cause.spec_value()],
            short_variable_part_encoding(self.called_party, self.calling_party, self.data),
        )
    }

    /// What a decode of this message's encoding gives back.
    pub open spec fn normalized(self) -> UnitDataServiceView {
        UnitDataServiceView {
            return_cause: normalized_cause(self.return_cause),
            called_party: self.called_party.normalized(),
            calling_party: self.calling_party.normalized(),
            data: self.data,
        }
    }

    /// Whether the pointers and lengths of the encoding fit in one octet.
    pub open spec fn fits(self) -> bool {
        addresses_encoding(self.called_party, self.calling_party) matches Ok((c, k)) ==> 3 + c.len()
            + k.len() <= 255 && self.data.len() <= 255
    }

    /// A one-line rendering.
    pub open spec fn text(self) -> Seq<char> {
        "UDTS [cause="@ + self.return_cause.spec_text() + parties_text(
            self.called_party,
            self.calling_party,
            self.data,
        )
    }
}

/// The UDTS that `bytes` hold, or the error for the first thing wrong with them.
pub open spec fn unit_data_service_decoding(bytes: Seq<u8>) -> Result<UnitDataServiceView, SccpError> {
    if bytes.len() < 5 {
        Err(SccpError::TooShort { expected: 5, actual: bytes.len() as usize })
    } else if bytes[0] != 0x0A {
        Err(SccpError::InvalidMessageType(bytes[0]))
    } else {
        match short_variable_part_decoding(bytes, 2) {
            Err(e) => Err(e),
            Ok((called, calling, data)) => Ok(
                UnitDataServiceView {
                    return_cause: ReturnCause::spec_from_u8(bytes[1]),
                    called_party: called,
                    calling_party: calling,
                    data,
                },
            ),
        }
    }
}

impl UnitDataService {
    /// Build a UDTS with the given return cause and returned addresses/data.
    pub fn new(
        return_cause: ReturnCause,
        called_party: SccpAddress,
        calling_party: SccpAddress,
        data: Vec<u8>,
    ) -> (m: Self)
        ensures
            m@ == (UnitDataServiceView {
                return_cause,
                called_party: called_party@,
                calling_party: calling_party@,
                data: data@,
            }),
    {
        Self { return_cause, called_party, calling_party, data }
    }

    /// Decode a UDTS message from raw bytes (including the leading message-type octet).
    pub fn decode(bytes: &[u8]) -> (res: Result<Self, SccpError>)
        ensures
            view_result(res) == unit_data_service_decoding(bytes@),
    {
        if bytes.len() < 5 {
            return Err(SccpError::TooShort { expected: 5, actual: bytes.len() });
        }
        match MessageType::from_u8(bytes[0]) {
            Some(MessageType::Udts) => {},
            _ => {
                return Err(SccpError::InvalidMessageType(bytes[0]));
            },
        }
        let return_cause = ReturnCause::from_u8(bytes[1]);

        // Variable part: the three pointers begin at byte 2 (after type + cause).
        let (called_party, calling_party, data) = match decode_variable_part(bytes, 2) {
            Ok(t) => t,
            Err(e) => {
                return Err(e);
            },
        };
        Ok(Self { return_cause, called_party, calling_party, data })
    }

    /// Encode this UDTS to bytes, including the leading message-type octet.
    pub fn encode(&self) -> (res: Result<Vec<u8>, SccpError>)
        ensures
            view_result(res) == self@.encoding(),
    {
        let mut buf = vec![MessageType::Udts.value(), self.return_cause.value()];
        match encode_variable_part(&self.called_party, &self.calling_party, self.data.as_slice()) {
            Ok(v) => {
                append_bytes(&mut buf, v.as_slice());
                Ok(buf)
            },
            Err(e) => Err(e),
        }
    }

    /// A one-line rendering, such as `UDTS [cause=Unequipped, called=…, calling=…, data_len=1]`.
    pub fn to_text(&self) -> (s: String)
        ensures
            s@ == self@.text(),
    {
        let mut s = String::new();
        push_str(&mut s, "UDTS [cause=");
        let t = self.return_cause.to_text();
        push_str(&mut s, t.as_str());
        push_parties(&mut s, &self.called_party, &self.calling_party, &self.data);
        s
    }
}

/// Decoding what `UnitDataService::encode` produced gives the message back,
/// with its return cause in canonical form and its addresses normalized, when
/// the pointers and lengths fit in one octet.
#[verifier::spinoff_prover]
pub proof fn lemma_unit_data_service_round_trip(m: UnitDataServiceView)
    requires
        m.fits(),
    ensures
        m.encoding() matches Ok(b) ==> unit_data_service_decoding(b) == Ok::<
            UnitDataServiceView,
            SccpError,
        >(m.normalized()),
{
    let header = seq![0x0Au8, m.return_cause.spec_value()];
    lemma_short_variable_part_round_trip(header, m.called_party, m.calling_party, m.data);
    if let Ok(v) = short_variable_part_encoding(m.called_party, m.calling_party, m.data) {
        assert((header + v)[0] == 0x0A && (header + v)[1] == header[1]);
        assert(ReturnCause::spec_from_u8(header[1]) == normalized_cause(m.return_cause));
        assert((header + v).len() >= 5);
    }
}

// ── XUDT ──────────────────────────────────────────────────────────────────
/// SCCP Extended Unitdata (XUDT, type `0x11`) — connectionless data transfer
/// carrying a **hop counter** (ITU-T Q.713 §4) and an optional parameter part.
///
/// ```ignore
/// 0: Message type (0x11)
/// 1: Protocol class + message handling
/// 2: Hop counter
/// 3: Pointer to called party address
/// 4: Pointer to calling party address
/// 5: Pointer to data
/// 6: Pointer to optional part (0 = none)
/// Variable: called / calling / data (each length-prefixed), then optional part
/// ```
///
/// A translating node decrements `hop_counter` at each global-title translation
/// and discards the message when it reaches zero, breaking routing loops.
#[derive(Debug, Clone, PartialEq, Eq)]
pub struct ExtendedUnitData {
    /// Protocol class (0 or 1).
    pub protocol_class: u8,
    /// Message handling (0 = no special options, 8 = return on error).
    pub message_handling: u8,
    /// Hop counter, decremented at each GT translation.
    pub hop_counter: u8,
    /// Called (destination) party address.
    pub called_party: SccpAddress,
    /// Calling (source) party address.
    pub calling_party: SccpAddress,
    /// User data.
    pub data: Vec<u8>,
    /// Raw optional parameter part (parameters plus the end-of-optional marker)
    /// exactly as it appears on the wire; empty when absent.
    pub optional_part: Vec<u8>,
}

/// The mathematical model of a [`ExtendedUnitData`].
pub struct ExtendedUnitDataView {
    pub protocol_class: u8,
    pub message_handling: u8,
    pub hop_counter: u8,
    pub called_party: SccpAddressView,
    pub calling_party: SccpAddressView,
    pub data: Seq<u8>,
    pub optional_part: Seq<u8>,
}

impl View for ExtendedUnitData {
    type V = ExtendedUnitDataView;

    open spec fn view(&self) -> ExtendedUnitDataView {
        ExtendedUnitDataView {
            protocol_class: self.protocol_class,
            message_handling: self.message_handling,
            hop_counter: self.hop_counter,
            called_party: self.called_party@,
            calling_party: self.calling_party@,
            data: self.data@,
            optional_part: self.optional_part@,
        }
    }
}

impl ExtendedUnitDataView {
    /// The wire encoding: type, class octet, hop counter, then the variable part.
    pub open spec fn encoding(self) -> Result<Seq<u8>, SccpError> {
        with_header(
            seq![0x11u8, nibble_pair(self.message_handling, self.protocol_class), self.hop_counter],
            extended_variable_part_encoding(
                self.called_party,
                self.calling_party,
                self.data,
                self.optional_part,
            ),
        )
    }

    /// What a decode of this message's encoding gives back.
    pub open spec fn normalized(self) -> ExtendedUnitDataView {
        ExtendedUnitDataView {
            protocol_class: self.protocol_class % 16,
            message_handling: self.message_handling % 16,
            hop_counter: self.hop_counter,
            called_party: self.called_party.normalized(),
            calling_party: self.calling_party.normalized(),
            data: self.data,
            optional_part: self.optional_part,
        }
    }

    /// Whether the pointers and lengths of the encoding fit in one octet.
    pub open spec fn fits(self) -> bool {
        addresses_encoding(self.called_party, self.calling_party) matches Ok((c, k)) ==> {
            &&& 4 + c.len() + k.len() <= 255
            &&& self.data.len() <= 255
            &&& self.optional_part.len() > 0 ==> 4 + c.len() + k.len() + self.data.len() <= 255
        }
    }

    /// A one-line rendering.
    pub open spec fn text(self) -> Seq<char> {
        "XUDT [class="@ + decimal(self.protocol_class as nat) + ", hop="@ + decimal(self.hop_counter as nat) + parties_text(
            self.called_party,
            self.calling_party,
            self.data,
        )
    }
}

/// The XUDT that `bytes` hold, or the error for the first thing wrong with them.
pub open spec fn extended_unit_data_decoding(bytes: Seq<u8>) -> Result<ExtendedUnitDataView, SccpError> {
    if bytes.len() < 7 {
        Err(SccpError::TooShort { expected: 7, actual: bytes.len() as usize })
    } else if bytes[0] != 0x11 {
        Err(SccpError::InvalidMessageType(bytes[0]))
    } else {
        match extended_variable_part_decoding(bytes, 3) {
            Err(e) => Err(e),
            Ok((called, calling, data, optional)) => Ok(
                ExtendedUnitDataView {
                    protocol_class: bytes[1] % 16,
                    message_handling: bytes[1] / 16,
                    hop_counter: bytes[2],
                    called_party: called,
                    calling_party: calling,
                    data,
                    optional_part: optional,
                },
            ),
        }
    }
}

impl ExtendedUnitData {
    /// Build an XUDT with protocol class 0, no special message handling, the
    /// default hop counter and no optional part.
    pub fn new(called_party: SccpAddress, calling_party: SccpAddress, data: Vec<u8>) -> (m: Self)
        ensures
            m@ == (ExtendedUnitDataView {
                protocol_class: 0,
                message_handling: 0,
                hop_counter: DEFAULT_HOP_COUNTER,
                called_party: called_party@,
                calling_party: calling_party@,
                data: data@,
                optional_part: Seq::empty(),
            }),
    {
        let m = Self {
            protocol_class: 0,
            message_handling: 0,
            hop_counter: DEFAULT_HOP_COUNTER,
            called_party,
            calling_party,
            data,
            optional_part: Vec::new(),
        };
        assert(m@.optional_part =~= Seq::<u8>::empty());
        m
    }

    /// Decode an XUDT message from raw bytes (including the leading type octet).
    pub fn decode(bytes: &[u8]) -> (res: Result<Self, SccpError>)
        ensures
            view_result(res) == extended_unit_data_decoding(bytes@),
    {
        if bytes.len() < 7 {
            return Err(SccpError::TooShort { expected: 7, actual: bytes.len() });
        }
        match MessageType::from_u8(bytes[0]) {
            Some(MessageType::Xudt) => {},
            _ => {
                return Err(SccpError::InvalidMessageType(bytes[0]));
            },
        }
        let protocol_class = bytes[1] % 16;
        let message_handling = bytes[1] / 16;
        let hop_counter = bytes[2];
        let (called_party, calling_party, data, optional_part) = match decode_extended_variable_part(
            bytes,
            3,
        ) {
            Ok(t) => t,
            Err(e) => {
                return Err(e);
            },
        };
        Ok(
            Self {
                protocol_class,
                message_handling,
                hop_counter,
                called_party,
                calling_party,
                data,
                optional_part,
            },
        )
    }

    /// Encode this XUDT to bytes, including the leading message-type octet.
    pub fn encode(&self) -> (res: Result<Vec<u8>, SccpError>)
        ensures
            view_result(res) == self@.encoding(),
    {
        let mut buf = vec![
            MessageType::Xudt.value(),
            make_nibble_pair(self.message_handling, self.protocol_class),
            self.hop_counter,
        ];
        match encode_extended_variable_part(
            &self.called_party,
            &self.calling_party,
            self.data.as_slice(),
            self.optional_part.as_slice(),
        ) {
            Ok(v) => {
                append_bytes(&mut buf, v.as_slice());
                Ok(buf)
            },
            Err(e) => Err(e),
        }
    }

    /// A one-line rendering, such as `XUDT [class=0, hop=15, called=…, calling=…, data_len=2]`.
    pub fn to_text(&self) -> (s: String)
        ensures
            s@ == self@.text(),
    {
        let mut s = String::new();
        push_str(&mut s, "XUDT [class=");
        push_decimal(&mut s, self.protocol_class as u64);
        push_str(&mut s, ", hop=");
        push_decimal(&mut s, self.hop_counter as u64);
        push_parties(&mut s, &self.called_party, &self.calling_party, &self.data);
        s
    }
}

/// Decoding what `ExtendedUnitData::encode` produced gives the message back, with
/// its class octet cut to its two nibbles and its addresses normalized, when its pointers and
/// lengths fit their fields.
#[verifier::spinoff_prover]
pub proof fn lemma_extended_unit_data_round_trip(m: ExtendedUnitDataView)
    requires
        m.fits(),
    ensures
        m.encoding() matches Ok(b) ==> extended_unit_data_decoding(b) == Ok::<ExtendedUnitDataView, SccpError>(
            m.normalized(),
        ),
{
    let header = seq![0x11u8, nibble_pair(m.message_handling, m.protocol_class), m.hop_counter];
    lemma_extended_variable_part_round_trip(header, m.called_party, m.calling_party, m.data, m.optional_part);
    lemma_nibble_pair(m.message_handling, m.protocol_class);
    if let Ok(v) = extended_variable_part_encoding(m.called_party, m.calling_party, m.data, m.optional_part) {
        assert((header + v)[0] == 0x11 && (header + v)[1] == header[1] && (header + v)[2] == header[2]);
        assert((header + v).len() >= 7);
    }
}

// ── XUDTS ──────────────────────────────────────────────────────────────────
/// SCCP Extended Unitdata Service (XUDTS, type `0x12`) — the error response for
/// an XUDT, with a [`ReturnCause`] in place of the protocol class and its own
/// hop counter. Returned with cause [`ReturnCause::HopCounterViolation`] when a
/// hop counter reaches zero.
#[derive(Debug, Clone, PartialEq, Eq)]
pub struct ExtendedUnitDataService {
    /// Why the returned XUDT could not be delivered.
    pub return_cause: ReturnCause,
    /// Hop counter, decremented at each GT translation.
    pub hop_counter: u8,
    /// Called (destination) party address.
    pub called_party: SccpAddress,
    /// Calling (source) party address.
    pub calling_party: SccpAddress,
    /// User data.
    pub data: Vec<u8>,
    /// Raw optional parameter part (parameters plus the end-of-optional marker)
    /// exactly as it appears on the wire; empty when absent.
    pub optional_part: Vec<u8>,
}

/// The mathematical model of a [`ExtendedUnitDataService`].
pub struct ExtendedUnitDataServiceView {
    pub return_cause: ReturnCause,
    pub hop_counter: u8,
    pub called_party: SccpAddressView,
    pub calling_party: SccpAddressView,
    pub data: Seq<u8>,
    pub optional_part: Seq<u8>,
}

impl View for ExtendedUnitDataService {
    type V = ExtendedUnitDataServiceView;

    open spec fn view(&self) -> ExtendedUnitDataServiceView {
        ExtendedUnitDataServiceView {
            return_cause: self.return_cause,
            hop_counter: self.hop_counter,
            called_party: self.called_party@,
            calling_party: self.calling_party@,
            data: self.data@,
            optional_part: self.optional_part@,
        }
    }
}

impl ExtendedUnitDataServiceView {
    /// The wire encoding: type, return cause, hop counter, then the variable part.
    pub open spec fn encoding(self) -> Result<Seq<u8>, SccpError> {
        with_header(
            seq![0x12u8, self.return_cause.spec_value(), self.hop_counter],
            extended_variable_part_encoding(
                self.called_party,
                self.calling_party,
                self.data,
                self.optional_part,
            ),
        )
    }

    /// What a decode of this message's encoding gives back.
    pub open spec fn normalized(self) -> ExtendedUnitDataServiceView {
        ExtendedUnitDataServiceView {
            return_cause: normalized_cause(self.return_cause),
            hop_counter: self.hop_counter,
            called_party: self.called_party.normalized(),
            calling_party: self.calling_party.normalized(),
            data: self.data,
            optional_part: self.optional_part,
        }
    }

    /// Whether the pointers and lengths of the encoding fit in one octet.
    pub open spec fn fits(self) -> bool {
        addresses_encoding(self.called_party, self.calling_party) matches Ok((c, k)) ==> {
            &&& 4 + c.len() + k.len() <= 255
            &&& self.data.len() <= 255
            &&& self.optional_part.len() > 0 ==> 4 + c.len() + k.len() + self.data.len() <= 255
        }
    }

    /// A one-line rendering.
    pub open spec fn text(self) -> Seq<char> {
        "XUDTS [cause="@ + self.return_cause.spec_text() + ", hop="@ + decimal(self.hop_counter as nat) + parties_text(
            self.called_party,
            self.calling_party,
            self.data,
        )
    }
}

/// The XUDTS that `bytes` hold, or the error for the first thing wrong with them.
pub open spec fn extended_unit_data_service_decoding(bytes: Seq<u8>) -> Result<ExtendedUnitDataServiceView, SccpError> {
    if bytes.len() < 7 {
        Err(SccpError::TooShort { expected: 7, actual: bytes.len() as usize })
    } else if bytes[0] != 0x12 {
        Err(SccpError::InvalidMessageType(bytes[0]))
    } else {
        match extended_variable_part_decoding(bytes, 3) {
            Err(e) => Err(e),
            Ok((called, calling, data, optional)) => Ok(
                ExtendedUnitDataServiceView {
                    return_cause: ReturnCause::spec_from_u8(bytes[1]),
                    hop_counter: bytes[2],
                    called_party: called,
                    calling_party: calling,
                    data,
                    optional_part: optional,
                },
            ),
        }
    }
}

impl ExtendedUnitDataService {
    /// Build an XUDTS with the given return cause, the default hop counter and
    /// no optional part.
    pub fn new(
        return_cause: ReturnCause,
        called_party: SccpAddress,
        calling_party: SccpAddress,
        data: Vec<u8>,
    ) -> (m: Self)
        ensures
            m@ == (ExtendedUnitDataServiceView {
                return_cause,
                hop_counter: DEFAULT_HOP_COUNTER,
                called_party: called_party@,
                calling_party: calling_party@,
                data: data@,
                optional_part: Seq::empty(),
            }),
    {
        let m = Self {
            return_cause,
            hop_counter: DEFAULT_HOP_COUNTER,
            called_party,
            calling_party,
            data,
            optional_part: Vec::new(),
        };
        assert(m@.optional_part =~= Seq::<u8>::empty());
        m
    }

    /// Decode an XUDTS message from raw bytes (including the leading type octet).
    pub fn decode(bytes: &[u8]) -> (res: Result<Self, SccpError>)
        ensures
            view_result(res) == extended_unit_data_service_decoding(bytes@),
    {
        if bytes.len() < 7 {
            return Err(SccpError::TooShort { expected: 7, actual: bytes.len() });
        }
        match MessageType::from_u8(bytes[0]) {
            Some(MessageType::Xudts) => {},
            _ => {
                return Err(SccpError::InvalidMessageType(bytes[0]));
            },
        }
        let return_cause = ReturnCause::from_u8(bytes[1]);
        let hop_counter = bytes[2];
        let (called_party, calling_party, data, optional_part) = match decode_extended_variable_part(
            bytes,
            3,
        ) {
            Ok(t) => t,
            Err(e) => {
                return Err(e);
            },
        };
        Ok(
            Self {
                return_cause,
                hop_counter,
                called_party,
                calling_party,
                data,
                optional_part,
            },
        )
    }

    /// Encode this XUDTS to bytes, including the leading message-type octet.
    pub fn encode(&self) -> (res: Result<Vec<u8>, SccpError>)
        ensures
            view_result(res) == self@.encoding(),
    {
        let mut buf = vec![
            MessageType::Xudts.value(),
            self.return_cause.value(),
            self.hop_counter,
        ];
        match encode_extended_variable_part(
            &self.called_party,
            &self.calling_party,
            self.data.as_slice(),
            self.optional_part.as_slice(),
        ) {
            Ok(v) => {
                append_bytes(&mut buf, v.as_slice());
                Ok(buf)
            },
            Err(e) => Err(e),
        }
    }

    /// A one-line rendering, such as `XUDTS [cause=…, hop=15, called=…, calling=…, data_len=2]`.
    pub fn to_text(&self) -> (s: String)
        ensures
            s@ == self@.text(),
    {
        let mut s = String::new();
        push_str(&mut s, "XUDTS [cause=");
        let t = self.return_cause.to_text();
        push_str(&mut s, t.as_str());
        push_str(&mut s, ", hop=");
        push_decimal(&mut s, self.hop_counter as u64);
        push_parties(&mut s, &self.called_party, &self.calling_party, &self.data);
        s
    }
}

/// Decoding what `ExtendedUnitDataService::encode` produced gives the message back, with
/// its return cause in canonical form and its addresses normalized, when its pointers and
/// lengths fit their fields.
#[verifier::spinoff_prover]
pub proof fn lemma_extended_unit_data_service_round_trip(m: ExtendedUnitDataServiceView)
    requires
        m.fits(),
    ensures
        m.encoding() matches Ok(b) ==> extended_unit_data_service_decoding(b) == Ok::<ExtendedUnitDataServiceView, SccpError>(
            m.normalized(),
        ),
{
    let header = seq![0x12u8, m.return_cause.spec_value(), m.hop_counter];
    lemma_extended_variable_part_round_trip(header, m.called_party, m.calling_party, m.data, m.optional_part);
    if let Ok(v) = extended_variable_part_encoding(m.called_party, m.calling_party, m.data, m.optional_part) {
        assert((header + v)[0] == 0x12 && (header + v)[1] == header[1] && (header + v)[2] == header[2]);
        assert(ReturnCause::spec_from_u8(header[1]) == normalized_cause(m.return_cause));
        assert((header + v).len() >= 7);
    }
}

// ── LUDT ──────────────────────────────────────────────────────────────────
/// SCCP Long Unitdata (LUDT, type `0x13`) — like XUDT but with two-octet
/// pointers and a two-octet data length, so it can carry user data past the
/// ~255-octet UDT/XUDT ceiling (ITU-T Q.713 §4.3). Also carries a hop counter.
#[derive(Debug, Clone, PartialEq, Eq)]
pub struct LongUnitData {
    /// Protocol class (0 or 1).
    pub protocol_class: u8,
    /// Message handling (0 = no special options, 8 = return on error).
    pub message_handling: u8,
    /// Hop counter, decremented at each GT translation.
    pub hop_counter: u8,
    /// Called (destination) party address.
    pub called_party: SccpAddress,
    /// Calling (source) party address.
    pub calling_party: SccpAddress,
    /// User data.
    pub data: Vec<u8>,
    /// Raw optional parameter part (parameters plus the end-of-optional marker)
    /// exactly as it appears on the wire; empty when absent.
    pub optional_part: Vec<u8>,
}

/// The mathematical model of a [`LongUnitData`].
pub struct LongUnitDataView {
    pub protocol_class: u8,
    pub message_handling: u8,
    pub hop_counter: u8,
    pub called_party: SccpAddressView,
    pub calling_party: SccpAddressView,
    pub data: Seq<u8>,
    pub optional_part: Seq<u8>,
}

impl View for LongUnitData {
    type V = LongUnitDataView;

    open spec fn view(&self) -> LongUnitDataView {
        LongUnitDataView {
            protocol_class: self.protocol_class,
            message_handling: self.message_handling,
            hop_counter: self.hop_counter,
            called_party: self.called_party@,
            calling_party: self.calling_party@,
            data: self.data@,
            optional_part: self.optional_part@,
        }
    }
}

impl LongUnitDataView {
    /// The wire encoding: type, class octet, hop counter, then the variable part.
    pub open spec fn encoding(self) -> Result<Seq<u8>, SccpError> {
        with_header(
            seq![0x13u8, nibble_pair(self.message_handling, self.protocol_class), self.hop_counter],
            long_variable_part_encoding(
                self.called_party,
                self.calling_party,
                self.data,
                self.optional_part,
            ),
        )
    }

    /// What a decode of this message's encoding gives back.
    pub open spec fn normalized(self) -> LongUnitDataView {
        LongUnitDataView {
            protocol_class: self.protocol_class % 16,
            message_handling: self.message_handling % 16,
            hop_counter: self.hop_counter,
            called_party: self.called_party.normalized(),
            calling_party: self.calling_party.normalized(),
            data: self.data,
            optional_part: self.optional_part,
        }
    }

    /// Whether the address lengths fit in one octet and the data length and pointers in two.
    pub open spec fn fits(self) -> bool {
        addresses_encoding(self.called_party, self.calling_party) matches Ok((c, k)) ==> {
            &&& c.len() <= 255
            &&& k.len() <= 255
            &&& self.data.len() <= 65535
            &&& self.optional_part.len() > 0 ==> 5 + c.len() + k.len() + self.data.len() <= 65535
        }
    }

    /// A one-line rendering.
    pub open spec fn text(self) -> Seq<char> {
        "LUDT [class="@ + decimal(self.protocol_class as nat) + ", hop="@ + decimal(self.hop_counter as nat) + parties_text(
            self.called_party,
            self.calling_party,
            self.data,
        )
    }
}

/// The LUDT that `bytes` hold, or the error for the first thing wrong with them.
pub open spec fn long_unit_data_decoding(bytes: Seq<u8>) -> Result<LongUnitDataView, SccpError> {
    if bytes.len() < 1 {
        Err(SccpError::TooShort { expected: 1, actual: 0 })
    } else if bytes[0] != 0x13 {
        Err(SccpError::InvalidMessageType(bytes[0]))
    } else {
        match long_variable_part_decoding(bytes) {
            Err(e) => Err(e),
            Ok((called, calling, data, optional)) => Ok(
                LongUnitDataView {
                    protocol_class: bytes[1] % 16,
                    message_handling: bytes[1] / 16,
                    hop_counter: bytes[2],
                    called_party: called,
                    calling_party: calling,
                    data,
                    optional_part: optional,
                },
            ),
        }
    }
}

impl LongUnitData {
    /// Build an LUDT with protocol class 0, no special message handling, the
    /// default hop counter and no optional part.
    pub fn new(called_party: SccpAddress, calling_party: SccpAddress, data: Vec<u8>) -> (m: Self)
        ensures
            m@ == (LongUnitDataView {
                protocol_class: 0,
                message_handling: 0,
                hop_counter: DEFAULT_HOP_COUNTER,
                called_party: called_party@,
                calling_party: calling_party@,
                data: data@,
                optional_part: Seq::empty(),
            }),
    {
        let m = Self {
            protocol_class: 0,
            message_handling: 0,
            hop_counter: DEFAULT_HOP_COUNTER,
            called_party,
            calling_party,
            data,
            optional_part: Vec::new(),
        };
        assert(m@.optional_part =~= Seq::<u8>::empty());
        m
    }

    /// Decode an LUDT message from raw bytes (including the leading type octet).
    pub fn decode(bytes: &[u8]) -> (res: Result<Self, SccpError>)
        ensures
            view_result(res) == long_unit_data_decoding(bytes@),
    {
        if bytes.len() == 0 {
            return Err(SccpError::TooShort { expected: 1, actual: 0 });
        }
        match MessageType::from_u8(bytes[0]) {
            Some(MessageType::Ludt) => {},
            _ => {
                return Err(SccpError::InvalidMessageType(bytes[0]));
            },
        }
        // decode_long_variable_part enforces the 11-octet minimum, so the fixed
        // class/hop octets at 1 and 2 are in range once it returns.
        let (called_party, calling_party, data, optional_part) = match decode_long_variable_part(
            bytes,
        ) {
            Ok(t) => t,
            Err(e) => {
                return Err(e);
            },
        };
        let protocol_class = bytes[1] % 16;
        let message_handling = bytes[1] / 16;
        let hop_counter = bytes[2];
        Ok(
            Self {
                protocol_class,
                message_handling,
                hop_counter,
                called_party,
                calling_party,
                data,
                optional_part,
            },
        )
    }

    /// Encode this LUDT to bytes, including the leading message-type octet.
    pub fn encode(&self) -> (res: Result<Vec<u8>, SccpError>)
        ensures
            view_result(res) == self@.encoding(),
    {
        let mut buf = vec![
            MessageType::Ludt.value(),
            make_nibble_pair(self.message_handling, self.protocol_class),
            self.hop_counter,
        ];
        match encode_long_variable_part(
            &self.called_party,
            &self.calling_party,
            self.data.as_slice(),
            self.optional_part.as_slice(),
        ) {
            Ok(v) => {
                append_bytes(&mut buf, v.as_slice());
                Ok(buf)
            },
            Err(e) => Err(e),
        }
    }

    /// A one-line rendering, such as `LUDT [class=0, hop=15, called=…, calling=…, data_len=2]`.
    pub fn to_text(&self) -> (s: String)
        ensures
            s@ == self@.text(),
    {
        let mut s = String::new();
        push_str(&mut s, "LUDT [class=");
        push_decimal(&mut s, self.protocol_class as u64);
        push_str(&mut s, ", hop=");
        push_decimal(&mut s, self.hop_counter as u64);
        push_parties(&mut s, &self.called_party, &self.calling_party, &self.data);
        s
    }
}

/// Decoding what `LongUnitData::encode` produced gives the message back, with
/// its class octet cut to its two nibbles and its addresses normalized, when its pointers and
/// lengths fit their fields.
#[verifier::spinoff_prover]
pub proof fn lemma_long_unit_data_round_trip(m: LongUnitDataView)
    requires
        m.fits(),
    ensures
        m.encoding() matches Ok(b) ==> long_unit_data_decoding(b) == Ok::<LongUnitDataView, SccpError>(
            m.normalized(),
        ),
{
    let header = seq![0x13u8, nibble_pair(m.message_handling, m.protocol_class), m.hop_counter];
    lemma_long_variable_part_round_trip(header, m.called_party, m.calling_party, m.data, m.optional_part);
    lemma_nibble_pair(m.message_handling, m.protocol_class);
    if let Ok(v) = long_variable_part_encoding(m.called_party, m.calling_party, m.data, m.optional_part) {
        assert((header + v)[0] == 0x13 && (header + v)[1] == header[1] && (header + v)[2] == header[2]);
    }
}

// ── LUDTS ──────────────────────────────────────────────────────────────────
/// SCCP Long Unitdata Service (LUDTS, type `0x14`) — the error response for an
/// LUDT, with a [`ReturnCause`] in place of the protocol class.
#[derive(Debug, Clone, PartialEq, Eq)]
pub struct LongUnitDataService {
    /// Why the returned LUDT could not be delivered.
    pub return_cause: ReturnCause,
    /// Hop counter, decremented at each GT translation.
    pub hop_counter: u8,
    /// Called (destination) party address.
    pub called_party: SccpAddress,
    /// Calling (source) party address.
    pub calling_party: SccpAddress,
    /// User data.
    pub data: Vec<u8>,
    /// Raw optional parameter part (parameters plus the end-of-optional marker)
    /// exactly as it appears on the wire; empty when absent.
    pub optional_part: Vec<u8>,
}

/// The mathematical model of a [`LongUnitDataService`].
pub struct LongUnitDataServiceView {
    pub return_cause: ReturnCause,
    pub hop_counter: u8,
    pub called_party: SccpAddressView,
    pub calling_party: SccpAddressView,
    pub data: Seq<u8>,
    pub optional_part: Seq<u8>,
}

impl View for LongUnitDataService {
    type V = LongUnitDataServiceView;

    open spec fn view(&self) -> LongUnitDataServiceView {
        LongUnitDataServiceView {
            return_cause: self.return_cause,
            hop_counter: self.hop_counter,
            called_party: self.called_party@,
            calling_party: self.calling_party@,
            data: self.data@,
            optional_part: self.optional_part@,
        }
    }
}

impl LongUnitDataServiceView {
    /// The wire encoding: type, return cause, hop counter, then the variable part.
    pub open spec fn encoding(self) -> Result<Seq<u8>, SccpError> {
        with_header(
            seq![0x14u8, self.return_cause.spec_value(), self.hop_counter],
            long_variable_part_encoding(
                self.called_party,
                self.calling_party,
                self.data,
                self.optional_part,
            ),
        )
    }

    /// What a decode of this message's encoding gives back.
    pub open spec fn normalized(self) -> LongUnitDataServiceView {
        LongUnitDataServiceView {
            return_cause: normalized_cause(self.return_cause),
            hop_counter: self.hop_counter,
            called_party: self.called_party.normalized(),
            calling_party: self.calling_party.normalized(),
            data: self.data,
            optional_part: self.optional_part,
        }
    }

    /// Whether the address lengths fit in one octet and the data length and pointers in two.
    pub open spec fn fits(self) -> bool {
        addresses_encoding(self.called_party, self.calling_party) matches Ok((c, k)) ==> {
            &&& c.len() <= 255
            &&& k.len() <= 255
            &&& self.data.len() <= 65535
            &&& self.optional_part.len() > 0 ==> 5 + c.len() + k.len() + self.data.len() <= 65535
        }
    }

    /// A one-line rendering.
    pub open spec fn text(self) -> Seq<char> {
        "LUDTS [cause="@ + self.return_cause.spec_text() + ", hop="@ + decimal(self.hop_counter as nat) + parties_text(
            self.called_party,
            self.calling_party,
            self.data,
        )
    }
}

/// The LUDTS that `bytes` hold, or the error for the first thing wrong with them.
pub open spec fn long_unit_data_service_decoding(bytes: Seq<u8>) -> Result<LongUnitDataServiceView, SccpError> {
    if bytes.len() < 1 {
        Err(SccpError::TooShort { expected: 1, actual: 0 })
    } else if bytes[0] != 0x14 {
        Err(SccpError::InvalidMessageType(bytes[0]))
    } else {
        match long_variable_part_decoding(bytes) {
            Err(e) => Err(e),
            Ok((called, calling, data, optional)) => Ok(
                LongUnitDataServiceView {
                    return_cause: ReturnCause::spec_from_u8(bytes[1]),
                    hop_counter: bytes[2],
                    called_party: called,
                    calling_party: calling,
                    data,
                    optional_part: optional,
                },
            ),
        }
    }
}

impl LongUnitDataService {
    /// Build an LUDTS with the given return cause, the default hop counter and
    /// no optional part.
    pub fn new(
        return_cause: ReturnCause,
        called_party: SccpAddress,
        calling_party: SccpAddress,
        data: Vec<u8>,
    ) -> (m: Self)
        ensures
            m@ == (LongUnitDataServiceView {
                return_cause,
                hop_counter: DEFAULT_HOP_COUNTER,
                called_party: called_party@,
                calling_party: calling_party@,
                data: data@,
                optional_part: Seq::empty(),
            }),
    {
        let m = Self {
            return_cause,
            hop_counter: DEFAULT_HOP_COUNTER,
            called_party,
            calling_party,
            data,
            optional_part: Vec::new(),
        };
        assert(m@.optional_part =~= Seq::<u8>::empty());
        m
    }

    /// Decode an LUDTS message from raw bytes (including the leading type octet).
    pub fn decode(bytes: &[u8]) -> (res: Result<Self, SccpError>)
        ensures
            view_result(res) == long_unit_data_service_decoding(bytes@),
    {
        if bytes.len() == 0 {
            return Err(SccpError::TooShort { expected: 1, actual: 0 });
        }
        match MessageType::from_u8(bytes[0]) {
            Some(MessageType::Ludts) => {},
            _ => {
                return Err(SccpError::InvalidMessageType(bytes[0]));
            },
        }
        // decode_long_variable_part enforces the 11-octet minimum, so the fixed
        // class/hop octets at 1 and 2 are in range once it returns.
        let (called_party, calling_party, data, optional_part) = match decode_long_variable_part(
            bytes,
        ) {
            Ok(t) => t,
            Err(e) => {
                return Err(e);
            },
        };
        let return_cause = ReturnCause::from_u8(bytes[1]);
        let hop_counter = bytes[2];
        Ok(
            Self {
                return_cause,
                hop_counter,
                called_party,
                calling_party,
                data,
                optional_part,
            },
        )
    }

    /// Encode this LUDTS to bytes, including the leading message-type octet.
    pub fn encode(&self) -> (res: Result<Vec<u8>, SccpError>)
        ensures
            view_result(res) == self@.encoding(),
    {
        let mut buf = vec![
            MessageType::Ludts.value(),
            self.return_cause.value(),
            self.hop_counter,
        ];
        match encode_long_variable_part(
            &self.called_party,
            &self.calling_party,
            self.data.as_slice(),
            self.optional_part.as_slice(),
        ) {
            Ok(v) => {
                append_bytes(&mut buf, v.as_slice());
                Ok(buf)
            },
            Err(e) => Err(e),
        }
    }

    /// A one-line rendering, such as `LUDTS [cause=…, hop=15, called=…, calling=…, data_len=2]`.
    pub fn to_text(&self) -> (s: String)
        ensures
            s@ == self@.text(),
    {
        let mut s = String::new();
        push_str(&mut s, "LUDTS [cause=");
        let t = self.return_cause.to_text();
        push_str(&mut s, t.as_str());
        push_str(&mut s, ", hop=");
        push_decimal(&mut s, self.hop_counter as u64);
        push_parties(&mut s, &self.called_party, &self.calling_party, &self.data);
        s
    }
}

/// Decoding what `LongUnitDataService::encode` produced gives the message back, with
/// its return cause in canonical form and its addresses normalized, when its pointers and
/// lengths fit their fields.
#[verifier::spinoff_prover]
pub proof fn lemma_long_unit_data_service_round_trip(m: LongUnitDataServiceView)
    requires
        m.fits(),
    ensures
        m.encoding() matches Ok(b) ==> long_unit_data_service_decoding(b) == Ok::<LongUnitDataServiceView, SccpError>(
            m.normalized(),
        ),
{
    let header = seq![0x14u8, m.return_cause.spec_value(), m.hop_counter];
    lemma_long_variable_part_round_trip(header, m.called_party, m.calling_party, m.data, m.optional_part);
    if let Ok(v) = long_variable_part_encoding(m.called_party, m.calling_party, m.data, m.optional_part) {
        assert((header + v)[0] == 0x14 && (header + v)[1] == header[1] && (header + v)[2] == header[2]);
        assert(ReturnCause::spec_from_u8(header[1]) == normalized_cause(m.return_cause));
    }
}

// ── Dispatch ────────────────────────────────────────────────────────────────
/// Top-level SCCP message enum for the connectionless message types this codec
/// decodes.
#[derive(Debug, Clone, PartialEq, Eq)]
pub enum SccpMessage {
    /// A Unitdata (UDT) message.
    Udt(UnitData),
    /// A Unitdata Service (UDTS) message.
    Udts(UnitDataService),
    /// An Extended Unitdata (XUDT) message.
    Xudt(ExtendedUnitData),
    /// An Extended Unitdata Service (XUDTS) message.
    Xudts(ExtendedUnitDataService),
    /// A Long Unitdata (LUDT) message.
    Ludt(LongUnitData),
    /// A Long Unitdata Service (LUDTS) message.
    Ludts(LongUnitDataService),
}

/// The mathematical model of an [`SccpMessage`].
pub enum SccpMessageView {
    Udt(UnitDataView),
    Udts(UnitDataServiceView),
    Xudt(ExtendedUnitDataView),
    Xudts(ExtendedUnitDataServiceView),
    Ludt(LongUnitDataView),
    Ludts(LongUnitDataServiceView),
}

impl View for SccpMessage {
    type V = SccpMessageView;

    open spec fn view(&self) -> SccpMessageView {
        match self {
            SccpMessage::Udt(m) => SccpMessageView::Udt(m@),
            SccpMessage::Udts(m) => SccpMessageView::Udts(m@),
            SccpMessage::Xudt(m) => SccpMessageView::Xudt(m@),
            SccpMessage::Xudts(m) => SccpMessageView::Xudts(m@),
            SccpMessage::Ludt(m) => SccpMessageView::Ludt(m@),
            SccpMessage::Ludts(m) => SccpMessageView::Ludts(m@),
        }
    }
}

impl SccpMessageView {
    /// The wire encoding of the message inside.
    pub open spec fn encoding(self) -> Result<Seq<u8>, SccpError> {
        match self {
            SccpMessageView::Udt(m) => m.encoding(),
            SccpMessageView::Udts(m) => m.encoding(),
            SccpMessageView::Xudt(m) => m.encoding(),
            SccpMessageView::Xudts(m) => m.encoding(),
            SccpMessageView::Ludt(m) => m.encoding(),
            SccpMessageView::Ludts(m) => m.encoding(),
        }
    }

    /// What a decode of this message's encoding gives back.
    pub open spec fn normalized(self) -> SccpMessageView {
        match self {
            SccpMessageView::Udt(m) => SccpMessageView::Udt(m.normalized()),
            SccpMessageView::Udts(m) => SccpMessageView::Udts(m.normalized()),
            SccpMessageView::Xudt(m) => SccpMessageView::Xudt(m.normalized()),
            SccpMessageView::Xudts(m) => SccpMessageView::Xudts(m.normalized()),
            SccpMessageView::Ludt(m) => SccpMessageView::Ludt(m.normalized()),
            SccpMessageView::Ludts(m) => SccpMessageView::Ludts(m.normalized()),
        }
    }

    /// Whether the pointers and lengths of the encoding fit their fields.
    pub open spec fn fits(self) -> bool {
        match self {
            SccpMessageView::Udt(m) => m.fits(),
            SccpMessageView::Udts(m) => m.fits(),
            SccpMessageView::Xudt(m) => m.fits(),
            SccpMessageView::Xudts(m) => m.fits(),
            SccpMessageView::Ludt(m) => m.fits(),
            SccpMessageView::Ludts(m) => m.fits(),
        }
    }

    /// The called party address of the message inside.
    pub open spec fn called_party(self) -> SccpAddressView {
        match self {
            SccpMessageView::Udt(m) => m.called_party,
            SccpMessageView::Udts(m) => m.called_party,
            SccpMessageView::Xudt(m) => m.called_party,
            SccpMessageView::Xudts(m) => m.called_party,
            SccpMessageView::Ludt(m) => m.called_party,
            SccpMessageView::Ludts(m) => m.called_party,
        }
    }

    /// The calling party address of the message inside.
    pub open spec fn calling_party(self) -> SccpAddressView {
        match self {
            SccpMessageView::Udt(m) => m.calling_party,
            SccpMessageView::Udts(m) => m.calling_party,
            SccpMessageView::Xudt(m) => m.calling_party,
            SccpMessageView::Xudts(m) => m.calling_party,
            SccpMessageView::Ludt(m) => m.calling_party,
            SccpMessageView::Ludts(m) => m.calling_party,
        }
    }

    /// The user data of the message inside.
    pub open spec fn data(self) -> Seq<u8> {
        match self {
            SccpMessageView::Udt(m) => m.data,
            SccpMessageView::Udts(m) => m.data,
            SccpMessageView::Xudt(m) => m.data,
            SccpMessageView::Xudts(m) => m.data,
            SccpMessageView::Ludt(m) => m.data,
            SccpMessageView::Ludts(m) => m.data,
        }
    }

    /// The hop counter, for the types that carry one.
    pub open spec fn hop_counter(self) -> Option<u8> {
        match self {
            SccpMessageView::Udt(_) => None,
            SccpMessageView::Udts(_) => None,
            SccpMessageView::Xudt(m) => Some(m.hop_counter),
            SccpMessageView::Xudts(m) => Some(m.hop_counter),
            SccpMessageView::Ludt(m) => Some(m.hop_counter),
            SccpMessageView::Ludts(m) => Some(m.hop_counter),
        }
    }

    /// The message type of the message inside.
    pub open spec fn message_type(self) -> MessageType {
        match self {
            SccpMessageView::Udt(_) => MessageType::Udt,
            SccpMessageView::Udts(_) => MessageType::Udts,
            SccpMessageView::Xudt(_) => MessageType::Xudt,
            SccpMessageView::Xudts(_) => MessageType::Xudts,
            SccpMessageView::Ludt(_) => MessageType::Ludt,
            SccpMessageView::Ludts(_) => MessageType::Ludts,
        }
    }

    /// The rendering of the message inside.
    pub open spec fn text(self) -> Seq<char> {
        match self {
            SccpMessageView::Udt(m) => m.text(),
            SccpMessageView::Udts(m) => m.text(),
            SccpMessageView::Xudt(m) => m.text(),
            SccpMessageView::Xudts(m) => m.text(),
            SccpMessageView::Ludt(m) => m.text(),
            SccpMessageView::Ludts(m) => m.text(),
        }
    }
}

/// A decoded message wrapped by `wrap`, or the decode error.
pub open spec fn wrapped<T>(r: Result<T, SccpError>, wrap: spec_fn(T) -> SccpMessageView) -> Result<
    SccpMessageView,
    SccpError,
> {
    match r {
        Ok(m) => Ok(wrap(m)),
        Err(e) => Err(e),
    }
}

/// The connectionless message that `bytes` hold, chosen by the message-type
/// octet, or the error for the first thing wrong with them.
pub open spec fn message_decoding(bytes: Seq<u8>) -> Result<SccpMessageView, SccpError> {
    if bytes.len() == 0 {
        Err(SccpError::TooShort { expected: 1, actual: 0 })
    } else {
        match MessageType::spec_from_u8(bytes[0]) {
            Some(MessageType::Udt) => wrapped(
                unit_data_decoding(bytes),
                |m: UnitDataView| SccpMessageView::Udt(m),
            ),
            Some(MessageType::Udts) => wrapped(
                unit_data_service_decoding(bytes),
                |m: UnitDataServiceView| SccpMessageView::Udts(m),
            ),
            Some(MessageType::Xudt) => wrapped(
                extended_unit_data_decoding(bytes),
                |m: ExtendedUnitDataView| SccpMessageView::Xudt(m),
            ),
            Some(MessageType::Xudts) => wrapped(
                extended_unit_data_service_decoding(bytes),
                |m: ExtendedUnitDataServiceView| SccpMessageView::Xudts(m),
            ),
            Some(MessageType::Ludt) => wrapped(
                long_unit_data_decoding(bytes),
                |m: LongUnitDataView| SccpMessageView::Ludt(m),
            ),
            Some(MessageType::Ludts) => wrapped(
                long_unit_data_service_decoding(bytes),
                |m: LongUnitDataServiceView| SccpMessageView::Ludts(m),
            ),
            _ => Err(SccpError::InvalidMessageType(bytes[0])),
        }
    }
}

impl SccpMessage {
    /// Decode an SCCP message from raw bytes, dispatching on the message-type octet.
    ///
    /// The connectionless types (UDT, UDTS, XUDT, XUDTS, LUDT, LUDTS) are
    /// decoded; any other type yields [`SccpError::InvalidMessageType`].
    pub fn decode(bytes: &[u8]) -> (res: Result<Self, SccpError>)
        ensures
            view_result(res) == message_decoding(bytes@),
    {
        if bytes.len() == 0 {
            return Err(SccpError::TooShort { expected: 1, actual: 0 });
        }
        match MessageType::from_u8(bytes[0]) {
            Some(MessageType::Udt) => match UnitData::decode(bytes) {
                Ok(m) => Ok(Self::Udt(m)),
                Err(e) => Err(e),
            },
            Some(MessageType::Udts) => match UnitDataService::decode(bytes) {
                Ok(m) => Ok(Self::Udts(m)),
                Err(e) => Err(e),
            },
            Some(MessageType::Xudt) => match ExtendedUnitData::decode(bytes) {
                Ok(m) => Ok(Self::Xudt(m)),
                Err(e) => Err(e),
            },
            Some(MessageType::Xudts) => match ExtendedUnitDataService::decode(bytes) {
                Ok(m) => Ok(Self::Xudts(m)),
                Err(e) => Err(e),
            },
            Some(MessageType::Ludt) => match LongUnitData::decode(bytes) {
                Ok(m) => Ok(Self::Ludt(m)),
                Err(e) => Err(e),
            },
            Some(MessageType::Ludts) => match LongUnitDataService::decode(bytes) {
                Ok(m) => Ok(Self::Ludts(m)),
                Err(e) => Err(e),
            },
            _ => Err(SccpError::InvalidMessageType(bytes[0])),
        }
    }

    /// Encode this message to bytes, including the leading message-type octet.
    pub fn encode(&self) -> (res: Result<Vec<u8>, SccpError>)
        ensures
            view_result(res) == self@.encoding(),
    {
        match self {
            Self::Udt(m) => m.encode(),
            Self::Udts(m) => m.encode(),
            Self::Xudt(m) => m.encode(),
            Self::Xudts(m) => m.encode(),
            Self::Ludt(m) => m.encode(),
            Self::Ludts(m) => m.encode(),
        }
    }

    /// The called (destination) party address, whichever connectionless type
    /// this is.
    pub fn called_party(&self) -> (a: &SccpAddress)
        ensures
            a@ == self@.called_party(),
    {
        match self {
            Self::Udt(m) => &m.called_party,
            Self::Udts(m) => &m.called_party,
            Self::Xudt(m) => &m.called_party,
            Self::Xudts(m) => &m.called_party,
            Self::Ludt(m) => &m.called_party,
            Self::Ludts(m) => &m.called_party,
        }
    }

    /// The calling (source) party address.
    pub fn calling_party(&self) -> (a: &SccpAddress)
        ensures
            a@ == self@.calling_party(),
    {
        match self {
            Self::Udt(m) => &m.calling_party,
            Self::Udts(m) => &m.calling_party,
            Self::Xudt(m) => &m.calling_party,
            Self::Xudts(m) => &m.calling_party,
            Self::Ludt(m) => &m.calling_party,
            Self::Ludts(m) => &m.calling_party,
        }
    }

    /// The user data.
    pub fn data(&self) -> (d: &[u8])
        ensures
            d@ == self@.data(),
    {
        match self {
            Self::Udt(m) => m.data.as_slice(),
            Self::Udts(m) => m.data.as_slice(),
            Self::Xudt(m) => m.data.as_slice(),
            Self::Xudts(m) => m.data.as_slice(),
            Self::Ludt(m) => m.data.as_slice(),
            Self::Ludts(m) => m.data.as_slice(),
        }
    }

    /// The hop counter, for the types that carry one (XUDT/XUDTS/LUDT/LUDTS);
    /// `None` for UDT/UDTS, which have no hop counter.
    pub fn hop_counter(&self) -> (h: Option<u8>)
        ensures
            h == self@.hop_counter(),
    {
        match self {
            Self::Udt(_) | Self::Udts(_) => None,
            Self::Xudt(m) => Some(m.hop_counter),
            Self::Xudts(m) => Some(m.hop_counter),
            Self::Ludt(m) => Some(m.hop_counter),
            Self::Ludts(m) => Some(m.hop_counter),
        }
    }

    /// The rendering of the message inside.
    pub fn to_text(&self) -> (s: String)
        ensures
            s@ == self@.text(),
    {
        match self {
            Self::Udt(m) => m.to_text(),
            Self::Udts(m) => m.to_text(),
            Self::Xudt(m) => m.to_text(),
            Self::Xudts(m) => m.to_text(),
            Self::Ludt(m) => m.to_text(),
            Self::Ludts(m) => m.to_text(),
        }
    }
}

/// Decoding what `SccpMessage::encode` produced gives the same kind of
/// message back, normalized, when its pointers and lengths fit their fields.
pub proof fn lemma_message_round_trip(m: SccpMessageView)
    requires
        m.fits(),
    ensures
        m.encoding() matches Ok(b) ==> message_decoding(b) == Ok::<SccpMessageView, SccpError>(
            m.normalized(),
        ),
{
    match m {
        SccpMessageView::Udt(u) => {
            lemma_unit_data_round_trip(u);
        },
        SccpMessageView::Udts(u) => {
            lemma_unit_data_service_round_trip(u);
        },
        SccpMessageView::Xudt(u) => {
            lemma_extended_unit_data_round_trip(u);
        },
        SccpMessageView::Xudts(u) => {
            lemma_extended_unit_data_service_round_trip(u);
        },
        SccpMessageView::Ludt(u) => {
            lemma_long_unit_data_round_trip(u);
        },
        SccpMessageView::Ludts(u) => {
            lemma_long_unit_data_service_round_trip(u);
        },
    }
    if let Ok(b) = m.encoding() {
        assert(b.len() > 0);
    }
}

/// Every encoded message begins with the octet of its message type.
pub proof fn lemma_message_type_octet(m: SccpMessageView)
    ensures
        m.encoding() matches Ok(b) ==> b.len() > 0 && b[0] == m.message_type().spec_value(),
{
}

/// Where a UnitData's fields stand on the wire: the type octet 0x09, the class octet with the message handling in its high nibble and the protocol class in its low nibble,
/// then three pointers, each of which, added to its own position, gives the
/// position of the length octet of its field: the called address right after
/// the pointers, then the calling address, then the data, each after its one-octet
/// length, with nothing after the data.
#[verifier::spinoff_prover]
pub proof fn lemma_unit_data_wire_layout(m: UnitDataView)
    requires
        m.fits(),
    ensures
        m.encoding() matches Ok(b) ==> addresses_encoding(m.called_party, m.calling_party) matches Ok(
            (c, k),
        ) && {
            let called_at = 2 + b[2];
            let calling_at = 3 + b[3];
            let data_at = 4 + b[4];
            &&& b[0] == 0x09
            &&& b[1] == (m.message_handling % 16) * 16 + m.protocol_class % 16
            &&& called_at == 5
            &&& b[called_at] == c.len()
            &&& b.subrange(called_at + 1, called_at + 1 + c.len()) == c
            &&& calling_at == called_at + 1 + c.len()
            &&& b[calling_at] == k.len()
            &&& b.subrange(calling_at + 1, calling_at + 1 + k.len()) == k
            &&& data_at == calling_at + 1 + k.len()
            &&& b[data_at] == m.data.len()
            &&& b.subrange(data_at + 1, data_at + 1 + m.data.len()) == m.data
            &&& b.len() == data_at + 1 + m.data.len()
        },
{
    if let Ok((c, k)) = addresses_encoding(m.called_party, m.calling_party) {
        let header = seq![0x09u8, nibble_pair(m.message_handling, m.protocol_class)];
        lemma_nibble_pair(m.message_handling, m.protocol_class);
        lemma_short_layout(header, c, k, m.data);
    }
}

/// Decoding a UnitData reads the type from octet 0, the protocol class from the low nibble and the message handling from the high nibble of octet 1.
pub proof fn lemma_unit_data_decoding_header(bytes: Seq<u8>)
    ensures
        unit_data_decoding(bytes) matches Ok(m) ==> {
            &&& bytes.len() >= 3
            &&& bytes[0] == 0x09
            &&& m.protocol_class == bytes[1] % 16
            &&& m.message_handling == bytes[1] / 16
        },
{
}

/// Where a UnitDataService's fields stand on the wire: the type octet 0x0A, the return cause octet,
/// then three pointers, each of which, added to its own position, gives the
/// position of the length octet of its field: the called address right after
/// the pointers, then the calling address, then the data, each after its one-octet
/// length, with nothing after the data.
#[verifier::spinoff_prover]
pub proof fn lemma_unit_data_service_wire_layout(m: UnitDataServiceView)
    requires
        m.fits(),
    ensures
        m.encoding() matches Ok(b) ==> addresses_encoding(m.called_party, m.calling_party) matches Ok(
            (c, k),
        ) && {
            let called_at = 2 + b[2];
            let calling_at = 3 + b[3];
            let data_at = 4 + b[4];
            &&& b[0] == 0x0A
            &&& b[1] == m.return_cause.spec_value()
            &&& called_at == 5
            &&& b[called_at] == c.len()
            &&& b.subrange(called_at + 1, called_at + 1 + c.len()) == c
            &&& calling_at == called_at + 1 + c.len()
            &&& b[calling_at] == k.len()
            &&& b.subrange(calling_at + 1, calling_at + 1 + k.len()) == k
            &&& data_at == calling_at + 1 + k.len()
            &&& b[data_at] == m.data.len()
            &&& b.subrange(data_at + 1, data_at + 1 + m.data.len()) == m.data
            &&& b.len() == data_at + 1 + m.data.len()
        },
{
    if let Ok((c, k)) = addresses_encoding(m.called_party, m.calling_party) {
        let header = seq![0x0Au8, m.return_cause.spec_value()];
        lemma_short_layout(header, c, k, m.data);
    }
}

/// Decoding a UnitDataService reads the type from octet 0, the return cause from octet 1.
pub proof fn lemma_unit_data_service_decoding_header(bytes: Seq<u8>)
    ensures
        unit_data_service_decoding(bytes) matches Ok(m) ==> {
            &&& bytes.len() >= 3
            &&& bytes[0] == 0x0A
            &&& m.return_cause.spec_value() == bytes[1]
        },
{
    crate::types::lemma_return_cause_octets();
}

/// Where a ExtendedUnitData's fields stand on the wire: the type octet 0x11, the class octet with the message handling in its high nibble and the protocol class in its low nibble,
/// the hop counter, then four pointers, each of which, added to its own
/// position, gives the position of its field: the called address right after
/// the pointers, then the calling address, then the data, each after its one-octet
/// length; the fourth pointer is zero exactly when there is no optional part,
/// and otherwise points at the optional part, which runs to the end right
/// after the data.
#[verifier::spinoff_prover]
pub proof fn lemma_extended_unit_data_wire_layout(m: ExtendedUnitDataView)
    requires
        m.fits(),
    ensures
        m.encoding() matches Ok(b) ==> addresses_encoding(m.called_party, m.calling_party) matches Ok(
            (c, k),
        ) && {
            let called_at = 3 + b[3];
            let calling_at = 4 + b[4];
            let data_at = 5 + b[5];
            let end = data_at + 1 + m.data.len();
            &&& b[0] == 0x11
            &&& b[1] == (m.message_handling % 16) * 16 + m.protocol_class % 16
            &&& b[2] == m.hop_counter
            &&& called_at == 7
            &&& b[called_at] == c.len()
            &&& b.subrange(called_at + 1, called_at + 1 + c.len()) == c
            &&& calling_at == called_at + 1 + c.len()
            &&& b[calling_at] == k.len()
            &&& b.subrange(calling_at + 1, calling_at + 1 + k.len()) == k
            &&& data_at == calling_at + 1 + k.len()
            &&& b[data_at] == m.data.len()
            &&& b.subrange(data_at + 1, end) == m.data
            &&& (b[6] == 0) == (m.optional_part.len() == 0)
            &&& (m.optional_part.len() > 0 ==> 6 + b[6] == end)
            &&& b.skip(end) == m.optional_part
        },
{
    if let Ok((c, k)) = addresses_encoding(m.called_party, m.calling_party) {
        let header = seq![0x11u8, nibble_pair(m.message_handling, m.protocol_class), m.hop_counter];
        lemma_nibble_pair(m.message_handling, m.protocol_class);
        lemma_extended_layout(header, c, k, m.data, m.optional_part);
    }
}

/// Decoding a ExtendedUnitData reads the type from octet 0, the protocol class from the low nibble and the message handling from the high nibble of octet 1, the hop counter from octet 2.
pub proof fn lemma_extended_unit_data_decoding_header(bytes: Seq<u8>)
    ensures
        extended_unit_data_decoding(bytes) matches Ok(m) ==> {
            &&& bytes.len() >= 3
            &&& bytes[0] == 0x11
            &&& m.protocol_class == bytes[1] % 16
            &&& m.message_handling == bytes[1] / 16
            &&& m.hop_counter == bytes[2]
        },
{
}

/// Where a ExtendedUnitDataService's fields stand on the wire: the type octet 0x12, the return cause octet,
/// the hop counter, then four pointers, each of which, added to its own
/// position, gives the position of its field: the called address right after
/// the pointers, then the calling address, then the data, each after its one-octet
/// length; the fourth pointer is zero exactly when there is no optional part,
/// and otherwise points at the optional part, which runs to the end right
/// after the data.
#[verifier::spinoff_prover]
pub proof fn lemma_extended_unit_data_service_wire_layout(m: ExtendedUnitDataServiceView)
    requires
        m.fits(),
    ensures
        m.encoding() matches Ok(b) ==> addresses_encoding(m.called_party, m.calling_party) matches Ok(
            (c, k),
        ) && {
            let called_at = 3 + b[3];
            let calling_at = 4 + b[4];
            let data_at = 5 + b[5];
            let end = data_at + 1 + m.data.len();
            &&& b[0] == 0x12
            &&& b[1] == m.return_cause.spec_value()
            &&& b[2] == m.hop_counter
            &&& called_at == 7
            &&& b[called_at] == c.len()
            &&& b.subrange(called_at + 1, called_at + 1 + c.len()) == c
            &&& calling_at == called_at + 1 + c.len()
            &&& b[calling_at] == k.len()
            &&& b.subrange(calling_at + 1, calling_at + 1 + k.len()) == k
            &&& data_at == calling_at + 1 + k.len()
            &&& b[data_at] == m.data.len()
            &&& b.subrange(data_at + 1, end) == m.data
            &&& (b[6] == 0) == (m.optional_part.len() == 0)
            &&& (m.optional_part.len() > 0 ==> 6 + b[6] == end)
            &&& b.skip(end) == m.optional_part
        },
{
    if let Ok((c, k)) = addresses_encoding(m.called_party, m.calling_party) {
        let header = seq![0x12u8, m.return_cause.spec_value(), m.hop_counter];
        lemma_extended_layout(header, c, k, m.data, m.optional_part);
    }
}

/// Decoding a ExtendedUnitDataService reads the type from octet 0, the return cause from octet 1, the hop counter from octet 2.
pub proof fn lemma_extended_unit_data_service_decoding_header(bytes: Seq<u8>)
    ensures
        extended_unit_data_service_decoding(bytes) matches Ok(m) ==> {
            &&& bytes.len() >= 3
            &&& bytes[0] == 0x12
            &&& m.return_cause.spec_value() == bytes[1]
            &&& m.hop_counter == bytes[2]
        },
{
    crate::types::lemma_return_cause_octets();
}

/// Where a LongUnitData's fields stand on the wire: the type octet 0x13, the class octet with the message handling in its high nibble and the protocol class in its low nibble,
/// the hop counter, then four two-octet pointers, least significant octet
/// first, each of which, added to the position of the octet after its own
/// first octet, gives the position of its field: the called address right
/// after the pointers, then the calling address, each after a one-octet
/// length, then the data after a two-octet length, least significant first;
/// the fourth pointer is zero exactly when there is no optional part, and
/// otherwise points at the optional part, which runs to the end right after
/// the data.
#[verifier::spinoff_prover]
#[verifier::rlimit(50)]
pub proof fn lemma_long_unit_data_wire_layout(m: LongUnitDataView)
    requires
        m.fits(),
    ensures
        m.encoding() matches Ok(b) ==> addresses_encoding(m.called_party, m.calling_party) matches Ok(
            (c, k),
        ) && {
            let called_at = 4 + le16_at(b, 3);
            let calling_at = 6 + le16_at(b, 5);
            let data_at = 8 + le16_at(b, 7);
            let end = data_at + 2 + m.data.len();
            &&& b[0] == 0x13
            &&& b[1] == (m.message_handling % 16) * 16 + m.protocol_class % 16
            &&& b[2] == m.hop_counter
            &&& le16_at(b, 3) == b[3] + 256 * b[4]
            &&& called_at == 11
            &&& b[called_at] == c.len()
            &&& b.subrange(called_at + 1, called_at + 1 + c.len()) == c
            &&& calling_at == called_at + 1 + c.len()
            &&& b[calling_at] == k.len()
            &&& b.subrange(calling_at + 1, calling_at + 1 + k.len()) == k
            &&& data_at == calling_at + 1 + k.len()
            &&& b[data_at] + 256 * b[data_at + 1] == m.data.len()
            &&& b.subrange(data_at + 2, end) == m.data
            &&& (le16_at(b, 9) == 0) == (m.optional_part.len() == 0)
            &&& (m.optional_part.len() > 0 ==> 10 + le16_at(b, 9) == end)
            &&& b.skip(end) == m.optional_part
        },
{
    if let Ok((c, k)) = addresses_encoding(m.called_party, m.calling_party) {
        let header = seq![0x13u8, nibble_pair(m.message_handling, m.protocol_class), m.hop_counter];
        lemma_nibble_pair(m.message_handling, m.protocol_class);
        lemma_long_layout(header, c, k, m.data, m.optional_part);
        let b = header + long_variable_part(c, k, m.data, m.optional_part);
        let (cl, kl, dl) = (c.len() as int, k.len() as int, m.data.len() as int);
        let po: nat = if m.optional_part.len() == 0 {
            0
        } else {
            (5 + cl + kl + dl) as nat
        };
        lemma_two_octets(b, 3, 7);
        lemma_two_octets(b, 5, (6 + cl) as nat);
        lemma_two_octets(b, 7, (5 + cl + kl) as nat);
        lemma_two_octets(b, 9, po);
        lemma_two_octets(b, 13 + cl + kl, dl as nat);
        assert(b[13 + cl + kl] == b.subrange(13 + cl + kl, 15 + cl + kl)[0]);
        assert(b[14 + cl + kl] == b.subrange(13 + cl + kl, 15 + cl + kl)[1]);
    }
}

/// Decoding a LongUnitData reads the type from octet 0, the protocol class from the low nibble and the message handling from the high nibble of octet 1, the hop counter from octet 2.
pub proof fn lemma_long_unit_data_decoding_header(bytes: Seq<u8>)
    ensures
        long_unit_data_decoding(bytes) matches Ok(m) ==> {
            &&& bytes.len() >= 3
            &&& bytes[0] == 0x13
            &&& m.protocol_class == bytes[1] % 16
            &&& m.message_handling == bytes[1] / 16
            &&& m.hop_counter == bytes[2]
        },
{
}

/// Where a LongUnitDataService's fields stand on the wire: the type octet 0x14, the return cause octet,
/// the hop counter, then four two-octet pointers, least significant octet
/// first, each of which, added to the position of the octet after its own
/// first octet, gives the position of its field: the called address right
/// after the pointers, then the calling address, each after a one-octet
/// length, then the data after a two-octet length, least significant first;
/// the fourth pointer is zero exactly when there is no optional part, and
/// otherwise points at the optional part, which runs to the end right after
/// the data.
#[verifier::spinoff_prover]
pub proof fn lemma_long_unit_data_service_wire_layout(m: LongUnitDataServiceView)
    requires
        m.fits(),
    ensures
        m.encoding() matches Ok(b) ==> addresses_encoding(m.called_party, m.calling_party) matches Ok(
            (c, k),
        ) && {
            let called_at = 4 + le16_at(b, 3);
            let calling_at = 6 + le16_at(b, 5);
            let data_at = 8 + le16_at(b, 7);
            let end = data_at + 2 + m.data.len();
            &&& b[0] == 0x14
            &&& b[1] == m.return_cause.spec_value()
            &&& b[2] == m.hop_counter
            &&& le16_at(b, 3) == b[3] + 256 * b[4]
            &&& called_at == 11
            &&& b[called_at] == c.len()
            &&& b.subrange(called_at + 1, called_at + 1 + c.len()) == c
            &&& calling_at == called_at + 1 + c.len()
            &&& b[calling_at] == k.len()
            &&& b.subrange(calling_at + 1, calling_at + 1 + k.len()) == k
            &&& data_at == calling_at + 1 + k.len()
            &&& b[data_at] + 256 * b[data_at + 1] == m.data.len()
            &&& b.subrange(data_at + 2, end) == m.data
            &&& (le16_at(b, 9) == 0) == (m.optional_part.len() == 0)
            &&& (m.optional_part.len() > 0 ==> 10 + le16_at(b, 9) == end)
            &&& b.skip(end) == m.optional_part
        },
{
    if let Ok((c, k)) = addresses_encoding(m.called_party, m.calling_party) {
        let header = seq![0x14u8, m.return_cause.spec_value(), m.hop_counter];
        lemma_long_layout(header, c, k, m.data, m.optional_part);
        let b = header + long_variable_part(c, k, m.data, m.optional_part);
        let (cl, kl, dl) = (c.len() as int, k.len() as int, m.data.len() as int);
        let po: nat = if m.optional_part.len() == 0 {
            0
        } else {
            (5 + cl + kl + dl) as nat
        };
        lemma_two_octets(b, 3, 7);
        lemma_two_octets(b, 5, (6 + cl) as nat);
        lemma_two_octets(b, 7, (5 + cl + kl) as nat);
        lemma_two_octets(b, 9, po);
        lemma_two_octets(b, 13 + cl + kl, dl as nat);
        assert(b[13 + cl + kl] == b.subrange(13 + cl + kl, 15 + cl + kl)[0]);
        assert(b[14 + cl + kl] == b.subrange(13 + cl + kl, 15 + cl + kl)[1]);
    }
}

/// Decoding a LongUnitDataService reads the type from octet 0, the return cause from octet 1, the hop counter from octet 2.
pub proof fn lemma_long_unit_data_service_decoding_header(bytes: Seq<u8>)
    ensures
        long_unit_data_service_decoding(bytes) matches Ok(m) ==> {
            &&& bytes.len() >= 3
            &&& bytes[0] == 0x14
            &&& m.return_cause.spec_value() == bytes[1]
            &&& m.hop_counter == bytes[2]
        },
{
    crate::types::lemma_return_cause_octets();
}

/// How decoding refuses what is not a UDT: a buffer under 5 octets is too
/// short, with the length it has; otherwise a first octet other than 0x09 is an
/// invalid message type.
pub proof fn lemma_unit_data_refusals(bytes: Seq<u8>)
    ensures
        bytes.len() < 5 ==> unit_data_decoding(bytes) == Err::<UnitDataView, SccpError>(
            SccpError::TooShort { expected: 5, actual: bytes.len() as usize },
        ),
        bytes.len() >= 5 && bytes[0] != 0x09 ==> unit_data_decoding(bytes) == Err::<UnitDataView, SccpError>(
            SccpError::InvalidMessageType(bytes[0]),
        ),
{
}

/// How decoding refuses what is not a UDTS: a buffer under 5 octets is too
/// short, with the length it has; otherwise a first octet other than 0x0A is an
/// invalid message type.
pub proof fn lemma_unit_data_service_refusals(bytes: Seq<u8>)
    ensures
        bytes.len() < 5 ==> unit_data_service_decoding(bytes) == Err::<UnitDataServiceView, SccpError>(
            SccpError::TooShort { expected: 5, actual: bytes.len() as usize },
        ),
        bytes.len() >= 5 && bytes[0] != 0x0A ==> unit_data_service_decoding(bytes) == Err::<UnitDataServiceView, SccpError>(
            SccpError::InvalidMessageType(bytes[0]),
        ),
{
}

/// How decoding refuses what is not a XUDT: a buffer under 7 octets is too
/// short, with the length it has; otherwise a first octet other than 0x11 is an
/// invalid message type.
pub proof fn lemma_extended_unit_data_refusals(bytes: Seq<u8>)
    ensures
        bytes.len() < 7 ==> extended_unit_data_decoding(bytes) == Err::<ExtendedUnitDataView, SccpError>(
            SccpError::TooShort { expected: 7, actual: bytes.len() as usize },
        ),
        bytes.len() >= 7 && bytes[0] != 0x11 ==> extended_unit_data_decoding(bytes) == Err::<ExtendedUnitDataView, SccpError>(
            SccpError::InvalidMessageType(bytes[0]),
        ),
{
}

/// How decoding refuses what is not a XUDTS: a buffer under 7 octets is too
/// short, with the length it has; otherwise a first octet other than 0x12 is an
/// invalid message type.
pub proof fn lemma_extended_unit_data_service_refusals(bytes: Seq<u8>)
    ensures
        bytes.len() < 7 ==> extended_unit_data_service_decoding(bytes) == Err::<ExtendedUnitDataServiceView, SccpError>(
            SccpError::TooShort { expected: 7, actual: bytes.len() as usize },
        ),
        bytes.len() >= 7 && bytes[0] != 0x12 ==> extended_unit_data_service_decoding(bytes) == Err::<ExtendedUnitDataServiceView, SccpError>(
            SccpError::InvalidMessageType(bytes[0]),
        ),
{
}

/// How decoding refuses what is not an LUDT: an empty buffer is too short by
/// one octet; a first octet other than 0x13 is an invalid message type; an
/// LUDT of fewer than eleven octets (header and pointers) is too short.
pub proof fn lemma_long_unit_data_refusals(bytes: Seq<u8>)
    ensures
        bytes.len() < 1 ==> long_unit_data_decoding(bytes) == Err::<LongUnitDataView, SccpError>(
            SccpError::TooShort { expected: 1, actual: bytes.len() as usize },
        ),
        bytes.len() >= 1 && bytes[0] != 0x13 ==> long_unit_data_decoding(bytes) == Err::<LongUnitDataView, SccpError>(
            SccpError::InvalidMessageType(bytes[0]),
        ),
        bytes.len() >= 1 && bytes.len() < 11 && bytes[0] == 0x13 ==> long_unit_data_decoding(bytes) == Err::<LongUnitDataView, SccpError>(
            SccpError::TooShort { expected: 11, actual: bytes.len() as usize },
        ),
{
}

/// How decoding refuses what is not an LUDTS: an empty buffer is too short by
/// one octet; a first octet other than 0x14 is an invalid message type; an
/// LUDTS of fewer than eleven octets (header and pointers) is too short.
pub proof fn lemma_long_unit_data_service_refusals(bytes: Seq<u8>)
    ensures
        bytes.len() < 1 ==> long_unit_data_service_decoding(bytes) == Err::<LongUnitDataServiceView, SccpError>(
            SccpError::TooShort { expected: 1, actual: bytes.len() as usize },
        ),
        bytes.len() >= 1 && bytes[0] != 0x14 ==> long_unit_data_service_decoding(bytes) == Err::<LongUnitDataServiceView, SccpError>(
            SccpError::InvalidMessageType(bytes[0]),
        ),
        bytes.len() >= 1 && bytes.len() < 11 && bytes[0] == 0x14 ==> long_unit_data_service_decoding(bytes) == Err::<LongUnitDataServiceView, SccpError>(
            SccpError::TooShort { expected: 11, actual: bytes.len() as usize },
        ),
{
}

/// How the dispatching decode refuses: an empty buffer is too short by one
/// octet, and a first octet that is not UDT, UDTS, XUDT, XUDTS, LUDT or LUDTS
/// (0x09, 0x0A, 0x11–0x14) is an invalid message type, whatever follows.
pub proof fn lemma_message_refusals(bytes: Seq<u8>)
    ensures
        bytes.len() == 0 ==> message_decoding(bytes) == Err::<SccpMessageView, SccpError>(
            SccpError::TooShort { expected: 1, actual: 0 },
        ),
        bytes.len() > 0 && !(bytes[0] == 0x09 || bytes[0] == 0x0A || 0x11 <= bytes[0] <= 0x14)
            ==> message_decoding(bytes) == Err::<SccpMessageView, SccpError>(
            SccpError::InvalidMessageType(bytes[0]),
        ),
        message_decoding(bytes) matches Ok(m) ==> bytes[0] == m.message_type().spec_value(),
{
    crate::types::lemma_message_type_octets();
}

/// New extended and long messages start with a hop counter of 15.
pub proof fn lemma_default_hop_counter()
    ensures
        DEFAULT_HOP_COUNTER == 15,
{
}


/// Encoding a message fails exactly when encoding one of its addresses
/// fails: with the called address's error when it has one, else with the
/// calling address's error.
#[verifier::spinoff_prover]
pub proof fn lemma_message_encoding_refusals(m: SccpMessageView)
    ensures
        m.encoding() is Err <==> (m.called_party().encoding() is Err || m.calling_party().encoding() is Err),
        m.called_party().encoding() matches Err(e) ==> m.encoding() == Err::<Seq<u8>, SccpError>(e),
        m.called_party().encoding() is Ok ==> (m.calling_party().encoding() matches Err(e) ==> m.encoding()
            == Err::<Seq<u8>, SccpError>(e)),
{
}


/// Only the extended and long messages carry a hop counter, and the one a
/// message reports is the third octet of its encoding.
#[verifier::spinoff_prover]
pub proof fn lemma_message_hop_counter(m: SccpMessageView)
    ensures
        m.hop_counter() is None <==> (m.message_type() == MessageType::Udt || m.message_type()
            == MessageType::Udts),
        m.encoding() matches Ok(b) ==> (m.hop_counter() matches Some(h) ==> b.len() > 2 && b[2]
            == h),
{
}

} // verus!
