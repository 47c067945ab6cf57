//! Global Title (GT) types: the [`GtIndicator`] field and the five
//! [`GlobalTitle`] formats, with TBCD-coded digits.

use vstd::prelude::*;
use vstd::utf8::encode_utf8;

use crate::bcd::{
    self, canonical_digits, is_tbcd_digit_string, lemma_tbcd_round_trip, tbcd_digits,
    tbcd_encoding,
};
use crate::error::{view_result, SccpError};
use crate::octets::{append_bytes, lemma_nibble_pair, make_nibble_pair, nibble_pair};
use crate::text::{decimal, push_decimal, push_str};

verus! {

/// Global Title Indicator values (bits 2-5 of Address Indicator).
#[derive(Debug, Clone, Copy, PartialEq, Eq, Structural)]
pub enum GtIndicator {
    /// No Global Title included.
    NoGt,
    /// GT includes Nature of Address only.
    Gt0001,
    /// GT includes Translation Type only.
    Gt0010,
    /// GT includes Translation Type, Numbering Plan, Encoding Scheme.
    Gt0011,
    /// GT includes Translation Type, Numbering Plan, Encoding Scheme, Nature of Address.
    Gt0100,
}

impl GtIndicator {
    /// The 4-bit field value of this indicator.
    pub open spec fn spec_value(&self) -> u8 {
        match self {
            Self::NoGt => 0,
            Self::Gt0001 => 1,
            Self::Gt0010 => 2,
            Self::Gt0011 => 3,
            Self::Gt0100 => 4,
        }
    }

    /// The 4-bit field value of this indicator.
    #[verifier::when_used_as_spec(spec_value)]
    pub fn value(&self) -> (v: u8)
        ensures
            v == self.spec_value(),
    {
        match self {
            Self::NoGt => 0,
            Self::Gt0001 => 1,
            Self::Gt0010 => 2,
            Self::Gt0011 => 3,
            Self::Gt0100 => 4,
        }
    }

    /// The indicator that a 4-bit field value stands for, or the error for a value above 4.
    pub open spec fn spec_from_u8(value: u8) -> Result<Self, SccpError> {
        match value {
            0 => Ok(Self::NoGt),
            1 => Ok(Self::Gt0001),
            2 => Ok(Self::Gt0010),
            3 => Ok(Self::Gt0011),
            4 => Ok(Self::Gt0100),
            other => Err(SccpError::InvalidGtIndicator(other)),
        }
    }

    /// Map the 4-bit GT-indicator field to a [`GtIndicator`], or error on a value above 4.
    #[verifier::when_used_as_spec(spec_from_u8)]
    pub fn from_u8(value: u8) -> (r: Result<Self, SccpError>)
        ensures
            r == Self::spec_from_u8(value),
            r is Ok <==> value <= 4,
            r matches Ok(g) ==> g.value() == value,
            r matches Err(e) ==> e == SccpError::InvalidGtIndicator(value),
    {
        match value {
            0 => Ok(Self::NoGt),
            1 => Ok(Self::Gt0001),
            2 => Ok(Self::Gt0010),
            3 => Ok(Self::Gt0011),
            4 => Ok(Self::Gt0100),
            other => Err(SccpError::InvalidGtIndicator(other)),
        }
    }
}

/// Global Title variants.
#[derive(Debug, Clone, PartialEq, Eq)]
pub enum GlobalTitle {
    /// No Global Title.
    NoTitle,
    /// GT format 0001: Nature of Address Indicator + digits.
    Gt0001 {
        /// Nature of Address Indicator (7 bits).
        nature_of_address: u8,
        /// Odd/even indicator for the digit count.
        odd_even: bool,
        /// Address digits (decoded from TBCD).
        digits: String,
    },
    /// GT format 0010: Translation Type + digits.
    Gt0010 {
        /// Translation type.
        translation_type: u8,
        /// Address digits (decoded from TBCD).
        digits: String,
    },
    /// GT format 0011: Translation Type + Numbering Plan + Encoding Scheme + digits.
    Gt0011 {
        /// Translation type.
        translation_type: u8,
        /// Numbering plan (4 bits).
        numbering_plan: u8,
        /// Encoding scheme (4 bits).
        encoding_scheme: u8,
        /// Address digits (decoded from TBCD).
        digits: String,
    },
    /// GT format 0100: Translation Type + Numbering Plan + Encoding Scheme + Nature of Address + digits.
    Gt0100 {
        /// Translation type.
        translation_type: u8,
        /// Numbering plan (4 bits).
        numbering_plan: u8,
        /// Encoding scheme (4 bits).
        encoding_scheme: u8,
        /// Nature of Address Indicator (7 bits).
        nature_of_address: u8,
        /// Address digits (decoded from TBCD).
        digits: String,
    },
}

/// The mathematical model of a [`GlobalTitle`]: the same fields, with the
/// digits as a sequence of characters.
pub enum GlobalTitleView {
    /// No Global Title.
    NoTitle,
    /// GT format 0001.
    Gt0001 { nature_of_address: u8, odd_even: bool, digits: Seq<char> },
    /// GT format 0010.
    Gt0010 { translation_type: u8, digits: Seq<char> },
    /// GT format 0011.
    Gt0011 { translation_type: u8, numbering_plan: u8, encoding_scheme: u8, digits: Seq<char> },
    /// GT format 0100.
    Gt0100 {
        translation_type: u8,
        numbering_plan: u8,
        encoding_scheme: u8,
        nature_of_address: u8,
        digits: Seq<char>,
    },
}

impl View for GlobalTitle {
    type V = GlobalTitleView;

    open spec fn view(&self) -> GlobalTitleView {
        match self {
            GlobalTitle::NoTitle => GlobalTitleView::NoTitle,
            GlobalTitle::Gt0001 { nature_of_address, odd_even, digits } => GlobalTitleView::Gt0001 {
                nature_of_address: *nature_of_address,
                odd_even: *odd_even,
                digits: digits@,
            },
            GlobalTitle::Gt0010 { translation_type, digits } => GlobalTitleView::Gt0010 {
                translation_type: *translation_type,
                digits: digits@,
            },
            GlobalTitle::Gt0011 { translation_type, numbering_plan, encoding_scheme, digits } =>
                GlobalTitleView::Gt0011 {
                translation_type: *translation_type,
                numbering_plan: *numbering_plan,
                encoding_scheme: *encoding_scheme,
                digits: digits@,
            },
            GlobalTitle::Gt0100 {
                translation_type,
                numbering_plan,
                encoding_scheme,
                nature_of_address,
                digits,
            } => GlobalTitleView::Gt0100 {
                translation_type: *translation_type,
                numbering_plan: *numbering_plan,
                encoding_scheme: *encoding_scheme,
                nature_of_address: *nature_of_address,
                digits: digits@,
            },
        }
    }
}

impl GlobalTitleView {
    /// The indicator of this Global Title's format.
    pub open spec fn indicator(self) -> GtIndicator {
        match self {
            GlobalTitleView::NoTitle => GtIndicator::NoGt,
            GlobalTitleView::Gt0001 { .. } => GtIndicator::Gt0001,
            GlobalTitleView::Gt0010 { .. } => GtIndicator::Gt0010,
            GlobalTitleView::Gt0011 { .. } => GtIndicator::Gt0011,
            GlobalTitleView::Gt0100 { .. } => GtIndicator::Gt0100,
        }
    }

    /// The digits, empty for no title.
    pub open spec fn digits(self) -> Seq<char> {
        match self {
            GlobalTitleView::NoTitle => Seq::empty(),
            GlobalTitleView::Gt0001 { digits, .. } => digits,
            GlobalTitleView::Gt0010 { digits, .. } => digits,
            GlobalTitleView::Gt0011 { digits, .. } => digits,
            GlobalTitleView::Gt0100 { digits, .. } => digits,
        }
    }

    /// The fixed header octets that precede the digits on the wire.
    pub open spec fn header(self) -> Seq<u8> {
        match self {
            GlobalTitleView::NoTitle => Seq::empty(),
            GlobalTitleView::Gt0001 { nature_of_address, odd_even, .. } => seq![
                ((if odd_even {
                    0x80u8
                } else {
                    0u8
                }) + nature_of_address % 128) as u8,
            ],
            GlobalTitleView::Gt0010 { translation_type, .. } => seq![translation_type],
            GlobalTitleView::Gt0011 { translation_type, numbering_plan, encoding_scheme, .. } =>
                seq![translation_type, nibble_pair(numbering_plan, encoding_scheme)],
            GlobalTitleView::Gt0100 {
                translation_type,
                numbering_plan,
                encoding_scheme,
                nature_of_address,
                ..
            } => seq![
                translation_type,
                nibble_pair(numbering_plan, encoding_scheme),
                nature_of_address % 128,
            ],
        }
    }

    /// The wire encoding: the header followed by the TBCD digits, or the
    /// error for the first digit outside the TBCD alphabet.
    pub open spec fn encoding(self) -> Result<Seq<u8>, SccpError> {
        if self is NoTitle {
            Ok(Seq::empty())
        } else {
            match tbcd_encoding(encode_utf8(self.digits())) {
                Ok(t) => Ok(self.header() + t),
                Err(e) => Err(e),
            }
        }
    }

    /// What a decode of this Global Title's encoding gives back: fields cut
    /// to the bits that the wire carries, and digits in canonical case.
    pub open spec fn normalized(self) -> GlobalTitleView {
        match self {
            GlobalTitleView::NoTitle => GlobalTitleView::NoTitle,
            GlobalTitleView::Gt0001 { nature_of_address, odd_even, digits } =>
                GlobalTitleView::Gt0001 {
                nature_of_address: nature_of_address % 128,
                odd_even,
                digits: canonical_digits(digits),
            },
            GlobalTitleView::Gt0010 { translation_type, digits } => GlobalTitleView::Gt0010 {
                translation_type,
                digits: canonical_digits(digits),
            },
            GlobalTitleView::Gt0011 { translation_type, numbering_plan, encoding_scheme, digits } =>
                GlobalTitleView::Gt0011 {
                translation_type,
                numbering_plan: numbering_plan % 16,
                encoding_scheme: encoding_scheme % 16,
                digits: canonical_digits(digits),
            },
            GlobalTitleView::Gt0100 {
                translation_type,
                numbering_plan,
                encoding_scheme,
                nature_of_address,
                digits,
            } => GlobalTitleView::Gt0100 {
                translation_type,
                numbering_plan: numbering_plan % 16,
                encoding_scheme: encoding_scheme % 16,
                nature_of_address: nature_of_address % 128,
                digits: canonical_digits(digits),
            },
        }
    }
}

/// The Global Title that `bytes` encode in the format `gti`, or the error for
/// bytes too short to hold that format's header.
pub open spec fn gt_decoding(bytes: Seq<u8>, gti: GtIndicator) -> Result<GlobalTitleView, SccpError> {
    match gti {
        GtIndicator::NoGt => Ok(GlobalTitleView::NoTitle),
        GtIndicator::Gt0001 => if bytes.len() < 1 {
            Err(SccpError::TooShort { expected: 1, actual: 0 })
        } else {
            Ok(
                GlobalTitleView::Gt0001 {
                    nature_of_address: bytes[0] % 128,
                    odd_even: bytes[0] >= 128,
                    digits: tbcd_digits(bytes.skip(1)),
                },
            )
        },
        GtIndicator::Gt0010 => if bytes.len() < 1 {
            Err(SccpError::TooShort { expected: 1, actual: 0 })
        } else {
            Ok(
                GlobalTitleView::Gt0010 {
                    translation_type: bytes[0],
                    digits: tbcd_digits(bytes.skip(1)),
                },
            )
        },
        GtIndicator::Gt0011 => if bytes.len() < 2 {
            Err(SccpError::TooShort { expected: 2, actual: bytes.len() as usize })
        } else {
            Ok(
                GlobalTitleView::Gt0011 {
                    translation_type: bytes[0],
                    numbering_plan: bytes[1] / 16,
                    encoding_scheme: bytes[1] % 16,
                    digits: tbcd_digits(bytes.skip(2)),
                },
            )
        },
        GtIndicator::Gt0100 => if bytes.len() < 3 {
            Err(SccpError::TooShort { expected: 3, actual: bytes.len() as usize })
        } else {
            Ok(
                GlobalTitleView::Gt0100 {
                    translation_type: bytes[0],
                    numbering_plan: bytes[1] / 16,
                    encoding_scheme: bytes[1] % 16,
                    nature_of_address: bytes[2] % 128,
                    digits: tbcd_digits(bytes.skip(3)),
                },
            )
        },
    }
}

impl GlobalTitle {
    /// The [`GtIndicator`] corresponding to this Global Title variant.
    pub fn indicator(&self) -> (g: GtIndicator)
        ensures
            g == self@.indicator(),
    {
        match self {
            Self::NoTitle => GtIndicator::NoGt,
            Self::Gt0001 { .. } => GtIndicator::Gt0001,
            Self::Gt0010 { .. } => GtIndicator::Gt0010,
            Self::Gt0011 { .. } => GtIndicator::Gt0011,
            Self::Gt0100 { .. } => GtIndicator::Gt0100,
        }
    }

    /// The decoded address digits, or `None` for [`GlobalTitle::NoTitle`].
    pub fn digits(&self) -> (r: Option<&str>)
        ensures
            r is None <==> self@ is NoTitle,
            r matches Some(d) ==> d@ == self@.digits(),
    {
        match self {
            Self::NoTitle => None,
            Self::Gt0001 { digits, .. } => Some(digits.as_str()),
            Self::Gt0010 { digits, .. } => Some(digits.as_str()),
            Self::Gt0011 { digits, .. } => Some(digits.as_str()),
            Self::Gt0100 { digits, .. } => Some(digits.as_str()),
        }
    }

    /// Decode a Global Title from bytes given the GT indicator.
    pub fn decode(bytes: &[u8], gti: GtIndicator) -> (res: Result<Self, SccpError>)
        ensures
            view_result(res) == gt_decoding(bytes@, gti),
    {
        match gti {
            GtIndicator::NoGt => Ok(Self::NoTitle),
            GtIndicator::Gt0001 => {
                if bytes.len() < 1 {
                    return Err(SccpError::TooShort { expected: 1, actual: 0 });
                }
                let odd_even = bytes[0] >= 0x80;
                let nature_of_address = bytes[0] % 128;
                let digits = bcd::decode_tbcd(vstd::slice::slice_subrange(bytes, 1, bytes.len()));
                assert(bytes@.subrange(1, bytes@.len() as int) =~= bytes@.skip(1));
                Ok(Self::Gt0001 { nature_of_address, odd_even, digits })
            },
            GtIndicator::Gt0010 => {
                if bytes.len() < 1 {
                    return Err(SccpError::TooShort { expected: 1, actual: 0 });
                }
                let translation_type = bytes[0];
                let digits = bcd::decode_tbcd(vstd::slice::slice_subrange(bytes, 1, bytes.len()));
                assert(bytes@.subrange(1, bytes@.len() as int) =~= bytes@.skip(1));
                Ok(Self::Gt0010 { translation_type, digits })
            },
            GtIndicator::Gt0011 => {
                if bytes.len() < 2 {
                    return Err(SccpError::TooShort { expected: 2, actual: bytes.len() });
                }
                let translation_type = bytes[0];
                let numbering_plan = bytes[1] / 16;
                let encoding_scheme = bytes[1] % 16;
                let digits = bcd::decode_tbcd(vstd::slice::slice_subrange(bytes, 2, bytes.len()));
                assert(bytes@.subrange(2, bytes@.len() as int) =~= bytes@.skip(2));
                Ok(Self::Gt0011 { translation_type, numbering_plan, encoding_scheme, digits })
            },
            GtIndicator::Gt0100 => {
                if bytes.len() < 3 {
                    return Err(SccpError::TooShort { expected: 3, actual: bytes.len() });
                }
                let translation_type = bytes[0];
                let numbering_plan = bytes[1] / 16;
                let encoding_scheme = bytes[1] % 16;
                let nature_of_address = bytes[2] % 128;
                let digits = bcd::decode_tbcd(vstd::slice::slice_subrange(bytes, 3, bytes.len()));
                assert(bytes@.subrange(3, bytes@.len() as int) =~= bytes@.skip(3));
                Ok(
                    Self::Gt0100 {
                        translation_type,
                        numbering_plan,
                        encoding_scheme,
                        nature_of_address,
                        digits,
                    },
                )
            },
        }
    }

    /// Encode a Global Title to bytes.
    pub fn encode(&self) -> (res: Result<Vec<u8>, SccpError>)
        ensures
            view_result(res) == self@.encoding(),
    {
        let (mut buf, digits) = match self {
            Self::NoTitle => {
                return Ok(Vec::new());
            },
            Self::Gt0001 { nature_of_address, odd_even, digits } => {
                let flag: u8 = if *odd_even {
                    0x80
                } else {
                    0x00
                };
                (vec![flag + nature_of_address % 128], digits)
            },
            Self::Gt0010 { translation_type, digits } => (vec![*translation_type], digits),
            Self::Gt0011 { translation_type, numbering_plan, encoding_scheme, digits } => (
                vec![*translation_type, make_nibble_pair(*numbering_plan, *encoding_scheme)],
                digits,
            ),
            Self::Gt0100 {
                translation_type,
                numbering_plan,
                encoding_scheme,
                nature_of_address,
                digits,
            } => (
                vec![
                    *translation_type,
                    make_nibble_pair(*numbering_plan, *encoding_scheme),
                    nature_of_address % 128,
                ],
                digits,
            ),
        };
        assert(buf@ =~= self@.header());
        assert(digits@ == self@.digits());
        match bcd::encode_tbcd(digits.as_str()) {
            Ok(tbcd) => {
                append_bytes(&mut buf, tbcd.as_slice());
                Ok(buf)
            },
            Err(e) => Err(e),
        }
    }
}

impl GlobalTitleView {
    /// A one-line rendering, such as `GT0100 [tt=0, np=1, noa=4, digits=15551234567]`.
    pub open spec fn text(self) -> Seq<char> {
        match self {
            GlobalTitleView::NoTitle => "NoGT"@,
            GlobalTitleView::Gt0001 { nature_of_address, digits, .. } => "GT0001 [noa="@ + decimal(
                nature_of_address as nat,
            ) + ", digits="@ + digits + "]"@,
            GlobalTitleView::Gt0010 { translation_type, digits } => "GT0010 [tt="@ + decimal(
                translation_type as nat,
            ) + ", digits="@ + digits + "]"@,
            GlobalTitleView::Gt0011 { translation_type, numbering_plan, digits, .. } => "GT0011 [tt="@
                + decimal(translation_type as nat) + ", np="@ + decimal(numbering_plan as nat)
                + ", digits="@ + digits + "]"@,
            GlobalTitleView::Gt0100 { translation_type, numbering_plan, nature_of_address, digits, .. } =>
                "GT0100 [tt="@ + decimal(translation_type as nat) + ", np="@ + decimal(
                numbering_plan as nat,
            ) + ", noa="@ + decimal(nature_of_address as nat) + ", digits="@ + digits + "]"@,
        }
    }
}

impl GlobalTitle {
    /// A one-line rendering, such as `GT0100 [tt=0, np=1, noa=4, digits=15551234567]`.
    pub fn to_text(&self) -> (s: String)
        ensures
            s@ == self@.text(),
    {
        let mut s = String::new();
        match self {
            Self::NoTitle => push_str(&mut s, "NoGT"),
            Self::Gt0001 { nature_of_address, digits, .. } => {
                push_str(&mut s, "GT0001 [noa=");
                push_decimal(&mut s, *nature_of_address as u64);
                push_str(&mut s, ", digits=");
                push_str(&mut s, digits.as_str());
                push_str(&mut s, "]");
            },
            Self::Gt0010 { translation_type, digits } => {
                push_str(&mut s, "GT0010 [tt=");
                push_decimal(&mut s, *translation_type as u64);
                push_str(&mut s, ", digits=");
                push_str(&mut s, digits.as_str());
                push_str(&mut s, "]");
            },
            Self::Gt0011 { translation_type, numbering_plan, digits, .. } => {
                push_str(&mut s, "GT0011 [tt=");
                push_decimal(&mut s, *translation_type as u64);
                push_str(&mut s, ", np=");
                push_decimal(&mut s, *numbering_plan as u64);
                push_str(&mut s, ", digits=");
                push_str(&mut s, digits.as_str());
                push_str(&mut s, "]");
            },
            Self::Gt0100 { translation_type, numbering_plan, nature_of_address, digits, .. } => {
                push_str(&mut s, "GT0100 [tt=");
                push_decimal(&mut s, *translation_type as u64);
                push_str(&mut s, ", np=");
                push_decimal(&mut s, *numbering_plan as u64);
                push_str(&mut s, ", noa=");
                push_decimal(&mut s, *nature_of_address as u64);
                push_str(&mut s, ", digits=");
                push_str(&mut s, digits.as_str());
                push_str(&mut s, "]");
            },
        }
        s
    }
}

/// Decoding what `encode` produced, in the format of the title's own
/// indicator, gives the title back with its fields cut to the bits the wire
/// carries and its digits in canonical case; encoding succeeds exactly when
/// there is no title or every digit is in the TBCD alphabet.
pub proof fn lemma_gt_round_trip(gt: GlobalTitleView)
    ensures
        gt.encoding() is Ok <==> (gt is NoTitle || is_tbcd_digit_string(gt.digits())),
        gt.encoding() matches Ok(b) ==> gt_decoding(b, gt.indicator()) == Ok::<GlobalTitleView, SccpError>(gt.normalized()),
{
    lemma_tbcd_round_trip(gt.digits());
    if let Ok(b) = gt.encoding() {
        if !(gt is NoTitle) {
            let t = tbcd_encoding(encode_utf8(gt.digits()))->Ok_0;
            let h = gt.header();
            assert(b.skip(h.len() as int) =~= t);
            match gt {
                GlobalTitleView::Gt0011 { numbering_plan: np, encoding_scheme: es, .. } => {
                    lemma_nibble_pair(np, es);
                },
                GlobalTitleView::Gt0100 { numbering_plan: np, encoding_scheme: es, .. } => {
                    lemma_nibble_pair(np, es);
                },
                _ => {},
            }
        }
    }
}

/// A Global Title decoded in the format of an indicator has that indicator.
pub proof fn lemma_gt_decoding_indicator(bytes: Seq<u8>, gti: GtIndicator)
    ensures
        gt_decoding(bytes, gti) matches Ok(gt) ==> gt.indicator() == gti,
{
}

/// The Global Title Indicator field: no title 0, GT0001 1, GT0010 2, GT0011
/// 3, GT0100 4; values above 4 are refused with `InvalidGtIndicator`. Each
/// format of Global Title is announced by the value of its own name.
pub proof fn lemma_gt_indicator_values()
    ensures
        forall|gt: GlobalTitleView| #[trigger] gt.indicator().spec_value() == match gt {
            GlobalTitleView::NoTitle => 0u8,
            GlobalTitleView::Gt0001 { .. } => 1u8,
            GlobalTitleView::Gt0010 { .. } => 2u8,
            GlobalTitleView::Gt0011 { .. } => 3u8,
            GlobalTitleView::Gt0100 { .. } => 4u8,
        },
        GtIndicator::NoGt.spec_value() == 0,
        GtIndicator::Gt0001.spec_value() == 1,
        GtIndicator::Gt0010.spec_value() == 2,
        GtIndicator::Gt0011.spec_value() == 3,
        GtIndicator::Gt0100.spec_value() == 4,
        GtIndicator::spec_from_u8(0) == Ok::<GtIndicator, SccpError>(GtIndicator::NoGt),
        GtIndicator::spec_from_u8(1) == Ok::<GtIndicator, SccpError>(GtIndicator::Gt0001),
        GtIndicator::spec_from_u8(2) == Ok::<GtIndicator, SccpError>(GtIndicator::Gt0010),
        GtIndicator::spec_from_u8(3) == Ok::<GtIndicator, SccpError>(GtIndicator::Gt0011),
        GtIndicator::spec_from_u8(4) == Ok::<GtIndicator, SccpError>(GtIndicator::Gt0100),
        forall|v: u8| v > 4 ==> GtIndicator::spec_from_u8(v) == Err::<GtIndicator, SccpError>(
            SccpError::InvalidGtIndicator(v),
        ),
{
}

/// Where a Global Title's fields stand on the wire: GT0001 puts the odd/even
/// indicator in the top bit of its first octet and the nature of address in
/// the low seven; GT0010 starts with the translation type; GT0011 with the
/// translation type, then the numbering plan in the high nibble and the
/// encoding scheme in the low nibble of the next octet; GT0100 as GT0011, then
/// the nature of address in the low seven bits. The TBCD digits follow.
pub proof fn lemma_gt_wire_layout(gt: GlobalTitleView)
    ensures
        gt.encoding() matches Ok(b) ==> (match gt {
            GlobalTitleView::NoTitle => b.len() == 0,
            GlobalTitleView::Gt0001 { nature_of_address: noa, odd_even, digits } => {
                &&& b.len() >= 1
                &&& b[0] == (if odd_even {
                    128int
                } else {
                    0int
                }) + noa % 128
                &&& tbcd_encoding(encode_utf8(digits)) == Ok::<Seq<u8>, SccpError>(b.skip(1))
            },
            GlobalTitleView::Gt0010 { translation_type: tt, digits } => {
                &&& b.len() >= 1
                &&& b[0] == tt
                &&& tbcd_encoding(encode_utf8(digits)) == Ok::<Seq<u8>, SccpError>(b.skip(1))
            },
            GlobalTitleView::Gt0011 {
                translation_type: tt,
                numbering_plan: np,
                encoding_scheme: es,
                digits,
            } => {
                &&& b.len() >= 2
                &&& b[0] == tt
                &&& b[1] == (np % 16) * 16 + es % 16
                &&& tbcd_encoding(encode_utf8(digits)) == Ok::<Seq<u8>, SccpError>(b.skip(2))
            },
            GlobalTitleView::Gt0100 {
                translation_type: tt,
                numbering_plan: np,
                encoding_scheme: es,
                nature_of_address: noa,
                digits,
            } => {
                &&& b.len() >= 3
                &&& b[0] == tt
                &&& b[1] == (np % 16) * 16 + es % 16
                &&& b[2] == noa % 128
                &&& tbcd_encoding(encode_utf8(digits)) == Ok::<Seq<u8>, SccpError>(b.skip(3))
            },
        }),
{
    if let Ok(b) = gt.encoding() {
        if !(gt is NoTitle) {
            let t = tbcd_encoding(encode_utf8(gt.digits()))->Ok_0;
            assert(b.skip(gt.header().len() as int) =~= t);
            match gt {
                GlobalTitleView::Gt0011 { numbering_plan: np, encoding_scheme: es, .. } => {
                    lemma_nibble_pair(np, es);
                },
                GlobalTitleView::Gt0100 { numbering_plan: np, encoding_scheme: es, .. } => {
                    lemma_nibble_pair(np, es);
                },
                _ => {},
            }
        }
    }
}

/// Decoding reads each field from where the layout puts it: the numbering
/// plan from the high nibble and the encoding scheme from the low nibble of
/// the octet after the translation type, the nature of address from the low
/// seven bits, the odd/even indicator from the top bit, and the digits from
/// the octets after the header.
pub proof fn lemma_gt_decoding_fields(bytes: Seq<u8>, gti: GtIndicator)
    ensures
        gt_decoding(bytes, gti) matches Ok(gt) ==> (match gt {
            GlobalTitleView::NoTitle => gti == GtIndicator::NoGt,
            GlobalTitleView::Gt0001 { nature_of_address: noa, odd_even, digits } => {
                &&& noa == bytes[0] % 128
                &&& odd_even == (bytes[0] >= 128)
                &&& digits == tbcd_digits(bytes.skip(1))
            },
            GlobalTitleView::Gt0010 { translation_type: tt, digits } => {
                &&& tt == bytes[0]
                &&& digits == tbcd_digits(bytes.skip(1))
            },
            GlobalTitleView::Gt0011 {
                translation_type: tt,
                numbering_plan: np,
                encoding_scheme: es,
                digits,
            } => {
                &&& tt == bytes[0]
                &&& np == bytes[1] / 16
                &&& es == bytes[1] % 16
                &&& digits == tbcd_digits(bytes.skip(2))
            },
            GlobalTitleView::Gt0100 {
                translation_type: tt,
                numbering_plan: np,
                encoding_scheme: es,
                nature_of_address: noa,
                digits,
            } => {
                &&& tt == bytes[0]
                &&& np == bytes[1] / 16
                &&& es == bytes[1] % 16
                &&& noa == bytes[2] % 128
                &&& digits == tbcd_digits(bytes.skip(3))
            },
        }),
{
}

/// How decoding refuses a Global Title: each format needs its header octets
/// (one for GT0001 and GT0010, two for GT0011, three for GT0100) and reports
/// the shortfall with the length it has; no title reads nothing and never fails.
pub proof fn lemma_gt_refusals(bytes: Seq<u8>)
    ensures
        gt_decoding(bytes, GtIndicator::NoGt) == Ok::<GlobalTitleView, SccpError>(
            GlobalTitleView::NoTitle,
        ),
        bytes.len() < 1 ==> gt_decoding(bytes, GtIndicator::Gt0001) == Err::<
            GlobalTitleView,
            SccpError,
        >(SccpError::TooShort { expected: 1, actual: 0 }),
        bytes.len() < 1 ==> gt_decoding(bytes, GtIndicator::Gt0010) == Err::<
            GlobalTitleView,
            SccpError,
        >(SccpError::TooShort { expected: 1, actual: 0 }),
        bytes.len() < 2 ==> gt_decoding(bytes, GtIndicator::Gt0011) == Err::<
            GlobalTitleView,
            SccpError,
        >(SccpError::TooShort { expected: 2, actual: bytes.len() as usize }),
        bytes.len() < 3 ==> gt_decoding(bytes, GtIndicator::Gt0100) == Err::<
            GlobalTitleView,
            SccpError,
        >(SccpError::TooShort { expected: 3, actual: bytes.len() as usize }),
        bytes.len() >= 1 ==> gt_decoding(bytes, GtIndicator::Gt0001) is Ok && gt_decoding(
            bytes,
            GtIndicator::Gt0010,
        ) is Ok,
        bytes.len() >= 2 ==> gt_decoding(bytes, GtIndicator::Gt0011) is Ok,
        bytes.len() >= 3 ==> gt_decoding(bytes, GtIndicator::Gt0100) is Ok,
{
}


/// Encoding a Global Title fails exactly when its digits hold a character
/// outside the TBCD alphabet, with the error for the first of them; no title
/// encodes to nothing.
pub proof fn lemma_gt_encoding_refusals(gt: GlobalTitleView)
    ensures
        gt is NoTitle ==> gt.encoding() == Ok::<Seq<u8>, SccpError>(Seq::empty()),
        !(gt is NoTitle) ==> (gt.encoding() is Err <==> tbcd_encoding(encode_utf8(gt.digits())) is Err),
        gt.encoding() matches Err(e) ==> tbcd_encoding(encode_utf8(gt.digits())) == Err::<
            Seq<u8>,
            SccpError,
        >(e),
{
}

} // verus!
