//! SCCP Called/Calling Party Address (ITU-T Q.713 §3.4).

use vstd::prelude::*;

use crate::error::{view_result, SccpError};
use crate::global_title::{gt_decoding, lemma_gt_round_trip, GlobalTitle, GlobalTitleView, GtIndicator};
use crate::octets::{append_bytes};
use crate::text::{decimal, push_decimal, push_str};
use crate::types::SubsystemNumber;

verus! {

/// SCCP Address — Called/Calling Party Address.
///
/// Address Indicator byte layout:
/// ```ignore
/// Bit 0:   Point Code Indicator (1 = PC present)
/// Bit 1:   SSN Indicator (1 = SSN present)
/// Bits 2-5: Global Title Indicator (0-4)
/// Bit 6:   Routing Indicator (0 = route on GT, 1 = route on SSN)
/// Bit 7:   Reserved (national use)
/// ```
#[derive(Debug, Clone, PartialEq, Eq)]
pub struct SccpAddress {
    /// Route on GT (false) or SSN (true).
    pub route_on_ssn: bool,
    /// Optional point code (ITU: 2 bytes LE).
    pub point_code: Option<u16>,
    /// Optional Subsystem Number.
    pub ssn: Option<SubsystemNumber>,
    /// Global Title.
    pub global_title: GlobalTitle,
}

/// The mathematical model of an [`SccpAddress`].
pub struct SccpAddressView {
    /// Route on GT (false) or SSN (true).
    pub route_on_ssn: bool,
    /// Optional point code.
    pub point_code: Option<u16>,
    /// Optional Subsystem Number.
    pub ssn: Option<SubsystemNumber>,
    /// Global Title.
    pub global_title: GlobalTitleView,
}

impl View for SccpAddress {
    type V = SccpAddressView;

    open spec fn view(&self) -> SccpAddressView {
        SccpAddressView {
            route_on_ssn: self.route_on_ssn,
            point_code: self.point_code,
            ssn: self.ssn,
            global_title: self.global_title@,
        }
    }
}

/// The two octets of a point code, least significant first.
pub open spec fn le16(v: u16) -> Seq<u8> {
    seq![(v % 256) as u8, (v / 256) as u8]
}

/// The point code that two octets, least significant first, stand for.
pub open spec fn from_le16(lo: u8, hi: u8) -> u16 {
    (lo + 256 * hi) as u16
}

impl SccpAddressView {
    /// The Address Indicator octet.
    pub open spec fn indicator_octet(self) -> u8 {
        ((if self.point_code is Some {
            1int
        } else {
            0
        }) + (if self.ssn is Some {
            2int
        } else {
            0
        }) + 4 * self.global_title.indicator().spec_value() + (if self.route_on_ssn {
            64int
        } else {
            0
        })) as u8
    }

    /// The octets before the Global Title: the Address Indicator, then the
    /// point code and the SSN when present.
    pub open spec fn header(self) -> Seq<u8> {
        seq![self.indicator_octet()] + match self.point_code {
            Some(pc) => le16(pc),
            None => Seq::empty(),
        } + match self.ssn {
            Some(ssn) => seq![ssn.spec_value()],
            None => Seq::empty(),
        }
    }

    /// The wire encoding, or the error from encoding the Global Title.
    #[verifier::opaque]
    pub open spec fn encoding(self) -> Result<Seq<u8>, SccpError> {
        match self.global_title.encoding() {
            Ok(g) => Ok(self.header() + g),
            Err(e) => Err(e),
        }
    }

    /// What a decode of this address's encoding gives back: the SSN in the
    /// form its octet maps to, and the Global Title normalized.
    pub open spec fn normalized(self) -> SccpAddressView {
        SccpAddressView {
            route_on_ssn: self.route_on_ssn,
            point_code: self.point_code,
            ssn: match self.ssn {
                Some(s) => Some(SubsystemNumber::spec_from_u8(s.spec_value())),
                None => None,
            },
            global_title: self.global_title.normalized(),
        }
    }

    /// A one-line rendering, such as `SccpAddress [route=SSN, pc=100, ssn=MSC(8)]`.
    pub open spec fn text(self) -> Seq<char> {
        "SccpAddress ["@ + (if self.route_on_ssn {
            "route=SSN"@
        } else {
            "route=GT"@
        }) + match self.point_code {
            Some(pc) => ", pc="@ + decimal(pc as nat),
            None => Seq::empty(),
        } + match self.ssn {
            Some(ssn) => ", ssn="@ + ssn.spec_text(),
            None => Seq::empty(),
        } + (if self.global_title is NoTitle {
            Seq::empty()
        } else {
            ", gt="@ + self.global_title.text()
        }) + "]"@
    }
}

/// The address that `bytes` encode (the address field without its length
/// octet), or the error for the first field that is missing or invalid.
#[verifier::opaque]
pub open spec fn address_decoding(bytes: Seq<u8>) -> Result<SccpAddressView, SccpError> {
    if bytes.len() == 0 {
        Err(SccpError::TooShort { expected: 1, actual: 0 })
    } else {
        let ai = bytes[0];
        let has_pc = ai % 2 == 1;
        let has_ssn = (ai / 2) % 2 == 1;
        let ssn_at: int = if has_pc {
            3
        } else {
            1
        };
        let gt_at: int = if has_ssn {
            ssn_at + 1
        } else {
            ssn_at
        };
        match GtIndicator::spec_from_u8((ai / 4) % 16) {
            Err(e) => Err(e),
            Ok(gti) => if has_pc && bytes.len() < 3 {
                Err(SccpError::TooShort { expected: 3, actual: bytes.len() as usize })
            } else if has_ssn && bytes.len() < ssn_at + 1 {
                Err(SccpError::TooShort { expected: (ssn_at + 1) as usize, actual: bytes.len() as usize })
            } else {
                match gt_decoding(bytes.skip(gt_at), gti) {
                    Err(e) => Err(e),
                    Ok(gt) => Ok(
                        SccpAddressView {
                            route_on_ssn: (ai / 64) % 2 == 1,
                            point_code: if has_pc {
                                Some(from_le16(bytes[1], bytes[2]))
                            } else {
                                None
                            },
                            ssn: if has_ssn {
                                Some(SubsystemNumber::spec_from_u8(bytes[ssn_at]))
                            } else {
                                None
                            },
                            global_title: gt,
                        },
                    ),
                }
            },
        }
    }
}

impl SccpAddress {
    /// Create an address with GT routing.
    pub fn with_gt(gt: GlobalTitle, ssn: Option<SubsystemNumber>) -> (a: Self)
        ensures
            a@ == (SccpAddressView {
                route_on_ssn: false,
                point_code: None,
                ssn,
                global_title: gt@,
            }),
    {
        Self { route_on_ssn: false, point_code: None, ssn, global_title: gt }
    }

    /// Create an address with SSN routing.
    pub fn with_ssn(ssn: SubsystemNumber, point_code: Option<u16>) -> (a: Self)
        ensures
            a@ == (SccpAddressView {
                route_on_ssn: true,
                point_code,
                ssn: Some(ssn),
                global_title: GlobalTitleView::NoTitle,
            }),
    {
        Self { route_on_ssn: true, point_code, ssn: Some(ssn), global_title: GlobalTitle::NoTitle }
    }

    /// Decode from bytes (length-prefixed in the message, but here we get the address bytes).
    pub fn decode(bytes: &[u8]) -> (res: Result<Self, SccpError>)
        ensures
            view_result(res) == address_decoding(bytes@),
    {
        reveal(address_decoding);
        if bytes.len() == 0 {
            return Err(SccpError::TooShort { expected: 1, actual: 0 });
        }
        let ai = bytes[0];
        let pc_indicator = ai % 2;
        let ssn_indicator = (ai / 2) % 2;
        let gti = match GtIndicator::from_u8((ai / 4) % 16) {
            Ok(g) => g,
            Err(e) => {
                return Err(e);
            },
        };
        let route_on_ssn = (ai / 64) % 2 == 1;

        let mut offset: usize = 1;

        // Point Code (2 bytes, little-endian) if present
        let point_code = if pc_indicator == 1 {
            if bytes.len() < offset + 2 {
                return Err(SccpError::TooShort { expected: offset + 2, actual: bytes.len() });
            }
            let pc = bytes[offset] as u16 + (bytes[offset + 1] as u16) * 256;
            offset += 2;
            Some(pc)
        } else {
            None
        };

        // SSN (1 byte) if present
        let ssn = if ssn_indicator == 1 {
            if bytes.len() < offset + 1 {
                return Err(SccpError::TooShort { expected: offset + 1, actual: bytes.len() });
            }
            let ssn = SubsystemNumber::from_u8(bytes[offset]);
            offset += 1;
            Some(ssn)
        } else {
            None
        };

        // Global Title (remaining bytes)
        let rest = vstd::slice::slice_subrange(bytes, offset, bytes.len());
        assert(rest@ =~= bytes@.skip(offset as int));
        let global_title = match GlobalTitle::decode(rest, gti) {
            Ok(gt) => gt,
            Err(e) => {
                return Err(e);
            },
        };

        Ok(Self { route_on_ssn, point_code, ssn, global_title })
    }

    /// Encode to bytes.
    pub fn encode(&self) -> (res: Result<Vec<u8>, SccpError>)
        ensures
            view_result(res) == self@.encoding(),
    {
        reveal(SccpAddressView::encoding);
        let gti = self.global_title.indicator();
        let pc_indicator: u8 = if self.point_code.is_some() {
            1
        } else {
            0
        };
        let ssn_indicator: u8 = if self.ssn.is_some() {
            1
        } else {
            0
        };
        let ri: u8 = if self.route_on_ssn {
            1
        } else {
            0
        };

        let ai = pc_indicator + ssn_indicator * 2 + gti.value() * 4 + ri * 64;

        let mut buf = vec![ai];

        if let Some(pc) = self.point_code {
            buf.push((pc % 256) as u8);
            buf.push((pc / 256) as u8);
        }
        if let Some(ssn) = self.ssn {
            buf.push(ssn.value());
        }
        assert(buf@ =~= self@.header());

        match self.global_title.encode() {
            Ok(gt_bytes) => {
                append_bytes(&mut buf, gt_bytes.as_slice());
                Ok(buf)
            },
            Err(e) => Err(e),
        }
    }

    /// A one-line rendering, such as `SccpAddress [route=SSN, pc=100, ssn=MSC(8)]`.
    pub fn to_text(&self) -> (s: String)
        ensures
            s@ == self@.text(),
    {
        let mut s = String::new();
        push_str(&mut s, "SccpAddress [");
        if self.route_on_ssn {
            push_str(&mut s, "route=SSN");
        } else {
            push_str(&mut s, "route=GT");
        }
        if let Some(pc) = self.point_code {
            push_str(&mut s, ", pc=");
            push_decimal(&mut s, pc as u64);
        }
        if let Some(ssn) = self.ssn {
            push_str(&mut s, ", ssn=");
            let t = ssn.to_text();
            push_str(&mut s, t.as_str());
        }
        if !matches!(self.global_title, GlobalTitle::NoTitle) {
            push_str(&mut s, ", gt=");
            let t = self.global_title.to_text();
            push_str(&mut s, t.as_str());
        }
        push_str(&mut s, "]");
        s
    }
}

/// The four fields of the Address Indicator octet read back.
proof fn lemma_indicator_octet(a: SccpAddressView)
    ensures
        ({
            let ai = a.indicator_octet();
            &&& (ai % 2 == 1) == (a.point_code is Some)
            &&& ((ai / 2) % 2 == 1) == (a.ssn is Some)
            &&& (ai / 4) % 16 == a.global_title.indicator().spec_value()
            &&& ((ai / 64) % 2 == 1) == a.route_on_ssn
        }),
{
    let p: int = if a.point_code is Some { 1 } else { 0 };
    let s: int = if a.ssn is Some { 1 } else { 0 };
    let g: int = a.global_title.indicator().spec_value() as int;
    let r: int = if a.route_on_ssn { 1 } else { 0 };
    assert(0 <= g <= 4);
    let x = p + 2 * s + 4 * g + 64 * r;
    assert(x % 2 == p && (x / 2) % 2 == s && (x / 4) % 16 == g && (x / 64) % 2 == r && x < 256)
        by (nonlinear_arith)
        requires
            0 <= p <= 1,
            0 <= s <= 1,
            0 <= g <= 4,
            0 <= r <= 1,
            x == p + 2 * s + 4 * g + 64 * r,
    ;
}

/// Decoding what `encode` produced gives the address back, with its SSN in
/// the form its octet maps to and its Global Title normalized; encoding fails
/// exactly when the Global Title's does.
pub proof fn lemma_address_round_trip(a: SccpAddressView)
    ensures
        a.encoding() is Ok <==> a.global_title.encoding() is Ok,
        a.encoding() matches Ok(b) ==> address_decoding(b) == Ok::<SccpAddressView, SccpError>(
            a.normalized(),
        ),
{
    reveal(SccpAddressView::encoding);
    reveal(address_decoding);
    lemma_gt_round_trip(a.global_title);
    if let Ok(b) = a.encoding() {
        lemma_indicator_octet(a);
        let g = a.global_title.encoding()->Ok_0;
        let h = a.header();
        assert(b.skip(h.len() as int) =~= g);
        if let Some(pc) = a.point_code {
            assert(from_le16((pc % 256) as u8, (pc / 256) as u8) == pc);
        }
    }
}

/// Where an address's fields stand on the wire. The Address Indicator octet
/// comes first: bit 0 set when a point code is present, bit 1 when an SSN is
/// present, the GT indicator in bits 2–5, the routing indicator (route on
/// SSN) in bit 6, and bit 7 clear. The point code follows, least significant
/// octet first, then the SSN octet, then the Global Title.
pub proof fn lemma_address_wire_layout(a: SccpAddressView)
    ensures
        a.encoding() matches Ok(b) ==> {
            let ai = b[0];
            let pc_len: int = if a.point_code is Some {
                2
            } else {
                0
            };
            let ssn_len: int = if a.ssn is Some {
                1
            } else {
                0
            };
            &&& b.len() >= 1 + pc_len + ssn_len
            &&& ai % 2 == (if a.point_code is Some {
                1int
            } else {
                0int
            })
            &&& (ai / 2) % 2 == (if a.ssn is Some {
                1int
            } else {
                0int
            })
            &&& (ai / 4) % 16 == a.global_title.indicator().spec_value()
            &&& (ai / 64) % 2 == (if a.route_on_ssn {
                1int
            } else {
                0int
            })
            &&& ai < 128
            &&& (a.point_code matches Some(pc) ==> b[1] == pc % 256 && b[2] == pc / 256)
            &&& (a.ssn matches Some(ssn) ==> b[1 + pc_len] == ssn.spec_value())
            &&& a.global_title.encoding() == Ok::<Seq<u8>, SccpError>(b.skip(1 + pc_len + ssn_len))
        },
{
    reveal(SccpAddressView::encoding);
    if let Ok(b) = a.encoding() {
        lemma_indicator_octet(a);
        let g = a.global_title.encoding()->Ok_0;
        let h = a.header();
        assert(b.skip(h.len() as int) =~= g);
        let p = a.point_code is Some;
        let q = a.ssn is Some;
        let r = a.route_on_ssn;
        let gi = a.global_title.indicator().spec_value() as int;
        assert(0 <= gi <= 4);
        let x = (if p { 1int } else { 0 }) + (if q { 2int } else { 0 }) + 4 * gi + (if r {
            64int
        } else {
            0
        });
        assert(x < 128);
        assert(b[0] == x);
    }
}

/// Decoding reads each field from where the layout puts it: the presence of
/// a point code from bit 0 and of an SSN from bit 1 of the Address Indicator,
/// the routing indicator from bit 6, the point code least significant octet
/// first, then the SSN octet, then the Global Title in the format that bits
/// 2–5 name.
pub proof fn lemma_address_decoding_fields(bytes: Seq<u8>)
    ensures
        address_decoding(bytes) matches Ok(a) ==> {
            let ai = bytes[0];
            let pc_len: int = if ai % 2 == 1 {
                2
            } else {
                0
            };
            let ssn_len: int = if (ai / 2) % 2 == 1 {
                1
            } else {
                0
            };
            &&& bytes.len() >= 1 + pc_len + ssn_len
            &&& a.route_on_ssn == ((ai / 64) % 2 == 1)
            &&& a.point_code == (if ai % 2 == 1 {
                Some((bytes[1] + 256 * bytes[2]) as u16)
            } else {
                None
            })
            &&& a.ssn == (if ssn_len == 1 {
                Some(SubsystemNumber::spec_from_u8(bytes[1 + pc_len]))
            } else {
                None
            })
            &&& a.global_title.indicator().spec_value() == (ai / 4) % 16
            &&& gt_decoding(bytes.skip(1 + pc_len + ssn_len), a.global_title.indicator()) == Ok::<
                GlobalTitleView,
                SccpError,
            >(a.global_title)
        },
{
    reveal(address_decoding);
    if let Ok(a) = address_decoding(bytes) {
        let gti = GtIndicator::spec_from_u8((bytes[0] / 4) % 16)->Ok_0;
        crate::global_title::lemma_gt_decoding_indicator(
            bytes.skip(1 + (if bytes[0] % 2 == 1 { 2int } else { 0 }) + (if (bytes[0] / 2) % 2 == 1 {
                1int
            } else {
                0
            })),
            gti,
        );
    }
}

/// How decoding refuses an address: an empty field is too short by one
/// octet, and a GT indicator above 4 in bits 2–5 of the Address Indicator is
/// invalid, whatever follows. Otherwise a field that announces a point code
/// needs three octets, and one that announces an SSN needs the octet after
/// the point code (the second octet without a point code, the fourth with
/// one); each shortfall is reported with the length the field has.
pub proof fn lemma_address_refusals(bytes: Seq<u8>)
    ensures
        bytes.len() == 0 ==> address_decoding(bytes) == Err::<SccpAddressView, SccpError>(
            SccpError::TooShort { expected: 1, actual: 0 },
        ),
        bytes.len() > 0 && (bytes[0] / 4) % 16 > 4 ==> address_decoding(bytes) == Err::<
            SccpAddressView,
            SccpError,
        >(SccpError::InvalidGtIndicator(((bytes[0] / 4) % 16) as u8)),
        bytes.len() > 0 && (bytes[0] / 4) % 16 <= 4 && bytes[0] % 2 == 1 && bytes.len() < 3
            ==> address_decoding(bytes) == Err::<SccpAddressView, SccpError>(
            SccpError::TooShort { expected: 3, actual: bytes.len() as usize },
        ),
        bytes.len() > 0 && (bytes[0] / 4) % 16 <= 4 && bytes[0] % 2 == 0 && (bytes[0] / 2) % 2
            == 1 && bytes.len() < 2 ==> address_decoding(bytes) == Err::<SccpAddressView, SccpError>(
            SccpError::TooShort { expected: 2, actual: bytes.len() as usize },
        ),
        bytes.len() >= 3 && (bytes[0] / 4) % 16 <= 4 && bytes[0] % 2 == 1 && (bytes[0] / 2) % 2
            == 1 && bytes.len() < 4 ==> address_decoding(bytes) == Err::<SccpAddressView, SccpError>(
            SccpError::TooShort { expected: 4, actual: bytes.len() as usize },
        ),
{
    reveal(address_decoding);
}


/// Encoding an address fails exactly when encoding its Global Title fails,
/// with the same error.
pub proof fn lemma_address_encoding_refusals(a: SccpAddressView)
    ensures
        a.encoding() is Err <==> a.global_title.encoding() is Err,
        a.global_title.encoding() matches Err(e) ==> a.encoding() == Err::<Seq<u8>, SccpError>(e),
{
    reveal(SccpAddressView::encoding);
}

} // verus!
