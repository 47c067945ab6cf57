//! Building human-readable text: the renderings that the message, address and
//! Global Title types give of themselves.

use vstd::prelude::*;
use vstd::string::StringExecFns;

use crate::address::SccpAddressView;
use crate::global_title::GlobalTitleView;
use crate::message::{parties_text, SccpMessageView};

verus! {

/// `String::push` appends one character to the end of the string; the contract
/// claims exactly that of std's documented behaviour, and nothing about capacity.
pub assume_specification[ String::push ](s: &mut String, ch: char)
    ensures
        final(s)@ == old(s)@.push(ch),
;

/// The decimal digit character for a value below ten.
pub open spec fn digit_char(d: nat) -> char {
    ((0x30 + d) as u8) as char
}

/// The decimal rendering of a natural number, without leading zeros.
pub open spec fn decimal(v: nat) -> Seq<char>
    decreases v,
{
    if v < 10 {
        seq![digit_char(v)]
    } else {
        decimal(v / 10).push(digit_char(v % 10))
    }
}

/// Append the decimal rendering of `v`.
pub(crate) fn push_decimal(s: &mut String, v: u64)
    ensures
        final(s)@ == old(s)@ + decimal(v as nat),
    decreases v,
{
    if v >= 10 {
        push_decimal(s, v / 10);
    }
    let d = (v % 10) as u8;
    s.push((0x30 + d) as char);
    assert(s@ =~= old(s)@ + decimal(v as nat)) by {
        if v < 10 {
            assert(old(s)@ + decimal(v as nat) =~= old(s)@.push(digit_char(v as nat)));
        }
    }
}

/// Append a string slice.
pub(crate) fn push_str(s: &mut String, t: &str)
    ensures
        final(s)@ == old(s)@ + t@,
{
    s.append(t);
}

/// The number a string of decimal digits stands for, most significant first.
pub open spec fn digits_value(s: Seq<char>) -> int
    decreases s.len(),
{
    if s.len() == 0 {
        0
    } else {
        digits_value(s.drop_last()) * 10 + (s.last() as int - 0x30)
    }
}

/// A decimal digit character is the code point `0x30` plus the digit.
proof fn lemma_digit_char(d: nat)
    requires
        d < 10,
    ensures
        digit_char(d) as int == 0x30 + d,
{
    let b = (0x30 + d) as u8;
    assert(b as int == 0x30 + d);
    assert(digit_char(d) == b as char);
}

/// The decimal rendering of a number reads back as that number: it is one or
/// more of the characters `0`–`9`, without a leading zero unless the number
/// is zero, and their value is the number.
pub proof fn lemma_decimal(v: nat)
    ensures
        decimal(v).len() >= 1,
        decimal(v).len() > 1 <==> v >= 10,
        forall|i: int| 0 <= i < decimal(v).len() ==> '0' <= #[trigger] decimal(v)[i] <= '9',
        decimal(v).len() > 1 ==> decimal(v)[0] != '0',
        digits_value(decimal(v)) == v,
    decreases v,
{
    lemma_digit_char(v % 10);
    let d = decimal(v);
    assert(d.last() == digit_char(v % 10));
    if v < 10 {
        assert(d.drop_last() =~= Seq::<char>::empty());
        assert(digits_value(d.drop_last()) == 0);
        assert(digits_value(d) == v);
    } else {
        lemma_decimal(v / 10);
        let e = decimal(v / 10);
        assert(d.drop_last() =~= e);
        assert(digits_value(d) == digits_value(e) * 10 + (v % 10));
        assert(d[0] == e[0]);
        if v / 10 < 10 {
            lemma_digit_char(v / 10);
            assert(e =~= seq![digit_char(v / 10)]);
            assert(e[0] as int == 0x30 + v / 10);
            assert(e[0] as int != '0' as int);
            assert(d[0] != '0');
        }
        assert forall|i: int| 0 <= i < d.len() implies '0' <= #[trigger] d[i] <= '9' by {
            if i < d.len() - 1 {
                assert(d[i] == e[i]);
            }
        }
    }
}


/// A prefix of a sequence is a prefix of it with anything appended.
proof fn lemma_prefix_extends(p: Seq<char>, h: Seq<char>, r: Seq<char>)
    requires
        p.is_prefix_of(h),
    ensures
        p.is_prefix_of(h + r),
{
    assert(p =~= (h + r).subrange(0, p.len() as int));
}

/// A suffix of a sequence is a suffix of it with anything prepended.
proof fn lemma_suffix_extends(q: Seq<char>, r: Seq<char>, s: Seq<char>)
    requires
        q.is_suffix_of(s),
    ensures
        q.is_suffix_of(r + s),
{
    let t = r + s;
    assert(q =~= t.subrange(t.len() - q.len(), t.len() as int));
}

/// The parties' rendering ends with the data length and the closing bracket.
proof fn lemma_parties_tail(called: SccpAddressView, calling: SccpAddressView, data: Seq<u8>)
    ensures
        (", data_len="@ + decimal(data.len()) + "]"@).is_suffix_of(parties_text(called, calling, data)),
{
    let t = parties_text(called, calling, data);
    let q = ", data_len="@ + decimal(data.len()) + "]"@;
    assert(q =~= t.subrange(t.len() - q.len(), t.len() as int));
}

/// Every message renders as the abbreviation of its type, then ` [`, and
/// ends with the length of its data in decimal, then `]`.
pub proof fn lemma_message_text_frame(m: SccpMessageView)
    ensures
        (m.message_type().spec_name() + " ["@).is_prefix_of(m.text()),
        (", data_len="@ + decimal(m.data().len()) + "]"@).is_suffix_of(m.text()),
{
    reveal_strlit(" [");
    match m {
        SccpMessageView::Udt(u) => {
            reveal_strlit("UDT");
            reveal_strlit("UDT [class=");
            let name = "UDT"@ + " ["@;
            assert(name =~= "UDT [class="@.subrange(0, name.len() as int));
            lemma_prefix_extends(name, "UDT [class="@, decimal(u.protocol_class as nat));
            lemma_prefix_extends(name, "UDT [class="@ + decimal(u.protocol_class as nat), parties_text(u.called_party, u.calling_party, u.data));
            lemma_parties_tail(u.called_party, u.calling_party, u.data);
            lemma_suffix_extends(
                ", data_len="@ + decimal(u.data.len()) + "]"@,
                "UDT [class="@ + decimal(u.protocol_class as nat),
                parties_text(u.called_party, u.calling_party, u.data),
            );
        },
        SccpMessageView::Udts(u) => {
            reveal_strlit("UDTS");
            reveal_strlit("UDTS [cause=");
            let name = "UDTS"@ + " ["@;
            assert(name =~= "UDTS [cause="@.subrange(0, name.len() as int));
            lemma_prefix_extends(name, "UDTS [cause="@, u.return_cause.spec_text());
            lemma_prefix_extends(name, "UDTS [cause="@ + u.return_cause.spec_text(), parties_text(u.called_party, u.calling_party, u.data));
            lemma_parties_tail(u.called_party, u.calling_party, u.data);
            lemma_suffix_extends(
                ", data_len="@ + decimal(u.data.len()) + "]"@,
                "UDTS [cause="@ + u.return_cause.spec_text(),
                parties_text(u.called_party, u.calling_party, u.data),
            );
        },
        SccpMessageView::Xudt(u) => {
            reveal_strlit("XUDT");
            reveal_strlit("XUDT [class=");
            let name = "XUDT"@ + " ["@;
            assert(name =~= "XUDT [class="@.subrange(0, name.len() as int));
            lemma_prefix_extends(name, "XUDT [class="@, decimal(u.protocol_class as nat));
            lemma_prefix_extends(name, "XUDT [class="@ + decimal(u.protocol_class as nat), ", hop="@);
            lemma_prefix_extends(name, "XUDT [class="@ + decimal(u.protocol_class as nat) + ", hop="@, decimal(u.hop_counter as nat));
            lemma_prefix_extends(name, "XUDT [class="@ + decimal(u.protocol_class as nat) + ", hop="@ + decimal(u.hop_counter as nat), parties_text(u.called_party, u.calling_party, u.data));
            lemma_parties_tail(u.called_party, u.calling_party, u.data);
            lemma_suffix_extends(
                ", data_len="@ + decimal(u.data.len()) + "]"@,
                "XUDT [class="@ + decimal(u.protocol_class as nat) + ", hop="@ + decimal(u.hop_counter as nat),
                parties_text(u.called_party, u.calling_party, u.data),
            );
        },
        SccpMessageView::Xudts(u) => {
            reveal_strlit("XUDTS");
            reveal_strlit("XUDTS [cause=");
            let name = "XUDTS"@ + " ["@;
            assert(name =~= "XUDTS [cause="@.subrange(0, name.len() as int));
            lemma_prefix_extends(name, "XUDTS [cause="@, u.return_cause.spec_text());
            lemma_prefix_extends(name, "XUDTS [cause="@ + u.return_cause.spec_text(), ", hop="@);
            lemma_prefix_extends(name, "XUDTS [cause="@ + u.return_cause.spec_text() + ", hop="@, decimal(u.hop_counter as nat));
            lemma_prefix_extends(name, "XUDTS [cause="@ + u.return_cause.spec_text() + ", hop="@ + decimal(u.hop_counter as nat), parties_text(u.called_party, u.calling_party, u.data));
            lemma_parties_tail(u.called_party, u.calling_party, u.data);
            lemma_suffix_extends(
                ", data_len="@ + decimal(u.data.len()) + "]"@,
                "XUDTS [cause="@ + u.return_cause.spec_text() + ", hop="@ + decimal(u.hop_counter as nat),
                parties_text(u.called_party, u.calling_party, u.data),
            );
        },
        SccpMessageView::Ludt(u) => {
            reveal_strlit("LUDT");
            reveal_strlit("LUDT [class=");
            let name = "LUDT"@ + " ["@;
            assert(name =~= "LUDT [class="@.subrange(0, name.len() as int));
            lemma_prefix_extends(name, "LUDT [class="@, decimal(u.protocol_class as nat));
            lemma_prefix_extends(name, "LUDT [class="@ + decimal(u.protocol_class as nat), ", hop="@);
            lemma_prefix_extends(name, "LUDT [class="@ + decimal(u.protocol_class as nat) + ", hop="@, decimal(u.hop_counter as nat));
            lemma_prefix_extends(name, "LUDT [class="@ + decimal(u.protocol_class as nat) + ", hop="@ + decimal(u.hop_counter as nat), parties_text(u.called_party, u.calling_party, u.data));
            lemma_parties_tail(u.called_party, u.calling_party, u.data);
            lemma_suffix_extends(
                ", data_len="@ + decimal(u.data.len()) + "]"@,
                "LUDT [class="@ + decimal(u.protocol_class as nat) + ", hop="@ + decimal(u.hop_counter as nat),
                parties_text(u.called_party, u.calling_party, u.data),
            );
        },
        SccpMessageView::Ludts(u) => {
            reveal_strlit("LUDTS");
            reveal_strlit("LUDTS [cause=");
            let name = "LUDTS"@ + " ["@;
            assert(name =~= "LUDTS [cause="@.subrange(0, name.len() as int));
            lemma_prefix_extends(name, "LUDTS [cause="@, u.return_cause.spec_text());
            lemma_prefix_extends(name, "LUDTS [cause="@ + u.return_cause.spec_text(), ", hop="@);
            lemma_prefix_extends(name, "LUDTS [cause="@ + u.return_cause.spec_text() + ", hop="@, decimal(u.hop_counter as nat));
            lemma_prefix_extends(name, "LUDTS [cause="@ + u.return_cause.spec_text() + ", hop="@ + decimal(u.hop_counter as nat), parties_text(u.called_party, u.calling_party, u.data));
            lemma_parties_tail(u.called_party, u.calling_party, u.data);
            lemma_suffix_extends(
                ", data_len="@ + decimal(u.data.len()) + "]"@,
                "LUDTS [cause="@ + u.return_cause.spec_text() + ", hop="@ + decimal(u.hop_counter as nat),
                parties_text(u.called_party, u.calling_party, u.data),
            );
        },
    }
}


/// The character of the bit that divisor `d` picks out of `v`.
pub open spec fn bit_char(v: u8, d: u8) -> char {
    if (v / d) % 2 == 1 {
        '1'
    } else {
        '0'
    }
}

/// A Global Title renders as `NoGT` when there is none; otherwise as `GT`
/// and its indicator in four binary digits, then ` [`, and it ends with its
/// digits, then `]`.
#[verifier::spinoff_prover]
pub proof fn lemma_gt_text_frame(gt: GlobalTitleView)
    ensures
        gt is NoTitle ==> gt.text() == "NoGT"@,
        !(gt is NoTitle) ==> ("GT"@ + seq![
            bit_char(gt.indicator().spec_value(), 8),
            bit_char(gt.indicator().spec_value(), 4),
            bit_char(gt.indicator().spec_value(), 2),
            bit_char(gt.indicator().spec_value(), 1),
        ] + " ["@).is_prefix_of(gt.text()),
        !(gt is NoTitle) ==> (", digits="@ + gt.digits() + "]"@).is_suffix_of(gt.text()),
{
    reveal_strlit("GT");
    reveal_strlit(" [");
    let t = gt.text();
    let g = gt.indicator().spec_value();
    let p = "GT"@ + seq![bit_char(g, 8), bit_char(g, 4), bit_char(g, 2), bit_char(g, 1)] + " ["@;
    match gt {
        GlobalTitleView::NoTitle => {},
        GlobalTitleView::Gt0001 { .. } => {
            reveal_strlit("GT0001 [noa=");
            assert(p =~= "GT0001 [noa="@.subrange(0, p.len() as int));
            assert(p =~= t.subrange(0, p.len() as int));
        },
        GlobalTitleView::Gt0010 { .. } => {
            reveal_strlit("GT0010 [tt=");
            assert(p =~= "GT0010 [tt="@.subrange(0, p.len() as int));
            assert(p =~= t.subrange(0, p.len() as int));
        },
        GlobalTitleView::Gt0011 { .. } => {
            reveal_strlit("GT0011 [tt=");
            assert(p =~= "GT0011 [tt="@.subrange(0, p.len() as int));
            assert(p =~= t.subrange(0, p.len() as int));
        },
        GlobalTitleView::Gt0100 { .. } => {
            reveal_strlit("GT0100 [tt=");
            assert(p =~= "GT0100 [tt="@.subrange(0, p.len() as int));
            assert(p =~= t.subrange(0, p.len() as int));
        },
    }
    if !(gt is NoTitle) {
        let q = ", digits="@ + gt.digits() + "]"@;
        assert(q =~= t.subrange(t.len() - q.len(), t.len() as int));
    }
}


/// An address renders as `SccpAddress [route=` and `SSN` or `GT` as it
/// routes, and ends with the rendering of its Global Title when it has one,
/// else with that of its SSN when it has one, then `]`.
#[verifier::spinoff_prover]
pub proof fn lemma_address_text_frame(a: SccpAddressView)
    ensures
        ("SccpAddress [route="@ + (if a.route_on_ssn {
            "SSN"@
        } else {
            "GT"@
        })).is_prefix_of(a.text()),
        !(a.global_title is NoTitle) ==> (", gt="@ + a.global_title.text() + "]"@).is_suffix_of(
            a.text(),
        ),
        a.global_title is NoTitle ==> (a.ssn matches Some(s) ==> (", ssn="@ + s.spec_text()
            + "]"@).is_suffix_of(a.text())),
{
    reveal_strlit("SccpAddress [");
    reveal_strlit("SccpAddress [route=");
    reveal_strlit("route=SSN");
    reveal_strlit("route=GT");
    reveal_strlit("SSN");
    reveal_strlit("GT");
    let t = a.text();
    let p = "SccpAddress [route="@ + (if a.route_on_ssn {
        "SSN"@
    } else {
        "GT"@
    });
    assert(p =~= t.subrange(0, p.len() as int));
    if !(a.global_title is NoTitle) {
        let q = ", gt="@ + a.global_title.text() + "]"@;
        assert(q =~= t.subrange(t.len() - q.len(), t.len() as int));
    } else if let Some(s) = a.ssn {
        let q = ", ssn="@ + s.spec_text() + "]"@;
        assert(q =~= t.subrange(t.len() - q.len(), t.len() as int));
    }
}

} // verus!
