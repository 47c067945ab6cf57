//! Telephony-BCD (TBCD) digit packing, as used for Global Title digits.
//!
//! Two digits are packed per byte, low nibble first; an odd digit count is
//! padded with a `0xF` filler nibble. The `*`, `#`, and `a`–`c` extension
//! nibbles are supported.

use vstd::prelude::*;

use vstd::utf8::{encode_scalar, encode_utf8, has_width_1_encoding};

use crate::error::{view_result, SccpError};

verus! {

/// The nibble that a digit byte encodes to, or `None` when the byte is not in
/// the TBCD alphabet (`0`–`9`, `*`, `#`, `a`–`c` in either case).
pub open spec fn digit_nibble(b: u8) -> Option<u8> {
    if 0x30 <= b <= 0x39 {
        Some((b - 0x30) as u8)
    } else if b == 0x2A {
        Some(0x0A)
    } else if b == 0x23 {
        Some(0x0B)
    } else if b == 0x61 || b == 0x41 {
        Some(0x0C)
    } else if b == 0x62 || b == 0x42 {
        Some(0x0D)
    } else if b == 0x63 || b == 0x43 {
        Some(0x0E)
    } else {
        None
    }
}

/// The first byte of `s` outside the TBCD alphabet, if any.
pub open spec fn first_non_digit(s: Seq<u8>) -> Option<u8>
    decreases s.len(),
{
    if s.len() == 0 {
        None
    } else if digit_nibble(s[0]) is None {
        Some(s[0])
    } else {
        first_non_digit(s.drop_first())
    }
}

/// The nibbles of a sequence of digit bytes, one per byte.
pub open spec fn digit_nibbles(s: Seq<u8>) -> Seq<u8> {
    s.map_values(|b: u8| digit_nibble(b).unwrap())
}

/// Nibbles packed two per byte, low nibble first, with a `0xF` filler in the
/// high nibble of the last byte when the count is odd.
pub open spec fn pack_nibbles(n: Seq<u8>) -> Seq<u8> {
    Seq::new(
        ((n.len() + 1) / 2) as nat,
        |j: int|
            {
                let high = if 2 * j + 1 < n.len() {
                    n[2 * j + 1]
                } else {
                    0x0Fu8
                };
                (high * 16 + n[2 * j]) as u8
            },
    )
}

/// The TBCD encoding of a byte string, or the error for its first byte outside
/// the TBCD alphabet.
pub open spec fn tbcd_encoding(s: Seq<u8>) -> Result<Seq<u8>, SccpError> {
    match first_non_digit(s) {
        Some(b) => Err(SccpError::InvalidBcdDigit(b)),
        None => Ok(pack_nibbles(digit_nibbles(s))),
    }
}

/// The character a nibble below `0xF` decodes to (`?` for the filler value).
pub open spec fn nibble_char(n: u8) -> char {
    if n <= 9 {
        ((0x30 + n) as u8) as char
    } else if n == 0x0A {
        '*'
    } else if n == 0x0B {
        '#'
    } else if n == 0x0C {
        'a'
    } else if n == 0x0D {
        'b'
    } else if n == 0x0E {
        'c'
    } else {
        '?'
    }
}

/// The nibbles of packed bytes in reading order: low nibble, then high nibble.
pub open spec fn unpack_nibbles(b: Seq<u8>) -> Seq<u8> {
    Seq::new(
        2 * b.len(),
        |k: int|
            if k % 2 == 0 {
                b[k / 2] % 16
            } else {
                b[k / 2] / 16
            },
    )
}

/// The position of the first filler nibble (`0xF`), or the length when there is none.
pub open spec fn filler_position(n: Seq<u8>) -> nat
    decreases n.len(),
{
    if n.len() == 0 || n[0] == 0x0F {
        0
    } else {
        1 + filler_position(n.drop_first())
    }
}

/// The digits that TBCD bytes stand for: the nibbles up to the first filler,
/// each turned into its character.
pub open spec fn tbcd_digits(b: Seq<u8>) -> Seq<char> {
    let n = unpack_nibbles(b);
    n.take(filler_position(n) as int).map_values(|x: u8| nibble_char(x))
}

/// Whether every character of a string is in the TBCD alphabet.
pub open spec fn is_tbcd_digit_string(s: Seq<char>) -> bool {
    forall|i: int| 0 <= i < s.len() ==> '\0' <= #[trigger] s[i] <= '\u{7f}' && digit_nibble(
        s[i] as u8,
    ) is Some
}

/// A digit string as decoding gives it back: each character replaced by the
/// character of its nibble, so that `A`–`C` become `a`–`c`.
pub open spec fn canonical_digits(s: Seq<char>) -> Seq<char> {
    s.map_values(|c: char| nibble_char(digit_nibble(c as u8).unwrap()))
}

/// `first_non_digit` finds nothing exactly when every byte is a digit, and
/// what it finds is the earliest byte that is not.
pub proof fn lemma_first_non_digit(s: Seq<u8>)
    ensures
        first_non_digit(s) is None <==> forall|i: int| 0 <= i < s.len() ==> digit_nibble(
            #[trigger] s[i],
        ) is Some,
        first_non_digit(s) matches Some(b) ==> exists|i: int|
            0 <= i < s.len() && s[i] == b && digit_nibble(b) is None && forall|k: int|
                0 <= k < i ==> digit_nibble(#[trigger] s[k]) is Some,
    decreases s.len(),
{
    if s.len() > 0 {
        lemma_first_non_digit(s.drop_first());
        if digit_nibble(s[0]) is Some {
            assert forall|i: int| 1 <= i < s.len() implies s[i] == s.drop_first()[i - 1] by {}
            if first_non_digit(s.drop_first()) is None {
                assert forall|i: int| 0 <= i < s.len() implies digit_nibble(#[trigger] s[i]) is Some by {
                    if i > 0 {
                        assert(s[i] == s.drop_first()[i - 1]);
                    }
                }
            } else {
                let b = first_non_digit(s.drop_first())->Some_0;
                let i = choose|i: int|
                    0 <= i < s.drop_first().len() && s.drop_first()[i] == b && digit_nibble(b) is None
                        && forall|k: int| 0 <= k < i ==> digit_nibble(#[trigger] s.drop_first()[k]) is Some;
                assert(s[i + 1] == b);
                assert forall|k: int| 0 <= k < i + 1 implies digit_nibble(#[trigger] s[k]) is Some by {
                    if k > 0 {
                        assert(s[k] == s.drop_first()[k - 1]);
                    }
                }
                assert(digit_nibble(s[i + 1]) is None);
            }
        }
    }
}

/// A string whose UTF-8 bytes are all in the TBCD alphabet is ASCII, and its
/// bytes are its characters.
pub proof fn lemma_digit_bytes_are_ascii(s: Seq<char>)
    requires
        forall|i: int| 0 <= i < encode_utf8(s).len() ==> digit_nibble(#[trigger] encode_utf8(s)[i]) is Some,
    ensures
        is_tbcd_digit_string(s),
        encode_utf8(s).len() == s.len(),
        forall|i: int| 0 <= i < s.len() ==> encode_utf8(s)[i] == #[trigger] s[i] as u8,
    decreases s.len(),
{
    broadcast use vstd::utf8::char_is_scalar;

    if s.len() > 0 {
        let c = s[0] as u32;
        vstd::utf8::char_u32_cast(s[0], c);
        let head = encode_scalar(c);
        let rest = encode_utf8(s.drop_first());
        assert(encode_utf8(s) == head + rest);
        assert(digit_nibble(encode_utf8(s)[0]) is Some);
        assert(head[0] == encode_utf8(s)[0]);
        assert(head[0] < 0x80);
        assert(0xC0 | ((c >> 6) & 0x1F) as u8 >= 0xC0) by (bit_vector);
        assert(0xE0 | ((c >> 12) & 0x0F) as u8 >= 0xC0) by (bit_vector);
        assert(0xF0 | ((c >> 18) & 0x7) as u8 >= 0xC0) by (bit_vector);
        assert(has_width_1_encoding(c));
        assert(c <= 0x7F ==> (c & 0x7F) as u8 == c as u8) by (bit_vector);
        assert(c as int == s[0] as int);
        assert(s[0] <= '\u{7f}');
        assert(c as u8 == s[0] as u8);
        assert(encode_utf8(s)[0] == s[0] as u8);
        assert forall|i: int| 0 <= i < rest.len() implies digit_nibble(#[trigger] rest[i]) is Some by {
            assert(rest[i] == encode_utf8(s)[i + 1]);
        }
        lemma_digit_bytes_are_ascii(s.drop_first());
        assert forall|i: int| 0 <= i < s.len() implies encode_utf8(s)[i] == #[trigger] s[i] as u8 by {
            if i > 0 {
                assert(s[i] == s.drop_first()[i - 1]);
                assert(encode_utf8(s)[i] == rest[i - 1]);
            }
        }
        assert forall|i: int| 0 <= i < s.len() implies '\0' <= #[trigger] s[i] <= '\u{7f}'
            && digit_nibble(s[i] as u8) is Some by {
            if i > 0 {
                assert(s[i] == s.drop_first()[i - 1]);
            } else {
                assert(encode_utf8(s)[0] == s[0] as u8);
            }
        }
    }
}

/// Packed nibbles below the filler value unpack to themselves, followed by
/// one filler when their count is odd.
pub proof fn lemma_unpack_pack(n: Seq<u8>)
    requires
        forall|k: int| 0 <= k < n.len() ==> #[trigger] n[k] <= 0x0E,
    ensures
        unpack_nibbles(pack_nibbles(n)).len() == n.len() + n.len() % 2,
        forall|k: int| 0 <= k < n.len() ==> #[trigger] unpack_nibbles(pack_nibbles(n))[k] == n[k],
        n.len() % 2 == 1 ==> unpack_nibbles(pack_nibbles(n))[n.len() as int] == 0x0F,
{
    let p = pack_nibbles(n);
    let u = unpack_nibbles(p);
    assert forall|k: int| 0 <= k < n.len() implies #[trigger] u[k] == n[k] by {
        let j = k / 2;
        let high: u8 = if 2 * j + 1 < n.len() { n[2 * j + 1] } else { 0x0Fu8 };
        let low = n[2 * j];
        assert(p[j] == (high * 16 + low) as u8);
        assert((high * 16 + low) % 16 == low && (high * 16 + low) / 16 == high) by (nonlinear_arith)
            requires low <= 0x0F, high <= 0x0F;
    }
    if n.len() % 2 == 1 {
        let j = (n.len() - 1) / 2;
        let low = n[2 * j];
        assert((0x0F * 16 + low) / 16 == 0x0F) by (nonlinear_arith)
            requires low <= 0x0F;
    }
}

/// Decoding what `encode_tbcd` produced gives the digits back, with the
/// letters `A`–`C` in lower case; encoding succeeds exactly on strings in
/// the TBCD alphabet, and takes one byte for every two digits, rounded up.
pub proof fn lemma_tbcd_round_trip(s: Seq<char>)
    ensures
        tbcd_encoding(encode_utf8(s)) is Ok <==> is_tbcd_digit_string(s),
        tbcd_encoding(encode_utf8(s)) matches Ok(b) ==> {
            &&& tbcd_digits(b) == canonical_digits(s)
            &&& b.len() == (s.len() + 1) / 2
        },
{
    let bytes = encode_utf8(s);
    lemma_first_non_digit(bytes);
    if first_non_digit(bytes) is None {
        lemma_digit_bytes_are_ascii(s);
        let n = digit_nibbles(bytes);
        lemma_unpack_pack(n);
        let u = unpack_nibbles(pack_nibbles(n));
        lemma_filler_position(u, n.len() as int);
        assert(u.take(n.len() as int) =~= n);
        assert(tbcd_digits(pack_nibbles(n)) =~= canonical_digits(s));
    } else {
        if is_tbcd_digit_string(s) {
            vstd::utf8::is_ascii_chars_encode_utf8(s);
            let b = first_non_digit(bytes)->Some_0;
            let i = choose|i: int|
                0 <= i < bytes.len() && bytes[i] == b && digit_nibble(b) is None && forall|k: int|
                    0 <= k < i ==> digit_nibble(#[trigger] bytes[k]) is Some;
            assert(bytes[i] == s[i] as u8);
        }
    }
}

/// `filler_position` is the unique position before which no nibble is a filler
/// and at which a filler or the end stands.
pub proof fn lemma_filler_position(n: Seq<u8>, p: int)
    ensures
        0 <= filler_position(n) <= n.len(),
        forall|k: int| 0 <= k < filler_position(n) ==> n[k] != 0x0F,
        filler_position(n) < n.len() ==> n[filler_position(n) as int] == 0x0F,
        (0 <= p <= n.len() && (forall|k: int| 0 <= k < p ==> n[k] != 0x0F) && (p < n.len()
            ==> n[p] == 0x0F)) ==> p == filler_position(n),
    decreases n.len(),
{
    if n.len() > 0 && n[0] != 0x0F {
        lemma_filler_position(n.drop_first(), p - 1);
        assert forall|k: int| 0 <= k < filler_position(n) implies n[k] != 0x0F by {
            if k > 0 {
                assert(n[k] == n.drop_first()[k - 1]);
            }
        }
        if 0 <= p <= n.len() && (forall|k: int| 0 <= k < p ==> n[k] != 0x0F) && (p < n.len()
            ==> n[p] == 0x0F) {
            assert(p > 0);
            assert forall|k: int| 0 <= k < p - 1 implies n.drop_first()[k] != 0x0F by {
                assert(n.drop_first()[k] == n[k + 1]);
            }
        }
    }
}

/// The nibble for one digit byte.
fn digit_to_nibble(b: u8) -> (r: Option<u8>)
    ensures
        r == digit_nibble(b),
{
    match b {
        0x30..=0x39 => Some(b - 0x30),  // '0'..='9'
        0x2A => Some(0x0A),  // '*'
        0x23 => Some(0x0B),  // '#'
        0x61 | 0x41 => Some(0x0C),  // 'a' | 'A'
        0x62 | 0x42 => Some(0x0D),  // 'b' | 'B'
        0x63 | 0x43 => Some(0x0E),  // 'c' | 'C'
        _ => None,
    }
}

/// Encode a digit string to TBCD (Telephony BCD) format.
///
/// Two digits per byte, low nibble first. If odd number of digits,
/// the last byte's high nibble is 0x0F (filler).
///
/// Example: "15551234567" → [0x51, 0x55, 0x21, 0x43, 0x65, 0xF7]
pub fn encode_tbcd(digits: &str) -> (res: Result<Vec<u8>, SccpError>)
    ensures
        view_result(res) == tbcd_encoding(encode_utf8(digits@)),
{
    let input = digits.as_bytes();
    let ghost s = input@;
    assert(s == encode_utf8(digits@));
    let mut nibbles: Vec<u8> = Vec::new();
    let mut i: usize = 0;
    assert(s.skip(0) =~= s);
    while i < input.len()
        invariant
            s == input@,
            s == encode_utf8(digits@),
            i <= s.len(),
            nibbles@ == digit_nibbles(s.take(i as int)),
            forall|k: int| 0 <= k < i ==> digit_nibble(#[trigger] s[k]) is Some,
            first_non_digit(s) == first_non_digit(s.skip(i as int)),
        decreases s.len() - i,
    {
        assert(s.skip(i as int).drop_first() =~= s.skip(i + 1));
        match digit_to_nibble(input[i]) {
            Some(n) => {
                nibbles.push(n);
                assert(digit_nibbles(s.take(i + 1)) =~= digit_nibbles(s.take(i as int)).push(n));
            },
            None => {
                assert(s.skip(i as int)[0] == s[i as int]);

                return Err(SccpError::InvalidBcdDigit(input[i]));
            },
        }
        i += 1;
    }
    assert(s.skip(i as int) =~= Seq::<u8>::empty());
    assert(s.take(i as int) =~= s);
    assert(first_non_digit(s) is None);
    let mut bytes: Vec<u8> = Vec::new();
    let ghost n = nibbles@;
    let count = nibbles.len() / 2 + nibbles.len() % 2;
    let mut j: usize = 0;
    while j < count
        invariant
            n == nibbles@,
            n.len() == nibbles.len(),
            count == (n.len() + 1) / 2,
            j <= count,
            bytes@ =~= pack_nibbles(n).take(j as int),
            forall|k: int| 0 <= k < n.len() ==> #[trigger] n[k] <= 0x0E,
        decreases count - j,
    {
        assert(2 * j < n.len()) by (nonlinear_arith)
            requires
                j < count,
                count == (n.len() + 1) / 2,
        ;
        let low = nibbles[2 * j];
        let high = if 2 * j + 1 < nibbles.len() {
            nibbles[2 * j + 1]
        } else {
            0x0F
        };
        bytes.push(high * 16 + low);
        j += 1;
    }
    assert(bytes@ =~= pack_nibbles(n));
    assert(n =~= digit_nibbles(s));
    Ok(bytes)
}

/// The character for a nibble.
fn nibble_to_char(nibble: u8) -> (c: char)
    ensures
        c == nibble_char(nibble),
{
    match nibble {
        0..=9 => (0x30 + nibble) as char,
        0x0A => '*',
        0x0B => '#',
        0x0C => 'a',
        0x0D => 'b',
        0x0E => 'c',
        _ => '?',
    }
}

/// Decode TBCD encoded bytes to a digit string.
///
/// Stops at filler nibble (0x0F) or end of bytes.
pub fn decode_tbcd(bytes: &[u8]) -> (digits: String)
    ensures
        digits@ == tbcd_digits(bytes@),
{
    let mut digits = String::new();
    let ghost n = unpack_nibbles(bytes@);
    let mut j: usize = 0;
    while j < bytes.len()
        invariant
            n == unpack_nibbles(bytes@),
            j <= bytes.len(),
            forall|k: int| 0 <= k < 2 * j ==> n[k] != 0x0F,
            digits@ =~= n.take(2 * j).map_values(|x: u8| nibble_char(x)),
        decreases bytes.len() - j,
    {
        let byte = bytes[j];
        let low = byte % 16;
        let high = byte / 16;
        assert(n[2 * j] == low && n[2 * j + 1] == high);
        if low == 0x0F {
            proof {
                lemma_filler_position(n, 2 * j);
            }
            return digits;
        }
        digits.push(nibble_to_char(low));
        assert(digits@ =~= n.take(2 * j + 1).map_values(|x: u8| nibble_char(x)));
        if high == 0x0F {
            proof {
                lemma_filler_position(n, 2 * j + 1);
            }
            return digits;
        }
        digits.push(nibble_to_char(high));
        j += 1;
    }
    proof {
        lemma_filler_position(n, n.len() as int);
    }
    digits
}

/// The TBCD alphabet: a decimal digit encodes to its own value as a nibble and
/// decodes back to itself; `*` is 0xA, `#` 0xB, and `a`, `b`, `c` (in either
/// case) 0xC, 0xD, 0xE, decoding to lower case; every other byte is refused.
pub proof fn lemma_tbcd_alphabet()
    ensures
        forall|d: u8| d < 10 ==> #[trigger] digit_nibble((0x30 + d) as u8) == Some(d),
        forall|d: u8| d < 10 ==> #[trigger] nibble_char(d) as u32 == 0x30 + d,
        digit_nibble('*' as u8) == Some(0x0Au8) && nibble_char(0x0A) == '*',
        digit_nibble('#' as u8) == Some(0x0Bu8) && nibble_char(0x0B) == '#',
        digit_nibble('a' as u8) == Some(0x0Cu8) && digit_nibble('A' as u8) == Some(0x0Cu8)
            && nibble_char(0x0C) == 'a',
        digit_nibble('b' as u8) == Some(0x0Du8) && digit_nibble('B' as u8) == Some(0x0Du8)
            && nibble_char(0x0D) == 'b',
        digit_nibble('c' as u8) == Some(0x0Eu8) && digit_nibble('C' as u8) == Some(0x0Eu8)
            && nibble_char(0x0E) == 'c',
        forall|b: u8|
            !(0x30 <= b <= 0x39 || b == '*' as u8 || b == '#' as u8 || b == 'a' as u8 || b
                == 'A' as u8 || b == 'b' as u8 || b == 'B' as u8 || b == 'c' as u8 || b
                == 'C' as u8) ==> #[trigger] digit_nibble(b) is None,
{
}

/// TBCD packs the digits two to an octet in order: the first of each pair in
/// the low nibble, the second in the high nibble, and a 0xF filler in the high
/// nibble after an odd last digit.
pub proof fn lemma_tbcd_nibble_order(s: Seq<u8>)
    ensures
        tbcd_encoding(s) matches Ok(b) ==> {
            &&& b.len() == (s.len() + 1) / 2
            &&& forall|j: int|
                0 <= j < b.len() ==> #[trigger] b[j] % 16 == digit_nibble(s[2 * j]).unwrap() && b[j]
                    / 16 == if 2 * j + 1 < s.len() {
                    digit_nibble(s[2 * j + 1]).unwrap()
                } else {
                    0x0Fu8
                }
        },
{
    lemma_first_non_digit(s);
    if let Ok(b) = tbcd_encoding(s) {
        let n = digit_nibbles(s);
        assert forall|j: int| 0 <= j < b.len() implies #[trigger] b[j] % 16 == digit_nibble(
            s[2 * j],
        ).unwrap() && b[j] / 16 == if 2 * j + 1 < s.len() {
            digit_nibble(s[2 * j + 1]).unwrap()
        } else {
            0x0Fu8
        } by {
            assert(2 * j < s.len());
            let low = n[2 * j];
            let high: u8 = if 2 * j + 1 < n.len() {
                n[2 * j + 1]
            } else {
                0x0Fu8
            };
            assert(digit_nibble(s[2 * j]) is Some);
            assert(low <= 0x0E);
            assert(2 * j + 1 < n.len() ==> digit_nibble(s[2 * j + 1]) is Some);
            assert(high <= 0x0F);
            assert(b[j] == (high * 16 + low) as u8);
            assert((high * 16 + low) % 16 == low && (high * 16 + low) / 16 == high && high * 16 + low
                < 256) by (nonlinear_arith)
                requires
                    low <= 0x0F,
                    high <= 0x0F,
            ;
        }
    }
}

/// Decoding reads each octet low nibble first and stops at the first filler:
/// the digits of a sequence are nothing when it is empty or opens with a
/// filler, one digit when only the high nibble of its first octet is a filler,
/// and otherwise the two digits of its first octet followed by the digits of
/// the rest.
pub proof fn lemma_tbcd_decode_order(b: Seq<u8>)
    ensures
        b.len() == 0 ==> tbcd_digits(b) == Seq::<char>::empty(),
        b.len() > 0 && b[0] % 16 == 0x0F ==> tbcd_digits(b) == Seq::<char>::empty(),
        b.len() > 0 && b[0] % 16 != 0x0F && b[0] / 16 == 0x0F ==> tbcd_digits(b) == seq![
            nibble_char(b[0] % 16),
        ],
        b.len() > 0 && b[0] % 16 != 0x0F && b[0] / 16 != 0x0F ==> tbcd_digits(b) == seq![
            nibble_char(b[0] % 16),
            nibble_char(b[0] / 16),
        ] + tbcd_digits(b.skip(1)),
{
    let n = unpack_nibbles(b);
    if b.len() == 0 {
        lemma_filler_position(n, 0);
        assert(tbcd_digits(b) =~= Seq::<char>::empty());
    } else {
        assert(n[0] == b[0] % 16 && n[1] == b[0] / 16);
        if b[0] % 16 == 0x0F {
            lemma_filler_position(n, 0);
            assert(tbcd_digits(b) =~= Seq::<char>::empty());
        } else if b[0] / 16 == 0x0F {
            lemma_filler_position(n, 1);
            assert(tbcd_digits(b) =~= seq![nibble_char(b[0] % 16)]);
        } else {
            let r = b.skip(1);
            let m = unpack_nibbles(r);
            assert forall|k: int| 0 <= k < m.len() implies #[trigger] m[k] == n[k + 2] by {
                assert(r[k / 2] == b[k / 2 + 1]);
                assert((k + 2) / 2 == k / 2 + 1 && (k + 2) % 2 == k % 2);
            }
            lemma_filler_position(m, 0);
            let q = filler_position(m) as int;
            assert forall|k: int| 0 <= k < q + 2 implies n[k] != 0x0F by {
                if k >= 2 {
                    assert(m[k - 2] == n[k]);
                }
            }
            if q < m.len() {
                assert(m[q] == n[q + 2]);
            }
            lemma_filler_position(n, q + 2);
            assert(tbcd_digits(b) =~= seq![nibble_char(b[0] % 16), nibble_char(b[0] / 16)]
                + tbcd_digits(r));
        }
    }
}


/// Encoding refuses exactly the strings with a byte outside the TBCD
/// alphabet, and names the first such byte.
pub proof fn lemma_tbcd_refusals(s: Seq<u8>)
    ensures
        tbcd_encoding(s) is Ok <==> forall|i: int| 0 <= i < s.len() ==> digit_nibble(#[trigger] s[i]) is Some,
        forall|i: int|
            0 <= i < s.len() && digit_nibble(#[trigger] s[i]) is None && (forall|k: int|
                0 <= k < i ==> digit_nibble(#[trigger] s[k]) is Some) ==> tbcd_encoding(s) == Err::<
                Seq<u8>,
                SccpError,
            >(SccpError::InvalidBcdDigit(s[i])),
{
    lemma_first_non_digit(s);
    assert forall|i: int|
        0 <= i < s.len() && digit_nibble(#[trigger] s[i]) is None && (forall|k: int|
            0 <= k < i ==> digit_nibble(#[trigger] s[k]) is Some) implies tbcd_encoding(s) == Err::<
        Seq<u8>,
        SccpError,
    >(SccpError::InvalidBcdDigit(s[i])) by {
        let b = first_non_digit(s)->Some_0;
        let j = choose|j: int|
            0 <= j < s.len() && s[j] == b && digit_nibble(b) is None && forall|k: int|
                0 <= k < j ==> digit_nibble(#[trigger] s[k]) is Some;
        if j < i {
            assert(digit_nibble(s[j]) is Some);
        } else if i < j {
            assert(digit_nibble(s[i]) is Some);
        }
    }
}

} // verus!
