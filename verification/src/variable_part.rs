//! The variable parts of the connectionless messages: the pointers, the
//! length-prefixed called / calling addresses and user data, and the optional
//! part of the extended and long forms.
//!
//! Each pointer is relative to its own position. UDT / UDTS carry three
//! one-octet pointers; XUDT / XUDTS four; LUDT / LUDTS four two-octet pointers
//! and a two-octet data length.

use vstd::prelude::*;

use crate::address::{address_decoding, lemma_address_round_trip, SccpAddress, SccpAddressView};
use crate::error::{view_result, SccpError};
use crate::octets::{append_bytes, copy_range};

verus! {

/// The encodings of the called and calling addresses, or the first error.
pub open spec fn addresses_encoding(called: SccpAddressView, calling: SccpAddressView) -> Result<
    (Seq<u8>, Seq<u8>),
    SccpError,
> {
    match called.encoding() {
        Err(e) => Err(e),
        Ok(c) => match calling.encoding() {
            Err(e) => Err(e),
            Ok(k) => Ok((c, k)),
        },
    }
}

/// A length or pointer cut to one octet.
pub open spec fn octet(v: nat) -> u8 {
    (v % 256) as u8
}

/// A length or pointer cut to two octets, least significant first.
pub open spec fn two_octets(v: nat) -> Seq<u8> {
    let w = v % 65536;
    seq![(w % 256) as u8, (w / 256) as u8]
}

/// The UDT / UDTS variable part for encoded addresses `c`, `k` and data `d`:
/// three pointers, then the three length-prefixed fields.
pub open spec fn short_variable_part(c: Seq<u8>, k: Seq<u8>, d: Seq<u8>) -> Seq<u8> {
    seq![3u8, octet(3 + c.len()), octet(3 + c.len() + k.len()), octet(c.len())] + c + seq![
        octet(k.len()),
    ] + k + seq![octet(d.len())] + d
}

/// The XUDT / XUDTS variable part: four pointers (the optional one 0 when
/// there is no optional part), the three length-prefixed fields, then the
/// raw optional part.
pub open spec fn extended_variable_part(c: Seq<u8>, k: Seq<u8>, d: Seq<u8>, o: Seq<u8>) -> Seq<u8> {
    seq![
        4u8,
        octet(4 + c.len()),
        octet(4 + c.len() + k.len()),
        if o.len() == 0 {
            0u8
        } else {
            octet(4 + c.len() + k.len() + d.len())
        },
        octet(c.len()),
    ] + c + seq![octet(k.len())] + k + seq![octet(d.len())] + d + o
}

/// The LUDT / LUDTS variable part: four two-octet pointers, the addresses
/// with one-octet lengths, the data with a two-octet length, then the raw
/// optional part.
pub open spec fn long_variable_part(c: Seq<u8>, k: Seq<u8>, d: Seq<u8>, o: Seq<u8>) -> Seq<u8> {
    two_octets(7) + two_octets(6 + c.len()) + two_octets(5 + c.len() + k.len()) + two_octets(
        if o.len() == 0 {
            0
        } else {
            5 + c.len() + k.len() + d.len()
        },
    ) + seq![octet(c.len())] + c + seq![octet(k.len())] + k + two_octets(d.len()) + d + o
}

/// The UDT / UDTS variable part of two addresses and data, or the error from
/// encoding an address.
pub open spec fn short_variable_part_encoding(
    called: SccpAddressView,
    calling: SccpAddressView,
    data: Seq<u8>,
) -> Result<Seq<u8>, SccpError> {
    match addresses_encoding(called, calling) {
        Err(e) => Err(e),
        Ok((c, k)) => Ok(short_variable_part(c, k, data)),
    }
}

/// The XUDT / XUDTS variable part, or the error from encoding an address.
pub open spec fn extended_variable_part_encoding(
    called: SccpAddressView,
    calling: SccpAddressView,
    data: Seq<u8>,
    optional: Seq<u8>,
) -> Result<Seq<u8>, SccpError> {
    match addresses_encoding(called, calling) {
        Err(e) => Err(e),
        Ok((c, k)) => Ok(extended_variable_part(c, k, data, optional)),
    }
}

/// The LUDT / LUDTS variable part, or the error from encoding an address.
pub open spec fn long_variable_part_encoding(
    called: SccpAddressView,
    calling: SccpAddressView,
    data: Seq<u8>,
    optional: Seq<u8>,
) -> Result<Seq<u8>, SccpError> {
    match addresses_encoding(called, calling) {
        Err(e) => Err(e),
        Ok((c, k)) => Ok(long_variable_part(c, k, data, optional)),
    }
}

/// Where the payload of the one-octet-length-prefixed field at `offset`
/// starts and how long it is, or the error when the length octet or the
/// payload runs past the end.
pub open spec fn prefixed_bounds(bytes: Seq<u8>, offset: int) -> Result<(int, int), SccpError> {
    if offset >= bytes.len() {
        Err(SccpError::TooShort { expected: (offset + 1) as usize, actual: bytes.len() as usize })
    } else {
        let len = bytes[offset] as int;
        if offset + 1 + len > bytes.len() {
            Err(
                SccpError::TooShort {
                    expected: (offset + 1 + len) as usize,
                    actual: bytes.len() as usize,
                },
            )
        } else {
            Ok((offset + 1, len))
        }
    }
}

/// The address in the length-prefixed field at `offset`.
pub open spec fn prefixed_address(bytes: Seq<u8>, offset: int) -> Result<SccpAddressView, SccpError> {
    match prefixed_bounds(bytes, offset) {
        Err(e) => Err(e),
        Ok((start, len)) => address_decoding(bytes.subrange(start, start + len)),
    }
}

/// The payload of the length-prefixed field at `offset`.
pub open spec fn prefixed_data(bytes: Seq<u8>, offset: int) -> Result<Seq<u8>, SccpError> {
    match prefixed_bounds(bytes, offset) {
        Err(e) => Err(e),
        Ok((start, len)) => Ok(bytes.subrange(start, start + len)),
    }
}

/// The two-octet little-endian value at `offset`.
pub open spec fn le16_at(bytes: Seq<u8>, offset: int) -> int {
    bytes[offset] + 256 * bytes[offset + 1]
}

/// The two-octet little-endian value at `offset`, or the error when it runs
/// past the end.
pub open spec fn le16_reading(bytes: Seq<u8>, offset: int) -> Result<int, SccpError> {
    if offset + 2 > bytes.len() {
        Err(SccpError::TooShort { expected: (offset + 2) as usize, actual: bytes.len() as usize })
    } else {
        Ok(le16_at(bytes, offset))
    }
}

/// Bounds of the payload of the two-octet-length-prefixed field at `offset`.
pub open spec fn long_prefixed_bounds(bytes: Seq<u8>, offset: int) -> Result<(int, int), SccpError> {
    match le16_reading(bytes, offset) {
        Err(e) => Err(e),
        Ok(len) => if offset + 2 + len > bytes.len() {
            Err(
                SccpError::TooShort {
                    expected: (offset + 2 + len) as usize,
                    actual: bytes.len() as usize,
                },
            )
        } else {
            Ok((offset + 2, len))
        },
    }
}

/// The called / calling addresses and data of a three-pointer variable part
/// whose pointers start at `base`.
pub open spec fn short_variable_part_decoding(bytes: Seq<u8>, base: int) -> Result<
    (SccpAddressView, SccpAddressView, Seq<u8>),
    SccpError,
> {
    if bytes.len() < base + 3 {
        Err(SccpError::TooShort { expected: (base + 3) as usize, actual: bytes.len() as usize })
    } else {
        match prefixed_address(bytes, base + bytes[base]) {
            Err(e) => Err(e),
            Ok(called) => match prefixed_address(bytes, base + 1 + bytes[base + 1]) {
                Err(e) => Err(e),
                Ok(calling) => match prefixed_data(bytes, base + 2 + bytes[base + 2]) {
                    Err(e) => Err(e),
                    Ok(data) => Ok((called, calling, data)),
                },
            },
        }
    }
}

/// The optional part addressed by pointer value `ptr` whose octet is at
/// `at`: empty for a zero pointer, else everything from its target on.
pub open spec fn optional_part_at(bytes: Seq<u8>, at: int, ptr: int) -> Result<Seq<u8>, SccpError> {
    if ptr == 0 {
        Ok(Seq::empty())
    } else if at + ptr > bytes.len() {
        Err(SccpError::TooShort { expected: (at + ptr) as usize, actual: bytes.len() as usize })
    } else {
        Ok(bytes.skip(at + ptr))
    }
}

/// The called / calling addresses, data and optional part of a four-pointer
/// variable part whose pointers start at `base`.
pub open spec fn extended_variable_part_decoding(bytes: Seq<u8>, base: int) -> Result<
    (SccpAddressView, SccpAddressView, Seq<u8>, Seq<u8>),
    SccpError,
> {
    if bytes.len() < base + 4 {
        Err(SccpError::TooShort { expected: (base + 4) as usize, actual: bytes.len() as usize })
    } else {
        match short_variable_part_decoding(bytes, base) {
            Err(e) => Err(e),
            Ok((called, calling, data)) => match optional_part_at(
                bytes,
                base + 3,
                bytes[base + 3] as int,
            ) {
                Err(e) => Err(e),
                Ok(optional) => Ok((called, calling, data, optional)),
            },
        }
    }
}

/// The called / calling addresses, data and optional part of a whole LUDT /
/// LUDTS message, whose two-octet pointers sit at octets 3, 5, 7 and 9.
pub open spec fn long_variable_part_decoding(bytes: Seq<u8>) -> Result<
    (SccpAddressView, SccpAddressView, Seq<u8>, Seq<u8>),
    SccpError,
> {
    if bytes.len() < 11 {
        Err(SccpError::TooShort { expected: 11, actual: bytes.len() as usize })
    } else {
        match prefixed_address(bytes, 4 + le16_at(bytes, 3)) {
            Err(e) => Err(e),
            Ok(called) => match prefixed_address(bytes, 6 + le16_at(bytes, 5)) {
                Err(e) => Err(e),
                Ok(calling) => match long_prefixed_bounds(bytes, 8 + le16_at(bytes, 7)) {
                    Err(e) => Err(e),
                    Ok((start, len)) => match optional_part_at(bytes, 10, le16_at(bytes, 9)) {
                        Err(e) => Err(e),
                        Ok(optional) => Ok(
                            (called, calling, bytes.subrange(start, start + len), optional),
                        ),
                    },
                },
            },
        }
    }
}

/// Validate a length-prefixed field at `offset` and return `(start, len)` of its
/// payload, erroring if either the length byte or the payload runs past the end.
fn length_prefixed_bounds(bytes: &[u8], offset: usize) -> (r: Result<(usize, usize), SccpError>)
    requires
        offset <= 0x20000,
    ensures
        match r {
            Ok((start, len)) => prefixed_bounds(bytes@, offset as int) == Ok::<(int, int), SccpError>(
                (start as int, len as int),
            ),
            Err(e) => prefixed_bounds(bytes@, offset as int) == Err::<(int, int), SccpError>(e),
        },
{
    if offset >= bytes.len() {
        return Err(SccpError::TooShort { expected: offset + 1, actual: bytes.len() });
    }
    let len = bytes[offset] as usize;
    let start = offset + 1;
    if start + len > bytes.len() {
        return Err(SccpError::TooShort { expected: start + len, actual: bytes.len() });
    }
    Ok((start, len))
}

fn decode_length_prefixed_address(bytes: &[u8], offset: usize) -> (r: Result<SccpAddress, SccpError>)
    requires
        offset <= 0x20000,
    ensures
        match r {
            Ok(a) => prefixed_address(bytes@, offset as int) == Ok::<SccpAddressView, SccpError>(a@),
            Err(e) => prefixed_address(bytes@, offset as int) == Err::<SccpAddressView, SccpError>(e),
        },
{
    let (start, len) = match length_prefixed_bounds(bytes, offset) {
        Ok(b) => b,
        Err(e) => {
            return Err(e);
        },
    };
    SccpAddress::decode(vstd::slice::slice_subrange(bytes, start, start + len))
}

fn decode_length_prefixed_data(bytes: &[u8], offset: usize) -> (r: Result<Vec<u8>, SccpError>)
    requires
        offset <= 0x20000,
    ensures
        match r {
            Ok(d) => prefixed_data(bytes@, offset as int) == Ok::<Seq<u8>, SccpError>(d@),
            Err(e) => prefixed_data(bytes@, offset as int) == Err::<Seq<u8>, SccpError>(e),
        },
{
    let (start, len) = match length_prefixed_bounds(bytes, offset) {
        Ok(b) => b,
        Err(e) => {
            return Err(e);
        },
    };
    Ok(copy_range(bytes, start, start + len))
}

/// Decode the three-pointer variable part shared by UDT and UDTS:
/// `[ptr_called, ptr_calling, ptr_data]` starting at `base`, where each pointer
/// is relative to its own position. Returns the two addresses and the data.
pub(crate) fn decode_variable_part(bytes: &[u8], base: usize) -> (r: Result<
    (SccpAddress, SccpAddress, Vec<u8>),
    SccpError,
>)
    requires
        base <= 3,
    ensures
        match r {
            Ok((a, b, d)) => short_variable_part_decoding(bytes@, base as int) == Ok::<
                (SccpAddressView, SccpAddressView, Seq<u8>),
                SccpError,
            >((a@, b@, d@)),
            Err(e) => short_variable_part_decoding(bytes@, base as int) == Err::<
                (SccpAddressView, SccpAddressView, Seq<u8>),
                SccpError,
            >(e),
        },
{
    // Three pointers occupy bytes[base..base+3].
    if bytes.len() < base + 3 {
        return Err(SccpError::TooShort { expected: base + 3, actual: bytes.len() });
    }
    let ptr_called = bytes[base] as usize;
    let ptr_calling = bytes[base + 1] as usize;
    let ptr_data = bytes[base + 2] as usize;

    // Each pointer is relative to its own position.
    let called_offset = base + ptr_called;
    let calling_offset = base + 1 + ptr_calling;
    let data_offset = base + 2 + ptr_data;

    let called_party = match decode_length_prefixed_address(bytes, called_offset) {
        Ok(a) => a,
        Err(e) => {
            return Err(e);
        },
    };
    let calling_party = match decode_length_prefixed_address(bytes, calling_offset) {
        Ok(a) => a,
        Err(e) => {
            return Err(e);
        },
    };
    let data = match decode_length_prefixed_data(bytes, data_offset) {
        Ok(d) => d,
        Err(e) => {
            return Err(e);
        },
    };
    Ok((called_party, calling_party, data))
}

/// Encode the called and calling addresses.
fn encode_addresses(called: &SccpAddress, calling: &SccpAddress) -> (r: Result<
    (Vec<u8>, Vec<u8>),
    SccpError,
>)
    ensures
        match r {
            Ok((c, k)) => addresses_encoding(called@, calling@) == Ok::<
                (Seq<u8>, Seq<u8>),
                SccpError,
            >((c@, k@)),
            Err(e) => addresses_encoding(called@, calling@) == Err::<(Seq<u8>, Seq<u8>), SccpError>(
                e,
            ),
        },
{
    let called_bytes = match called.encode() {
        Ok(b) => b,
        Err(e) => {
            return Err(e);
        },
    };
    let calling_bytes = match calling.encode() {
        Ok(b) => b,
        Err(e) => {
            return Err(e);
        },
    };
    Ok((called_bytes, calling_bytes))
}

/// The octet of a length or pointer sum, computed without overflow.
fn octet_of_sum(a: usize, b: usize, c: usize, k: usize) -> (r: u8)
    requires
        k < 256,
    ensures
        r == octet((a + b + c + k) as nat),
{
    ((a as u128 + b as u128 + c as u128 + k as u128) % 256) as u8
}

/// Append a length or pointer sum cut to two octets, least significant first.
fn push_two_octets(buf: &mut Vec<u8>, a: usize, b: usize, c: usize, k: usize)
    requires
        k < 65536,
    ensures
        final(buf)@ == old(buf)@ + two_octets((a + b + c + k) as nat),
{
    let v = (a as u128 + b as u128 + c as u128 + k as u128) % 65536;
    buf.push((v % 256) as u8);
    buf.push((v / 256) as u8);
    assert(buf@ =~= old(buf)@ + two_octets((a + b + c + k) as nat));
}

/// Encode the three-pointer variable part (called / calling / data), returning
/// the pointer bytes followed by the length-prefixed fields.
pub(crate) fn encode_variable_part(called: &SccpAddress, calling: &SccpAddress, data: &[u8]) -> (r:
    Result<Vec<u8>, SccpError>)
    ensures
        view_result(r) == short_variable_part_encoding(called@, calling@, data@),
{
    let (called_bytes, calling_bytes) = match encode_addresses(called, calling) {
        Ok(p) => p,
        Err(e) => {
            return Err(e);
        },
    };
    let c = called_bytes.len();
    let k = calling_bytes.len();

    // Pointers are relative to their own position; the three pointer bytes are
    // followed immediately by the called-address length byte.
    let mut buf = vec![3u8, octet_of_sum(c, 0, 0, 3), octet_of_sum(c, k, 0, 3), octet_of_sum(c, 0, 0, 0)];
    append_bytes(&mut buf, called_bytes.as_slice());
    buf.push(octet_of_sum(k, 0, 0, 0));
    append_bytes(&mut buf, calling_bytes.as_slice());
    buf.push(octet_of_sum(data.len(), 0, 0, 0));
    append_bytes(&mut buf, data);
    assert(buf@ =~= short_variable_part(called_bytes@, calling_bytes@, data@));
    Ok(buf)
}

/// Decode the XUDT/XUDTS variable part at `base` (the first pointer octet):
/// called, calling and data via the shared three-pointer decode, plus the raw
/// optional part addressed by a fourth pointer at `base + 3` (empty when that
/// pointer is 0). The optional part runs to the end of the message; it is kept
/// opaque so a transiting node preserves segmentation/importance verbatim.
pub(crate) fn decode_extended_variable_part(bytes: &[u8], base: usize) -> (r: Result<
    (SccpAddress, SccpAddress, Vec<u8>, Vec<u8>),
    SccpError,
>)
    requires
        base <= 3,
    ensures
        match r {
            Ok((a, b, d, o)) => extended_variable_part_decoding(bytes@, base as int) == Ok::<
                (SccpAddressView, SccpAddressView, Seq<u8>, Seq<u8>),
                SccpError,
            >((a@, b@, d@, o@)),
            Err(e) => extended_variable_part_decoding(bytes@, base as int) == Err::<
                (SccpAddressView, SccpAddressView, Seq<u8>, Seq<u8>),
                SccpError,
            >(e),
        },
{
    if bytes.len() < base + 4 {
        return Err(SccpError::TooShort { expected: base + 4, actual: bytes.len() });
    }
    let (called_party, calling_party, data) = match decode_variable_part(bytes, base) {
        Ok(t) => t,
        Err(e) => {
            return Err(e);
        },
    };

    // Fourth pointer (optional part), relative to its own octet at base + 3.
    let ptr_optional = bytes[base + 3] as usize;
    let optional_part = if ptr_optional == 0 {
        Vec::new()
    } else {
        let offset = base + 3 + ptr_optional;
        if offset > bytes.len() {
            return Err(SccpError::TooShort { expected: offset, actual: bytes.len() });
        }
        copy_range(bytes, offset, bytes.len())
    };
    assert(optional_part@ =~= optional_part_at(bytes@, base + 3, ptr_optional as int)->Ok_0);
    Ok((called_party, calling_party, data, optional_part))
}

/// Encode the XUDT/XUDTS variable part: four one-octet pointers (called,
/// calling, data, optional) followed by the length-prefixed mandatory parts and
/// the raw optional part. The optional pointer is 0 when there is no optional
/// part. Each pointer is relative to its own octet.
pub(crate) fn encode_extended_variable_part(
    called: &SccpAddress,
    calling: &SccpAddress,
    data: &[u8],
    optional: &[u8],
) -> (r: Result<Vec<u8>, SccpError>)
    ensures
        view_result(r) == extended_variable_part_encoding(called@, calling@, data@, optional@),
{
    let (called_bytes, calling_bytes) = match encode_addresses(called, calling) {
        Ok(p) => p,
        Err(e) => {
            return Err(e);
        },
    };
    let c = called_bytes.len();
    let k = calling_bytes.len();
    let d = data.len();

    // Four pointer octets precede the called-address length byte, so the called
    // pointer is 4; each subsequent pointer steps past the prior length-prefixed
    // field. The optional pointer is relative to the fourth pointer octet.
    let ptr_optional = if optional.len() == 0 {
        0u8
    } else {
        octet_of_sum(c, k, d, 4)
    };
    let mut buf = vec![
        4u8,
        octet_of_sum(c, 0, 0, 4),
        octet_of_sum(c, k, 0, 4),
        ptr_optional,
        octet_of_sum(c, 0, 0, 0),
    ];
    append_bytes(&mut buf, called_bytes.as_slice());
    buf.push(octet_of_sum(k, 0, 0, 0));
    append_bytes(&mut buf, calling_bytes.as_slice());
    buf.push(octet_of_sum(d, 0, 0, 0));
    append_bytes(&mut buf, data);
    append_bytes(&mut buf, optional);
    assert(buf@ =~= extended_variable_part(called_bytes@, calling_bytes@, data@, optional@));
    Ok(buf)
}

/// Read a two-octet little-endian field at `offset`, bounds-checked.
fn read_le16(bytes: &[u8], offset: usize) -> (r: Result<usize, SccpError>)
    requires
        offset <= 0x20000,
    ensures
        match r {
            Ok(v) => le16_reading(bytes@, offset as int) == Ok::<int, SccpError>(v as int),
            Err(e) => le16_reading(bytes@, offset as int) == Err::<int, SccpError>(e),
        },
{
    if offset + 2 > bytes.len() {
        return Err(SccpError::TooShort { expected: offset + 2, actual: bytes.len() });
    }
    Ok(bytes[offset] as usize + 256 * (bytes[offset + 1] as usize))
}

/// Validate a two-octet-length-prefixed field (the LUDT long data) at `offset`,
/// returning `(start, len)` of its payload.
fn long_length_prefixed_bounds(bytes: &[u8], offset: usize) -> (r: Result<(usize, usize), SccpError>)
    requires
        offset <= 0x20000,
    ensures
        match r {
            Ok((start, len)) => long_prefixed_bounds(bytes@, offset as int) == Ok::<
                (int, int),
                SccpError,
            >((start as int, len as int)),
            Err(e) => long_prefixed_bounds(bytes@, offset as int) == Err::<(int, int), SccpError>(e),
        },
{
    let len = match read_le16(bytes, offset) {
        Ok(l) => l,
        Err(e) => {
            return Err(e);
        },
    };
    let start = offset + 2;
    if start + len > bytes.len() {
        return Err(SccpError::TooShort { expected: start + len, actual: bytes.len() });
    }
    Ok((start, len))
}

/// Decode the LUDT/LUDTS variable part of a full message (the mandatory part
/// begins at octet 11, after the 3-octet header and four two-octet pointers).
/// Addresses carry a one-octet length indicator; the long data carries a
/// two-octet little-endian one. Each pointer is relative to the octet following
/// its own first octet, per ITU-T Q.713 §4.3.
pub(crate) fn decode_long_variable_part(bytes: &[u8]) -> (r: Result<
    (SccpAddress, SccpAddress, Vec<u8>, Vec<u8>),
    SccpError,
>)
    ensures
        match r {
            Ok((a, b, d, o)) => long_variable_part_decoding(bytes@) == Ok::<
                (SccpAddressView, SccpAddressView, Seq<u8>, Seq<u8>),
                SccpError,
            >((a@, b@, d@, o@)),
            Err(e) => long_variable_part_decoding(bytes@) == Err::<
                (SccpAddressView, SccpAddressView, Seq<u8>, Seq<u8>),
                SccpError,
            >(e),
        },
{
    if bytes.len() < 11 {
        return Err(SccpError::TooShort { expected: 11, actual: bytes.len() });
    }
    let ptr_called = match read_le16(bytes, 3) {
        Ok(p) => p,
        Err(e) => {
            return Err(e);
        },
    };
    let ptr_calling = match read_le16(bytes, 5) {
        Ok(p) => p,
        Err(e) => {
            return Err(e);
        },
    };
    let ptr_data = match read_le16(bytes, 7) {
        Ok(p) => p,
        Err(e) => {
            return Err(e);
        },
    };
    let ptr_optional = match read_le16(bytes, 9) {
        Ok(p) => p,
        Err(e) => {
            return Err(e);
        },
    };

    let called_party = match decode_length_prefixed_address(bytes, 4 + ptr_called) {
        Ok(a) => a,
        Err(e) => {
            return Err(e);
        },
    };
    let calling_party = match decode_length_prefixed_address(bytes, 6 + ptr_calling) {
        Ok(a) => a,
        Err(e) => {
            return Err(e);
        },
    };
    let (data_start, data_len) = match long_length_prefixed_bounds(bytes, 8 + ptr_data) {
        Ok(b) => b,
        Err(e) => {
            return Err(e);
        },
    };
    let data = copy_range(bytes, data_start, data_start + data_len);

    let optional_part = if ptr_optional == 0 {
        Vec::new()
    } else {
        let offset = 10 + ptr_optional;
        if offset > bytes.len() {
            return Err(SccpError::TooShort { expected: offset, actual: bytes.len() });
        }
        copy_range(bytes, offset, bytes.len())
    };
    assert(optional_part@ =~= optional_part_at(bytes@, 10, ptr_optional as int)->Ok_0);
    Ok((called_party, calling_party, data, optional_part))
}

/// Encode the LUDT/LUDTS variable part: four two-octet little-endian pointers
/// (called, calling, long data, optional), a one-octet length indicator on each
/// address, a two-octet length indicator on the long data, then the raw optional
/// part. The optional pointer is 0 when there is no optional part.
pub(crate) fn encode_long_variable_part(
    called: &SccpAddress,
    calling: &SccpAddress,
    data: &[u8],
    optional: &[u8],
) -> (r: Result<Vec<u8>, SccpError>)
    ensures
        view_result(r) == long_variable_part_encoding(called@, calling@, data@, optional@),
{
    let (called_bytes, calling_bytes) = match encode_addresses(called, calling) {
        Ok(p) => p,
        Err(e) => {
            return Err(e);
        },
    };
    let c = called_bytes.len();
    let k = calling_bytes.len();
    let d = data.len();

    // Pointer value = target offset - (pointer-field offset + 1), with the
    // mandatory part starting at octet 11.
    let mut buf: Vec<u8> = Vec::new();
    push_two_octets(&mut buf, 0, 0, 0, 7);
    push_two_octets(&mut buf, c, 0, 0, 6);
    push_two_octets(&mut buf, c, k, 0, 5);
    if optional.len() == 0 {
        push_two_octets(&mut buf, 0, 0, 0, 0);
    } else {
        push_two_octets(&mut buf, c, k, d, 5);
    }
    buf.push(octet_of_sum(c, 0, 0, 0));
    append_bytes(&mut buf, called_bytes.as_slice());
    buf.push(octet_of_sum(k, 0, 0, 0));
    append_bytes(&mut buf, calling_bytes.as_slice());
    push_two_octets(&mut buf, d, 0, 0, 0);
    append_bytes(&mut buf, data);
    append_bytes(&mut buf, optional);
    assert(buf@ =~= long_variable_part(called_bytes@, calling_bytes@, data@, optional@));
    Ok(buf)
}

/// A length-prefixed field whose length octet at `offset` matches its
/// payload reads back as that payload.
proof fn lemma_prefixed_field(b: Seq<u8>, offset: int, payload: Seq<u8>)
    requires
        0 <= offset,
        offset + 1 + payload.len() <= b.len(),
        b[offset] == payload.len(),
        b.subrange(offset + 1, offset + 1 + payload.len()) == payload,
    ensures
        prefixed_data(b, offset) == Ok::<Seq<u8>, SccpError>(payload),
        prefixed_address(b, offset) == address_decoding(payload),
{
}

/// Where the fields of a three-pointer variable part stand after a header.
pub(crate) proof fn lemma_short_layout(prefix: Seq<u8>, c: Seq<u8>, k: Seq<u8>, data: Seq<u8>)
    requires
        3 + c.len() + k.len() <= 255,
        data.len() <= 255,
    ensures
        ({
            let b = prefix + short_variable_part(c, k, data);
            let base = prefix.len() as int;
            let (cl, kl, dl) = (c.len() as int, k.len() as int, data.len() as int);
            &&& b.len() == base + 6 + cl + kl + dl
            &&& b[base] == 3
            &&& b[base + 1] == 3 + cl
            &&& b[base + 2] == 3 + cl + kl
            &&& b[base + 3] == cl
            &&& b.subrange(base + 4, base + 4 + cl) == c
            &&& b[base + 4 + cl] == kl
            &&& b.subrange(base + 5 + cl, base + 5 + cl + kl) == k
            &&& b[base + 5 + cl + kl] == dl
            &&& b.subrange(base + 6 + cl + kl, base + 6 + cl + kl + dl) == data
        }),
{
    let b = prefix + short_variable_part(c, k, data);
    let base = prefix.len() as int;
    let (cl, kl, dl) = (c.len() as int, k.len() as int, data.len() as int);
    assert(b.subrange(base + 4, base + 4 + cl) =~= c);
    assert(b.subrange(base + 5 + cl, base + 5 + cl + kl) =~= k);
    assert(b.subrange(base + 6 + cl + kl, base + 6 + cl + kl + dl) =~= data);
}

/// Decoding a three-pointer variable part, placed after a header of up to
/// three octets, gives back the addresses (normalized) and the data, when its
/// pointers and lengths fit in their octets.
pub proof fn lemma_short_variable_part_round_trip(
    prefix: Seq<u8>,
    called: SccpAddressView,
    calling: SccpAddressView,
    data: Seq<u8>,
)
    requires
        prefix.len() <= 3,
        addresses_encoding(called, calling) matches Ok((c, k)) ==> 3 + c.len() + k.len() <= 255
            && data.len() <= 255,
    ensures
        short_variable_part_encoding(called, calling, data) matches Ok(v)
            ==> short_variable_part_decoding(prefix + v, prefix.len() as int) == Ok::<
            (SccpAddressView, SccpAddressView, Seq<u8>),
            SccpError,
        >((called.normalized(), calling.normalized(), data)),
{
    if let Ok((c, k)) = addresses_encoding(called, calling) {
        lemma_address_round_trip(called);
        lemma_address_round_trip(calling);
        let b = prefix + short_variable_part(c, k, data);
        let base = prefix.len() as int;
        let (cl, kl) = (c.len() as int, k.len() as int);
        lemma_short_layout(prefix, c, k, data);
        lemma_prefixed_field(b, base + 3, c);
        lemma_prefixed_field(b, base + 4 + cl, k);
        lemma_prefixed_field(b, base + 5 + cl + kl, data);
    }
}

/// Where the fields of a four-pointer variable part stand after a header.
pub(crate) proof fn lemma_extended_layout(prefix: Seq<u8>, c: Seq<u8>, k: Seq<u8>, data: Seq<u8>, optional: Seq<u8>)
    requires
        4 + c.len() + k.len() <= 255,
        data.len() <= 255,
        optional.len() > 0 ==> 4 + c.len() + k.len() + data.len() <= 255,
    ensures
        ({
            let b = prefix + extended_variable_part(c, k, data, optional);
            let base = prefix.len() as int;
            let (cl, kl, dl) = (c.len() as int, k.len() as int, data.len() as int);
            let end = base + 7 + cl + kl + dl;
            &&& b.len() == end + optional.len()
            &&& b[base] == 4
            &&& b[base + 1] == 4 + cl
            &&& b[base + 2] == 4 + cl + kl
            &&& b[base + 3] == (if optional.len() == 0 {
                0
            } else {
                4 + cl + kl + dl
            })
            &&& b[base + 4] == cl
            &&& b.subrange(base + 5, base + 5 + cl) == c
            &&& b[base + 5 + cl] == kl
            &&& b.subrange(base + 6 + cl, base + 6 + cl + kl) == k
            &&& b[base + 6 + cl + kl] == dl
            &&& b.subrange(base + 7 + cl + kl, end) == data
            &&& b.skip(end) == optional
        }),
{
    let b = prefix + extended_variable_part(c, k, data, optional);
    let base = prefix.len() as int;
    let (cl, kl, dl) = (c.len() as int, k.len() as int, data.len() as int);
    let end = base + 7 + cl + kl + dl;
    assert(b.subrange(base + 5, base + 5 + cl) =~= c);
    assert(b.subrange(base + 6 + cl, base + 6 + cl + kl) =~= k);
    assert(b.subrange(base + 7 + cl + kl, end) =~= data);
    assert(b.skip(end) =~= optional);
}

/// Decoding a four-pointer variable part, placed after a header of up to
/// three octets, gives back the addresses (normalized), the data and the
/// optional part, when its pointers and lengths fit in their octets.
pub proof fn lemma_extended_variable_part_round_trip(
    prefix: Seq<u8>,
    called: SccpAddressView,
    calling: SccpAddressView,
    data: Seq<u8>,
    optional: Seq<u8>,
)
    requires
        prefix.len() <= 3,
        addresses_encoding(called, calling) matches Ok((c, k)) ==> {
            &&& 4 + c.len() + k.len() <= 255
            &&& data.len() <= 255
            &&& optional.len() > 0 ==> 4 + c.len() + k.len() + data.len() <= 255
        },
    ensures
        extended_variable_part_encoding(called, calling, data, optional) matches Ok(v)
            ==> extended_variable_part_decoding(prefix + v, prefix.len() as int) == Ok::<
            (SccpAddressView, SccpAddressView, Seq<u8>, Seq<u8>),
            SccpError,
        >((called.normalized(), calling.normalized(), data, optional)),
{
    if let Ok((c, k)) = addresses_encoding(called, calling) {
        lemma_address_round_trip(called);
        lemma_address_round_trip(calling);
        let b = prefix + extended_variable_part(c, k, data, optional);
        let base = prefix.len() as int;
        let (cl, kl) = (c.len() as int, k.len() as int);
        lemma_extended_layout(prefix, c, k, data, optional);
        lemma_prefixed_field(b, base + 4, c);
        lemma_prefixed_field(b, base + 5 + cl, k);
        lemma_prefixed_field(b, base + 6 + cl + kl, data);
        assert(short_variable_part_decoding(b, base) == Ok::<
            (SccpAddressView, SccpAddressView, Seq<u8>),
            SccpError,
        >((called.normalized(), calling.normalized(), data)));
        if optional.len() == 0 {
            assert(optional =~= Seq::<u8>::empty());
        }
        assert(optional_part_at(b, base + 3, b[base + 3] as int) == Ok::<Seq<u8>, SccpError>(
            optional,
        ));
    }
}

/// The value of two octets written least significant first.
pub(crate) proof fn lemma_two_octets(s: Seq<u8>, at: int, v: nat)
    requires
        v < 65536,
        0 <= at,
        at + 2 <= s.len(),
        s.subrange(at, at + 2) == two_octets(v),
    ensures
        le16_at(s, at) == v,
{
    assert(s[at] == s.subrange(at, at + 2)[0]);
    assert(s[at + 1] == s.subrange(at, at + 2)[1]);
}

/// Where the fields of a two-octet-pointer variable part stand after the
/// three-octet header.
pub(crate) proof fn lemma_long_layout(prefix: Seq<u8>, c: Seq<u8>, k: Seq<u8>, data: Seq<u8>, optional: Seq<u8>)
    requires
        prefix.len() == 3,
    ensures
        ({
            let b = prefix + long_variable_part(c, k, data, optional);
            let (cl, kl, dl) = (c.len() as int, k.len() as int, data.len() as int);
            let po: nat = if optional.len() == 0 {
                0
            } else {
                (5 + cl + kl + dl) as nat
            };
            let end = 15 + cl + kl + dl;
            &&& b.len() == end + optional.len()
            &&& b.subrange(3, 5) == two_octets(7)
            &&& b.subrange(5, 7) == two_octets((6 + cl) as nat)
            &&& b.subrange(7, 9) == two_octets((5 + cl + kl) as nat)
            &&& b.subrange(9, 11) == two_octets(po)
            &&& b[11] == octet(c.len())
            &&& b.subrange(12, 12 + cl) == c
            &&& b[12 + cl] == octet(k.len())
            &&& b.subrange(13 + cl, 13 + cl + kl) == k
            &&& b.subrange(13 + cl + kl, 15 + cl + kl) == two_octets(dl as nat)
            &&& b.subrange(15 + cl + kl, end) == data
            &&& b.skip(end) == optional
        }),
{
    let b = prefix + long_variable_part(c, k, data, optional);
    let (cl, kl, dl) = (c.len() as int, k.len() as int, data.len() as int);
    let po: nat = if optional.len() == 0 {
        0
    } else {
        (5 + cl + kl + dl) as nat
    };
    let end = 15 + cl + kl + dl;
    assert(b.subrange(3, 5) =~= two_octets(7));
    assert(b.subrange(5, 7) =~= two_octets((6 + cl) as nat));
    assert(b.subrange(7, 9) =~= two_octets((5 + cl + kl) as nat));
    assert(b.subrange(9, 11) =~= two_octets(po));
    assert(b.subrange(12, 12 + cl) =~= c);
    assert(b.subrange(13 + cl, 13 + cl + kl) =~= k);
    assert(b.subrange(13 + cl + kl, 15 + cl + kl) =~= two_octets(dl as nat));
    assert(b.subrange(15 + cl + kl, end) =~= data);
    assert(b.skip(end) =~= optional);
}

/// Decoding an LUDT / LUDTS whose variable part follows a three-octet
/// header gives back the addresses (normalized), the data and the optional
/// part, when the address lengths fit in one octet and the data length and
/// pointers in two.
#[verifier::rlimit(60)]
#[verifier::spinoff_prover]
pub proof fn lemma_long_variable_part_round_trip(
    prefix: Seq<u8>,
    called: SccpAddressView,
    calling: SccpAddressView,
    data: Seq<u8>,
    optional: Seq<u8>,
)
    requires
        prefix.len() == 3,
        addresses_encoding(called, calling) matches Ok((c, k)) ==> {
            &&& c.len() <= 255
            &&& k.len() <= 255
            &&& data.len() <= 65535
            &&& optional.len() > 0 ==> 5 + c.len() + k.len() + data.len() <= 65535
        },
    ensures
        long_variable_part_encoding(called, calling, data, optional) matches Ok(v)
            ==> long_variable_part_decoding(prefix + v) == Ok::<
            (SccpAddressView, SccpAddressView, Seq<u8>, Seq<u8>),
            SccpError,
        >((called.normalized(), calling.normalized(), data, optional)),
{
    if let Ok((c, k)) = addresses_encoding(called, calling) {
        lemma_address_round_trip(called);
        lemma_address_round_trip(calling);
        let b = prefix + long_variable_part(c, k, data, optional);
        let (cl, kl, dl) = (c.len() as int, k.len() as int, data.len() as int);
        let po: nat = if optional.len() == 0 {
            0
        } else {
            (5 + cl + kl + dl) as nat
        };
        lemma_long_layout(prefix, c, k, data, optional);
        lemma_two_octets(b, 3, 7);
        lemma_two_octets(b, 5, (6 + cl) as nat);
        lemma_two_octets(b, 7, (5 + cl + kl) as nat);
        lemma_two_octets(b, 9, po);
        lemma_two_octets(b, 13 + cl + kl, dl as nat);
        lemma_prefixed_field(b, 11, c);
        lemma_prefixed_field(b, 12 + cl, k);
        assert(long_prefixed_bounds(b, 13 + cl + kl) == Ok::<(int, int), SccpError>(
            (15 + cl + kl, dl),
        ));
        if optional.len() == 0 {
            assert(optional =~= Seq::<u8>::empty());
        }
        assert(optional_part_at(b, 10, le16_at(b, 9)) == Ok::<Seq<u8>, SccpError>(optional));
        assert(prefixed_address(b, 4 + le16_at(b, 3)) == Ok::<SccpAddressView, SccpError>(
            called.normalized(),
        ));
        assert(prefixed_address(b, 6 + le16_at(b, 5)) == Ok::<SccpAddressView, SccpError>(
            calling.normalized(),
        ));
    }
}

} // verus!
