//! Error type for SCCP encoding and decoding.

use vstd::prelude::*;

verus! {

/// Errors that can occur during SCCP message processing.
#[derive(Debug)]
pub enum SccpError {
    /// The input buffer ended before a required field could be read.
    TooShort {
        /// Number of bytes the decoder needed to be present.
        expected: usize,
        /// Number of bytes actually available.
        actual: usize,
    },
    /// The message-type octet did not match a type this codec can decode.
    InvalidMessageType(u8),
    /// The Global Title Indicator field held a value outside 0–4.
    InvalidGtIndicator(u8),
    /// An address field was structurally invalid; the string describes why.
    InvalidAddress(String),
    /// A digit could not be encoded to Telephony-BCD (not `0`–`9`, `*`, `#`, or `a`–`c`).
    InvalidBcdDigit(u8),
}

/// A result whose success value is taken by its view: how contracts compare an
/// executable result with the result a specification prescribes.
pub open spec fn view_result<T: View>(r: Result<T, SccpError>) -> Result<T::V, SccpError> {
    match r {
        Ok(v) => Ok(v@),
        Err(e) => Err(e),
    }
}

} // verus!
