//! The ways in which encoding or decoding a request can fail.

use vstd::prelude::*;

verus! {

/// Why a request could not be encoded, or a byte sequence not decoded.
#[derive(Clone, Copy, Debug, PartialEq, Eq, Structural)]
pub enum CodecError {
    /// An amount does not fit in 128 bits.
    ValueOutOfRange,
    /// The text is not `0x` followed by an even number of hexadecimal digits.
    InvalidHexEncoding,
    /// The byte length is below 32, or not 32 plus a multiple of 21.
    MalformedLength,
    /// A hop header byte sets one of its six reserved bits.
    InvalidHopHeader,
}

} // verus!
