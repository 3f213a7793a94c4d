use vstd::prelude::*;

verus! {

/// Why a conversion was refused. The first element that cannot be converted
/// decides the error of the whole call.
#[derive(Debug, Clone, Copy, PartialEq, Eq, Structural)]
pub enum ConversionError {
    /// A value (given, or decoded from binary or hexadecimal) lies outside the
    /// range that the target representation accepts.
    OutOfRange,
    /// A binary value holds a decimal digit other than `0` or `1`.
    NotBinaryDigits,
    /// A hexadecimal string is empty or holds a character that is not a hex digit.
    InvalidHexDigit,
    /// A character of the text has a codepoint above 127.
    NotAscii,
}

} // verus!
