//! Element-wise conversions of ASCII codepoints among four representations:
//! text (`String`), decimal values (`Vec<u8>`), digit-encoded binary
//! (`Vec<u32>`, where 104 is written 1101000) and uppercase hexadecimal
//! strings (`Vec<String>`).
//!
//! The four conversions to and from decimal values stand in `hub`; the others
//! go through decimal values and stand in `composite`. Every conversion works
//! element by element and stops at the first element it cannot convert.

pub mod composite;
pub mod converter;
pub mod digits;
pub mod error;
pub mod hub;
pub mod laws;
pub mod seq_model;
mod trusted;

pub use composite::{
    binary_to_hexadecimal, binary_to_string, hexadecimal_to_binary, hexadecimal_to_string,
    string_to_binary, string_to_hexadecimal,
};
pub use converter::Converter;
pub use digits::{bits_to_dec, dec_to_bit, dec_to_hex, hex_to_dec};
pub use error::ConversionError;
pub use hub::{
    binary_to_decimal, decimal_to_hexadecimal, decimals_to_binary, decimals_to_string,
    hexadecimal_to_decimal, string_to_decimals,
};
