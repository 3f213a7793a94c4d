use vstd::prelude::*;

use crate::error::ConversionError;
use crate::hub::{
    binary_of_decimals, binary_to_decimal, decimal_to_hexadecimal, decimals_of_binary,
    decimals_of_hex, decimals_of_text, decimals_to_binary, decimals_to_string,
    hex_of_decimals, hexadecimal_to_decimal, string_to_decimals, strings_view, text_of_decimals,
};

verus! {

// Each conversion here goes through decimal values: the first step's error is
// passed on unchanged, and otherwise the second step decides.

/// Binary values in hexadecimal.
pub open spec fn hex_of_binary(v: Seq<u32>) -> Result<Seq<Seq<char>>, ConversionError> {
    match decimals_of_binary(v) {
        Ok(d) => hex_of_decimals(d),
        Err(e) => Err(e),
    }
}

/// Hexadecimal strings in binary.
pub open spec fn binary_of_hex(h: Seq<Seq<char>>) -> Result<Seq<u32>, ConversionError> {
    match decimals_of_hex(h) {
        Ok(d) => binary_of_decimals(d),
        Err(e) => Err(e),
    }
}

/// Binary values as text.
pub open spec fn text_of_binary(v: Seq<u32>) -> Result<Seq<char>, ConversionError> {
    match decimals_of_binary(v) {
        Ok(d) => text_of_decimals(d),
        Err(e) => Err(e),
    }
}

/// Text in binary.
pub open spec fn binary_of_text(t: Seq<char>) -> Result<Seq<u32>, ConversionError> {
    match decimals_of_text(t) {
        Ok(d) => binary_of_decimals(d),
        Err(e) => Err(e),
    }
}

/// Hexadecimal strings as text.
pub open spec fn text_of_hex(h: Seq<Seq<char>>) -> Result<Seq<char>, ConversionError> {
    match decimals_of_hex(h) {
        Ok(d) => text_of_decimals(d),
        Err(e) => Err(e),
    }
}

/// Text in hexadecimal.
pub open spec fn hex_of_text(t: Seq<char>) -> Result<Seq<Seq<char>>, ConversionError> {
    match decimals_of_text(t) {
        Ok(d) => hex_of_decimals(d),
        Err(e) => Err(e),
    }
}

/// Converts hexadecimal strings to binary values: "68" becomes 1101000.
pub fn hexadecimal_to_binary(hex_vec: Vec<String>) -> (r: Result<Vec<u32>, ConversionError>)
    ensures
        match r {
            Ok(out) => binary_of_hex(strings_view(hex_vec@)) == Ok::<Seq<u32>, ConversionError>(
                out@,
            ),
            Err(e) => binary_of_hex(strings_view(hex_vec@)) == Err::<Seq<u32>, ConversionError>(e),
        },
{
    match hexadecimal_to_decimal(hex_vec) {
        Ok(dec) => decimals_to_binary(&dec),
        Err(e) => Err(e),
    }
}

/// Converts binary values to hexadecimal strings: 1101000 becomes "68".
pub fn binary_to_hexadecimal(bin_vec: &Vec<u32>) -> (r: Result<Vec<String>, ConversionError>)
    ensures
        match r {
            Ok(out) => hex_of_binary(bin_vec@) == Ok::<Seq<Seq<char>>, ConversionError>(
                strings_view(out@),
            ),
            Err(e) => hex_of_binary(bin_vec@) == Err::<Seq<Seq<char>>, ConversionError>(e),
        },
{
    match binary_to_decimal(bin_vec) {
        Ok(dec) => decimal_to_hexadecimal(dec),
        Err(e) => Err(e),
    }
}

/// Converts text to hexadecimal strings: "hi" becomes "68", "69".
pub fn string_to_hexadecimal(txt: String) -> (r: Result<Vec<String>, ConversionError>)
    ensures
        match r {
            Ok(out) => hex_of_text(txt@) == Ok::<Seq<Seq<char>>, ConversionError>(
                strings_view(out@),
            ),
            Err(e) => hex_of_text(txt@) == Err::<Seq<Seq<char>>, ConversionError>(e),
        },
{
    match string_to_decimals(txt.as_str()) {
        Ok(dec) => decimal_to_hexadecimal(dec),
        Err(e) => Err(e),
    }
}

/// Converts hexadecimal strings to text: "68", "69" becomes "hi".
pub fn hexadecimal_to_string(hex_vec: Vec<String>) -> (r: Result<String, ConversionError>)
    ensures
        match r {
            Ok(out) => text_of_hex(strings_view(hex_vec@)) == Ok::<Seq<char>, ConversionError>(
                out@,
            ),
            Err(e) => text_of_hex(strings_view(hex_vec@)) == Err::<Seq<char>, ConversionError>(e),
        },
{
    match hexadecimal_to_decimal(hex_vec) {
        Ok(dec) => decimals_to_string(&dec),
        Err(e) => Err(e),
    }
}

/// Converts text to binary values: "h" becomes 1101000.
pub fn string_to_binary(txt: &str) -> (r: Result<Vec<u32>, ConversionError>)
    ensures
        match r {
            Ok(out) => binary_of_text(txt@) == Ok::<Seq<u32>, ConversionError>(out@),
            Err(e) => binary_of_text(txt@) == Err::<Seq<u32>, ConversionError>(e),
        },
{
    match string_to_decimals(txt) {
        Ok(dec) => decimals_to_binary(&dec),
        Err(e) => Err(e),
    }
}

/// Converts binary values to text: 1101000 becomes "h".
pub fn binary_to_string(bin_vec: &Vec<u32>) -> (r: Result<String, ConversionError>)
    ensures
        match r {
            Ok(out) => text_of_binary(bin_vec@) == Ok::<Seq<char>, ConversionError>(out@),
            Err(e) => text_of_binary(bin_vec@) == Err::<Seq<char>, ConversionError>(e),
        },
{
    match binary_to_decimal(bin_vec) {
        Ok(dec) => decimals_to_string(&dec),
        Err(e) => Err(e),
    }
}

} // verus!
