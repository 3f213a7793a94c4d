use vstd::prelude::*;

use crate::composite::{
    binary_of_hex, binary_of_text, binary_to_hexadecimal, binary_to_string, hex_of_binary,
    hex_of_text, hexadecimal_to_binary, hexadecimal_to_string, string_to_binary,
    string_to_hexadecimal, text_of_binary, text_of_hex,
};
use crate::error::ConversionError;
use crate::hub::{
    binary_of_decimals, binary_to_decimal, decimal_to_hexadecimal, decimals_of_binary,
    decimals_of_hex, decimals_of_text, decimals_to_binary, decimals_to_string,
    hex_of_decimals, hexadecimal_to_decimal, string_to_decimals, strings_view, text_of_decimals,
};

verus! {

/// One sequence of ASCII codepoints held in all four representations at once.
#[derive(Debug)]
pub struct Converter {
    pub binary: Vec<u32>,
    pub hexadecimal: Vec<String>,
    pub decimal: Vec<u8>,
    pub charcters: String,
}

impl Converter {
    /// Builds the record from binary values, which it keeps as given. Fails
    /// with the error of the first of the hexadecimal, decimal and text
    /// conversions that fails.
    pub fn from_binary(value: Vec<u32>) -> (r: Result<Converter, ConversionError>)
        ensures
            match r {
                Ok(c) => {
                    &&& c.binary@ == value@
                    &&& hex_of_binary(value@) == Ok::<Seq<Seq<char>>, ConversionError>(
                        strings_view(c.hexadecimal@),
                    )
                    &&& decimals_of_binary(value@) == Ok::<Seq<u8>, ConversionError>(c.decimal@)
                    &&& text_of_binary(value@) == Ok::<Seq<char>, ConversionError>(c.charcters@)
                },
                Err(e) => if hex_of_binary(value@) is Err {
                    e == hex_of_binary(value@)->Err_0
                } else if decimals_of_binary(value@) is Err {
                    e == decimals_of_binary(value@)->Err_0
                } else {
                    text_of_binary(value@) == Err::<Seq<char>, ConversionError>(e)
                },
            },
    {
        let hexadecimal = match binary_to_hexadecimal(&value) {
            Ok(h) => h,
            Err(e) => return Err(e),
        };
        let decimal = match binary_to_decimal(&value) {
            Ok(d) => d,
            Err(e) => return Err(e),
        };
        let charcters = match binary_to_string(&value) {
            Ok(t) => t,
            Err(e) => return Err(e),
        };
        Ok(Converter { binary: value, hexadecimal, decimal, charcters })
    }

    /// Builds the record from hexadecimal strings, which it keeps as given.
    /// Fails with the error of the first of the binary, decimal and text
    /// conversions that fails.
    pub fn from_hexadecimal(value: Vec<String>) -> (r: Result<Converter, ConversionError>)
        ensures
            match r {
                Ok(c) => {
                    &&& c.hexadecimal@ == value@
                    &&& binary_of_hex(strings_view(value@)) == Ok::<Seq<u32>, ConversionError>(
                        c.binary@,
                    )
                    &&& decimals_of_hex(strings_view(value@)) == Ok::<Seq<u8>, ConversionError>(
                        c.decimal@,
                    )
                    &&& text_of_hex(strings_view(value@)) == Ok::<Seq<char>, ConversionError>(
                        c.charcters@,
                    )
                },
                Err(e) => if binary_of_hex(strings_view(value@)) is Err {
                    e == binary_of_hex(strings_view(value@))->Err_0
                } else if decimals_of_hex(strings_view(value@)) is Err {
                    e == decimals_of_hex(strings_view(value@))->Err_0
                } else {
                    text_of_hex(strings_view(value@)) == Err::<Seq<char>, ConversionError>(e)
                },
            },
    {
        let ghost h = strings_view(value@);
        let first = value.clone();
        assert(strings_view(first@) =~= h);
        let binary = match hexadecimal_to_binary(first) {
            Ok(b) => b,
            Err(e) => return Err(e),
        };
        let second = value.clone();
        assert(strings_view(second@) =~= h);
        let decimal = match hexadecimal_to_decimal(second) {
            Ok(d) => d,
            Err(e) => return Err(e),
        };
        let third = value.clone();
        assert(strings_view(third@) =~= h);
        let charcters = match hexadecimal_to_string(third) {
            Ok(t) => t,
            Err(e) => return Err(e),
        };
        Ok(Converter { binary, hexadecimal: value, decimal, charcters })
    }

    /// Builds the record from decimal values, which it keeps as given. Fails
    /// with the error of the first of the binary, hexadecimal and text
    /// conversions that fails.
    pub fn from_decimal(value: Vec<u8>) -> (r: Result<Converter, ConversionError>)
        ensures
            match r {
                Ok(c) => {
                    &&& c.decimal@ == value@
                    &&& binary_of_decimals(value@) == Ok::<Seq<u32>, ConversionError>(c.binary@)
                    &&& hex_of_decimals(value@) == Ok::<Seq<Seq<char>>, ConversionError>(
                        strings_view(c.hexadecimal@),
                    )
                    &&& text_of_decimals(value@) == Ok::<Seq<char>, ConversionError>(
                        c.charcters@,
                    )
                },
                Err(e) => if binary_of_decimals(value@) is Err {
                    e == binary_of_decimals(value@)->Err_0
                } else if hex_of_decimals(value@) is Err {
                    e == hex_of_decimals(value@)->Err_0
                } else {
                    text_of_decimals(value@) == Err::<Seq<char>, ConversionError>(e)
                },
            },
    {
        let binary = match decimals_to_binary(&value) {
            Ok(b) => b,
            Err(e) => return Err(e),
        };
        let copy = value.clone();
        assert(copy@ =~= value@);
        let hexadecimal = match decimal_to_hexadecimal(copy) {
            Ok(h) => h,
            Err(e) => return Err(e),
        };
        let charcters = match decimals_to_string(&value) {
            Ok(t) => t,
            Err(e) => return Err(e),
        };
        Ok(Converter { binary, hexadecimal, decimal: value, charcters })
    }

    /// Builds the record from text, which it keeps as given. Fails with the
    /// error of the first of the binary, hexadecimal and decimal conversions
    /// that fails.
    pub fn from_characters(value: String) -> (r: Result<Converter, ConversionError>)
        ensures
            match r {
                Ok(c) => {
                    &&& c.charcters@ == value@
                    &&& binary_of_text(value@) == Ok::<Seq<u32>, ConversionError>(c.binary@)
                    &&& hex_of_text(value@) == Ok::<Seq<Seq<char>>, ConversionError>(
                        strings_view(c.hexadecimal@),
                    )
                    &&& decimals_of_text(value@) == Ok::<Seq<u8>, ConversionError>(c.decimal@)
                },
                Err(e) => if binary_of_text(value@) is Err {
                    e == binary_of_text(value@)->Err_0
                } else if hex_of_text(value@) is Err {
                    e == hex_of_text(value@)->Err_0
                } else {
                    decimals_of_text(value@) == Err::<Seq<u8>, ConversionError>(e)
                },
            },
    {
        let binary = match string_to_binary(value.as_str()) {
            Ok(b) => b,
            Err(e) => return Err(e),
        };
        let copy = value.clone();
        let hexadecimal = match string_to_hexadecimal(copy) {
            Ok(h) => h,
            Err(e) => return Err(e),
        };
        let decimal = match string_to_decimals(value.as_str()) {
            Ok(d) => d,
            Err(e) => return Err(e),
        };
        Ok(Converter { binary, hexadecimal, decimal, charcters: value })
    }
}

} // verus!
