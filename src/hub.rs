use vstd::prelude::*;

use crate::digits::{
    binary_to_byte, bits_to_dec, byte_to_binary, byte_to_char, byte_to_hex, char_to_byte,
    dec_to_bit, dec_to_hex, hex_to_byte, hex_to_dec,
};
use crate::error::ConversionError;
use crate::seq_model::{lemma_map_all_prefix_err, lemma_map_all_step, map_all};

verus! {

/// The contents of a list of strings.
pub open spec fn strings_view(v: Seq<String>) -> Seq<Seq<char>> {
    v.map_values(|s: String| s@)
}

/// Text as decimal values.
pub open spec fn decimals_of_text(t: Seq<char>) -> Result<Seq<u8>, ConversionError> {
    map_all(t, |c: char| char_to_byte(c))
}

/// Decimal values as text.
pub open spec fn text_of_decimals(d: Seq<u8>) -> Result<Seq<char>, ConversionError> {
    map_all(d, |b: u8| byte_to_char(b))
}

/// Decimal values in digit-encoded binary.
pub open spec fn binary_of_decimals(d: Seq<u8>) -> Result<Seq<u32>, ConversionError> {
    map_all(d, |b: u8| byte_to_binary(b))
}

/// Digit-encoded binary values as decimal values.
pub open spec fn decimals_of_binary(v: Seq<u32>) -> Result<Seq<u8>, ConversionError> {
    map_all(v, |n: u32| binary_to_byte(n))
}

/// Decimal values in hexadecimal.
pub open spec fn hex_of_decimals(d: Seq<u8>) -> Result<Seq<Seq<char>>, ConversionError> {
    map_all(d, |b: u8| byte_to_hex(b))
}

/// Hexadecimal strings as decimal values.
pub open spec fn decimals_of_hex(h: Seq<Seq<char>>) -> Result<Seq<u8>, ConversionError> {
    map_all(h, |s: Seq<char>| hex_to_byte(s))
}

/// Converts decimal values to binary: 104 becomes 1101000. Every value must be
/// at most 126.
pub fn decimals_to_binary(dec_vec: &Vec<u8>) -> (r: Result<Vec<u32>, ConversionError>)
    ensures
        match r {
            Ok(out) => binary_of_decimals(dec_vec@) == Ok::<Seq<u32>, ConversionError>(out@),
            Err(e) => binary_of_decimals(dec_vec@) == Err::<Seq<u32>, ConversionError>(e),
        },
{
    let mut out: Vec<u32> = Vec::new();
    for i in 0..dec_vec.len()
        invariant
            binary_of_decimals(dec_vec@.take(i as int)) == Ok::<Seq<u32>, ConversionError>(out@),
    {
        proof {
            lemma_map_all_step(dec_vec@, i as int, |b: u8| byte_to_binary(b));
        }
        let b = dec_vec[i];
        if b > 126 {
            proof {
                lemma_map_all_prefix_err(dec_vec@, i + 1, |b: u8| byte_to_binary(b));
            }
            return Err(ConversionError::OutOfRange);
        }
        out.push(dec_to_bit(b));
    }
    assert(dec_vec@.take(dec_vec.len() as int) =~= dec_vec@);
    Ok(out)
}

/// Converts binary values to decimal values: 1101000 becomes 104. Every
/// decimal digit must be `0` or `1`, and the value must fit in a byte.
pub fn binary_to_decimal(bin_vec: &Vec<u32>) -> (r: Result<Vec<u8>, ConversionError>)
    ensures
        match r {
            Ok(out) => decimals_of_binary(bin_vec@) == Ok::<Seq<u8>, ConversionError>(out@),
            Err(e) => decimals_of_binary(bin_vec@) == Err::<Seq<u8>, ConversionError>(e),
        },
{
    let mut out: Vec<u8> = Vec::new();
    for i in 0..bin_vec.len()
        invariant
            decimals_of_binary(bin_vec@.take(i as int)) == Ok::<Seq<u8>, ConversionError>(out@),
    {
        proof {
            lemma_map_all_step(bin_vec@, i as int, |n: u32| binary_to_byte(n));
        }
        match bits_to_dec(&bin_vec[i]) {
            Ok(b) => out.push(b),
            Err(e) => {
                proof {
                    lemma_map_all_prefix_err(bin_vec@, i + 1, |n: u32| binary_to_byte(n));
                }
                return Err(e);
            },
        }
    }
    assert(bin_vec@.take(bin_vec.len() as int) =~= bin_vec@);
    Ok(out)
}

/// Converts decimal values to uppercase hexadecimal: 108 becomes "6C". Every
/// value must be at most 126.
pub fn decimal_to_hexadecimal(dec_vec: Vec<u8>) -> (r: Result<Vec<String>, ConversionError>)
    ensures
        match r {
            Ok(out) => hex_of_decimals(dec_vec@) == Ok::<Seq<Seq<char>>, ConversionError>(
                strings_view(out@),
            ),
            Err(e) => hex_of_decimals(dec_vec@) == Err::<Seq<Seq<char>>, ConversionError>(e),
        },
{
    let mut out: Vec<String> = Vec::new();
    assert(strings_view(out@) =~= Seq::<Seq<char>>::empty());
    for i in 0..dec_vec.len()
        invariant
            hex_of_decimals(dec_vec@.take(i as int)) == Ok::<Seq<Seq<char>>, ConversionError>(
                strings_view(out@),
            ),
    {
        proof {
            lemma_map_all_step(dec_vec@, i as int, |b: u8| byte_to_hex(b));
        }
        let b = dec_vec[i];
        if b > 126 {
            proof {
                lemma_map_all_prefix_err(dec_vec@, i + 1, |b: u8| byte_to_hex(b));
            }
            return Err(ConversionError::OutOfRange);
        }
        let s = dec_to_hex(b);
        let ghost before = out@;
        out.push(s);
        assert(strings_view(out@) =~= strings_view(before).push(s@));
    }
    assert(dec_vec@.take(dec_vec.len() as int) =~= dec_vec@);
    Ok(out)
}

/// Converts hexadecimal strings to decimal values: "6C" and "6c" become 108.
/// Every string must be one or more hex digits whose value fits in a byte.
pub fn hexadecimal_to_decimal(hex_vec: Vec<String>) -> (r: Result<Vec<u8>, ConversionError>)
    ensures
        match r {
            Ok(out) => decimals_of_hex(strings_view(hex_vec@)) == Ok::<Seq<u8>, ConversionError>(
                out@,
            ),
            Err(e) => decimals_of_hex(strings_view(hex_vec@)) == Err::<Seq<u8>, ConversionError>(e),
        },
{
    let ghost h = strings_view(hex_vec@);
    let mut out: Vec<u8> = Vec::new();
    for i in 0..hex_vec.len()
        invariant
            h == strings_view(hex_vec@),
            decimals_of_hex(h.take(i as int)) == Ok::<Seq<u8>, ConversionError>(out@),
    {
        proof {
            lemma_map_all_step(h, i as int, |s: Seq<char>| hex_to_byte(s));
        }
        match hex_to_dec(&hex_vec[i]) {
            Ok(b) => out.push(b),
            Err(e) => {
                proof {
                    lemma_map_all_prefix_err(h, i + 1, |s: Seq<char>| hex_to_byte(s));
                }
                return Err(e);
            },
        }
    }
    assert(h.take(hex_vec.len() as int) =~= h);
    Ok(out)
}

/// Converts text to its decimal values: "hello" becomes 104, 101, 108, 108,
/// 111. Every character must be 7-bit ASCII.
pub fn string_to_decimals(txt: &str) -> (r: Result<Vec<u8>, ConversionError>)
    ensures
        match r {
            Ok(out) => decimals_of_text(txt@) == Ok::<Seq<u8>, ConversionError>(out@),
            Err(e) => decimals_of_text(txt@) == Err::<Seq<u8>, ConversionError>(e),
        },
{
    let ghost t = txt@;
    let mut out: Vec<u8> = Vec::new();
    for c in it: txt.chars()
        invariant
            it.seq() == t,
            t == txt@,
            decimals_of_text(t.take(it.index())) == Ok::<Seq<u8>, ConversionError>(out@),
    {
        let ghost i = it.index();
        assert(c == t[i]);
        proof {
            lemma_map_all_step(t, i, |c: char| char_to_byte(c));
        }
        if c as u32 > 127 {
            proof {
                lemma_map_all_prefix_err(t, i + 1, |c: char| char_to_byte(c));
            }
            return Err(ConversionError::NotAscii);
        }
        out.push(c as u8);
    }
    assert(t.take(t.len() as int) =~= t);
    Ok(out)
}

/// Converts decimal values to text: 104, 105 becomes "hi". Every value must
/// be printable ASCII, from 32 to 126.
pub fn decimals_to_string(dec_vec: &Vec<u8>) -> (r: Result<String, ConversionError>)
    ensures
        match r {
            Ok(out) => text_of_decimals(dec_vec@) == Ok::<Seq<char>, ConversionError>(out@),
            Err(e) => text_of_decimals(dec_vec@) == Err::<Seq<char>, ConversionError>(e),
        },
{
    let mut text = String::new();
    for i in 0..dec_vec.len()
        invariant
            text_of_decimals(dec_vec@.take(i as int)) == Ok::<Seq<char>, ConversionError>(text@),
    {
        proof {
            lemma_map_all_step(dec_vec@, i as int, |b: u8| byte_to_char(b));
        }
        let b = dec_vec[i];
        if !(32 <= b && b <= 126) {
            proof {
                lemma_map_all_prefix_err(dec_vec@, i + 1, |b: u8| byte_to_char(b));
            }
            return Err(ConversionError::OutOfRange);
        }
        text.push(b as char);
    }
    assert(dec_vec@.take(dec_vec.len() as int) =~= dec_vec@);
    Ok(text)
}

} // verus!
