use vstd::prelude::*;

use crate::composite::{
    binary_of_hex, binary_of_text, hex_of_binary, hex_of_text, text_of_binary, text_of_hex,
};
use crate::digits::{
    binary_numeral_value, binary_to_byte, bits_numeral, byte_to_binary, byte_to_char,
    byte_to_hex, char_to_byte, hex_digits, hex_to_byte, is_binary_numeral,
    lemma_binary_numeral_inverse, lemma_bits_numeral_byte, lemma_bits_numeral_inverse,
    lemma_hex_digits_inverse,
};
use crate::error::ConversionError;
use crate::hub::{
    binary_of_decimals, decimals_of_binary, decimals_of_hex, decimals_of_text, hex_of_decimals,
    text_of_decimals,
};
use crate::seq_model::{lemma_map_all_concat, lemma_map_all_pointwise, map_all};

verus! {

/// Printable decimal values survive the trip to text and back.
pub proof fn lemma_text_round_trip(d: Seq<u8>)
    requires
        forall|i: int| 0 <= i < d.len() ==> 32 <= #[trigger] d[i] <= 126,
    ensures
        text_of_decimals(d) is Ok,
        decimals_of_text(text_of_decimals(d)->Ok_0) == Ok::<Seq<u8>, ConversionError>(d),
{
    let f = |b: u8| byte_to_char(b);
    let g = |c: char| char_to_byte(c);
    lemma_map_all_pointwise(d, f);
    let t = text_of_decimals(d)->Ok_0;
    assert forall|i: int| 0 <= i < t.len() implies g(t[i]) == Ok::<u8, ConversionError>(d[i]) by {
        assert(f(d[i]) == Ok::<char, ConversionError>(t[i]));
        assert((d[i] as char) as u32 == d[i]);
    }
    lemma_map_all_pointwise(t, g);
    assert(decimals_of_text(t)->Ok_0 =~= d);
}

/// Printable text survives the trip to decimal values and back.
pub proof fn lemma_decimal_text_round_trip(t: Seq<char>)
    requires
        forall|i: int| 0 <= i < t.len() ==> ' ' <= #[trigger] t[i] <= '~',
    ensures
        decimals_of_text(t) is Ok,
        text_of_decimals(decimals_of_text(t)->Ok_0) == Ok::<Seq<char>, ConversionError>(t),
{
    let f = |c: char| char_to_byte(c);
    let g = |b: u8| byte_to_char(b);
    lemma_map_all_pointwise(t, f);
    let d = decimals_of_text(t)->Ok_0;
    assert forall|i: int| 0 <= i < d.len() implies g(d[i]) == Ok::<char, ConversionError>(t[i]) by {
        assert(f(t[i]) == Ok::<u8, ConversionError>(d[i]));
        assert((t[i] as u8) as char == t[i]);
    }
    lemma_map_all_pointwise(d, g);
    assert(text_of_decimals(d)->Ok_0 =~= t);
}

/// Decimal values up to 126 survive the trip to binary and back.
pub proof fn lemma_binary_round_trip(d: Seq<u8>)
    requires
        forall|i: int| 0 <= i < d.len() ==> #[trigger] d[i] <= 126,
    ensures
        binary_of_decimals(d) is Ok,
        decimals_of_binary(binary_of_decimals(d)->Ok_0) == Ok::<Seq<u8>, ConversionError>(d),
{
    let f = |b: u8| byte_to_binary(b);
    let g = |n: u32| binary_to_byte(n);
    lemma_map_all_pointwise(d, f);
    let v = binary_of_decimals(d)->Ok_0;
    assert forall|i: int| 0 <= i < v.len() implies g(v[i]) == Ok::<u8, ConversionError>(d[i]) by {
        assert(f(d[i]) == Ok::<u32, ConversionError>(v[i]));
        lemma_bits_numeral_inverse(d[i] as nat);
        lemma_bits_numeral_byte(d[i]);
    }
    lemma_map_all_pointwise(v, g);
    assert(decimals_of_binary(v)->Ok_0 =~= d);
}

/// Binary values whose digits are `0` or `1` and whose value is at most 126
/// survive the trip to decimal values and back.
pub proof fn lemma_decimal_binary_round_trip(v: Seq<u32>)
    requires
        forall|i: int|
            0 <= i < v.len() ==> is_binary_numeral(#[trigger] v[i] as nat)
                && binary_numeral_value(v[i] as nat) <= 126,
    ensures
        decimals_of_binary(v) is Ok,
        binary_of_decimals(decimals_of_binary(v)->Ok_0) == Ok::<Seq<u32>, ConversionError>(v),
{
    let f = |n: u32| binary_to_byte(n);
    let g = |b: u8| byte_to_binary(b);
    lemma_map_all_pointwise(v, f);
    let d = decimals_of_binary(v)->Ok_0;
    assert forall|i: int| 0 <= i < d.len() implies g(d[i]) == Ok::<u32, ConversionError>(v[i]) by {
        assert(f(v[i]) == Ok::<u8, ConversionError>(d[i]));
        lemma_binary_numeral_inverse(v[i] as nat);
    }
    lemma_map_all_pointwise(d, g);
    assert(binary_of_decimals(d)->Ok_0 =~= v);
}

/// Decimal values up to 126 survive the trip to hexadecimal and back.
pub proof fn lemma_hex_round_trip(d: Seq<u8>)
    requires
        forall|i: int| 0 <= i < d.len() ==> #[trigger] d[i] <= 126,
    ensures
        hex_of_decimals(d) is Ok,
        decimals_of_hex(hex_of_decimals(d)->Ok_0) == Ok::<Seq<u8>, ConversionError>(d),
{
    let f = |b: u8| byte_to_hex(b);
    let g = |s: Seq<char>| hex_to_byte(s);
    lemma_map_all_pointwise(d, f);
    let h = hex_of_decimals(d)->Ok_0;
    assert forall|i: int| 0 <= i < h.len() implies g(h[i]) == Ok::<u8, ConversionError>(d[i]) by {
        assert(f(d[i]) == Ok::<Seq<char>, ConversionError>(h[i]));
        lemma_hex_digits_inverse(d[i]);
    }
    lemma_map_all_pointwise(h, g);
    assert(decimals_of_hex(h)->Ok_0 =~= d);
}

/// An uppercase hex digit.
pub open spec fn is_upper_hex_digit(c: char) -> bool {
    ('0' <= c && c <= '9') || ('A' <= c && c <= 'F')
}

/// Every string that hexadecimal output holds is one or two uppercase hex
/// digits, two only where the value needs them, so never with a leading zero.
pub proof fn lemma_hex_format(d: Seq<u8>)
    requires
        hex_of_decimals(d) is Ok,
    ensures
        forall|i: int|
            0 <= i < d.len() ==> {
                let s = #[trigger] hex_of_decimals(d)->Ok_0[i];
                &&& 1 <= s.len() <= 2
                &&& (s.len() == 1 <==> d[i] < 16)
                &&& forall|j: int| 0 <= j < s.len() ==> is_upper_hex_digit(#[trigger] s[j])
                &&& s.len() == 2 ==> s[0] != '0'
            },
{
    let f = |b: u8| byte_to_hex(b);
    lemma_map_all_pointwise(d, f);
    let h = hex_of_decimals(d)->Ok_0;
    assert forall|i: int| 0 <= i < d.len() implies {
        let s = #[trigger] h[i];
        &&& 1 <= s.len() <= 2
        &&& (s.len() == 1 <==> d[i] < 16)
        &&& forall|j: int| 0 <= j < s.len() ==> is_upper_hex_digit(#[trigger] s[j])
        &&& s.len() == 2 ==> s[0] != '0'
    } by {
        assert(f(d[i]) == Ok::<Seq<char>, ConversionError>(h[i]));
        assert(h[i] == hex_digits(d[i]));
        let b = d[i];
        if b >= 16 {
            assert(h[i][0] as u32 == b / 16 + 48 || h[i][0] as u32 == b / 16 + 55);
        }
    }
}

/// Converting text element by element: the conversion of `a + b` joins the
/// conversions of `a` and of `b` when both succeed.
pub proof fn lemma_text_concat(a: Seq<char>, b: Seq<char>)
    ensures
        decimals_of_text(a) is Ok && decimals_of_text(b) is Ok ==> decimals_of_text(a + b)
            == Ok::<Seq<u8>, ConversionError>(decimals_of_text(a)->Ok_0 + decimals_of_text(b)->Ok_0),
        binary_of_text(a) is Ok && binary_of_text(b) is Ok ==> binary_of_text(a + b)
            == Ok::<Seq<u32>, ConversionError>(binary_of_text(a)->Ok_0 + binary_of_text(b)->Ok_0),
        hex_of_text(a) is Ok && hex_of_text(b) is Ok ==> hex_of_text(a + b)
            == Ok::<Seq<Seq<char>>, ConversionError>(hex_of_text(a)->Ok_0 + hex_of_text(b)->Ok_0),
{
    lemma_map_all_concat(a, b, |c: char| char_to_byte(c));
    if decimals_of_text(a) is Ok && decimals_of_text(b) is Ok {
        let x = decimals_of_text(a)->Ok_0;
        let y = decimals_of_text(b)->Ok_0;
        lemma_map_all_concat(x, y, |b: u8| byte_to_binary(b));
        lemma_map_all_concat(x, y, |b: u8| byte_to_hex(b));
    }
}

/// Converting decimal values element by element: the conversion of `a + b`
/// joins the conversions of `a` and of `b` when both succeed.
pub proof fn lemma_decimal_concat(a: Seq<u8>, b: Seq<u8>)
    ensures
        text_of_decimals(a) is Ok && text_of_decimals(b) is Ok ==> text_of_decimals(a + b)
            == Ok::<Seq<char>, ConversionError>(text_of_decimals(a)->Ok_0 + text_of_decimals(b)->Ok_0),
        binary_of_decimals(a) is Ok && binary_of_decimals(b) is Ok ==> binary_of_decimals(a + b)
            == Ok::<Seq<u32>, ConversionError>(
            binary_of_decimals(a)->Ok_0 + binary_of_decimals(b)->Ok_0,
        ),
        hex_of_decimals(a) is Ok && hex_of_decimals(b) is Ok ==> hex_of_decimals(a + b)
            == Ok::<Seq<Seq<char>>, ConversionError>(
            hex_of_decimals(a)->Ok_0 + hex_of_decimals(b)->Ok_0,
        ),
{
    lemma_map_all_concat(a, b, |b: u8| byte_to_char(b));
    lemma_map_all_concat(a, b, |b: u8| byte_to_binary(b));
    lemma_map_all_concat(a, b, |b: u8| byte_to_hex(b));
}

/// Converting binary values element by element: the conversion of `a + b`
/// joins the conversions of `a` and of `b` when both succeed.
pub proof fn lemma_binary_concat(a: Seq<u32>, b: Seq<u32>)
    ensures
        decimals_of_binary(a) is Ok && decimals_of_binary(b) is Ok ==> decimals_of_binary(a + b)
            == Ok::<Seq<u8>, ConversionError>(
            decimals_of_binary(a)->Ok_0 + decimals_of_binary(b)->Ok_0,
        ),
        text_of_binary(a) is Ok && text_of_binary(b) is Ok ==> text_of_binary(a + b)
            == Ok::<Seq<char>, ConversionError>(text_of_binary(a)->Ok_0 + text_of_binary(b)->Ok_0),
        hex_of_binary(a) is Ok && hex_of_binary(b) is Ok ==> hex_of_binary(a + b)
            == Ok::<Seq<Seq<char>>, ConversionError>(hex_of_binary(a)->Ok_0 + hex_of_binary(b)->Ok_0),
{
    lemma_map_all_concat(a, b, |n: u32| binary_to_byte(n));
    if decimals_of_binary(a) is Ok && decimals_of_binary(b) is Ok {
        let x = decimals_of_binary(a)->Ok_0;
        let y = decimals_of_binary(b)->Ok_0;
        lemma_map_all_concat(x, y, |b: u8| byte_to_char(b));
        lemma_map_all_concat(x, y, |b: u8| byte_to_hex(b));
    }
}

/// Converting hexadecimal strings element by element: the conversion of
/// `a + b` joins the conversions of `a` and of `b` when both succeed.
pub proof fn lemma_hex_concat(a: Seq<Seq<char>>, b: Seq<Seq<char>>)
    ensures
        decimals_of_hex(a) is Ok && decimals_of_hex(b) is Ok ==> decimals_of_hex(a + b)
            == Ok::<Seq<u8>, ConversionError>(decimals_of_hex(a)->Ok_0 + decimals_of_hex(b)->Ok_0),
        text_of_hex(a) is Ok && text_of_hex(b) is Ok ==> text_of_hex(a + b)
            == Ok::<Seq<char>, ConversionError>(text_of_hex(a)->Ok_0 + text_of_hex(b)->Ok_0),
        binary_of_hex(a) is Ok && binary_of_hex(b) is Ok ==> binary_of_hex(a + b)
            == Ok::<Seq<u32>, ConversionError>(binary_of_hex(a)->Ok_0 + binary_of_hex(b)->Ok_0),
{
    lemma_map_all_concat(a, b, |s: Seq<char>| hex_to_byte(s));
    if decimals_of_hex(a) is Ok && decimals_of_hex(b) is Ok {
        let x = decimals_of_hex(a)->Ok_0;
        let y = decimals_of_hex(b)->Ok_0;
        lemma_map_all_concat(x, y, |b: u8| byte_to_char(b));
        lemma_map_all_concat(x, y, |b: u8| byte_to_binary(b));
    }
}

} // verus!
