use vstd::arithmetic::power::pow;
use vstd::prelude::*;

use crate::error::ConversionError;

verus! {

// ---------------------------------------------------------------------------
// Digit-encoded binary: a decimal integer whose digits spell a base-2 numeral.
// ---------------------------------------------------------------------------

/// The integer whose decimal digits are the base-2 digits of `b`
/// (5 is written 101, 104 is written 1101000).
pub open spec fn bits_numeral(b: nat) -> nat
    decreases b,
{
    if b < 2 {
        b
    } else {
        10 * bits_numeral(b / 2) + b % 2
    }
}

/// Every decimal digit of `n` is `0` or `1`.
pub open spec fn is_binary_numeral(n: nat) -> bool
    decreases n,
{
    if n < 10 {
        n <= 1
    } else {
        n % 10 <= 1 && is_binary_numeral(n / 10)
    }
}

/// The decimal digits of `n`, read as a base-2 numeral.
pub open spec fn binary_numeral_value(n: nat) -> nat
    decreases n,
{
    if n < 10 {
        n
    } else {
        2 * binary_numeral_value(n / 10) + n % 10
    }
}

// ---------------------------------------------------------------------------
// Hexadecimal digits.
// ---------------------------------------------------------------------------

/// The uppercase hex digit for `d < 16`.
pub open spec fn hex_digit_char(d: nat) -> char {
    if d < 10 {
        (d + 48) as char
    } else {
        (d + 55) as char
    }
}

/// `b` in uppercase base 16, without leading zeros.
pub open spec fn hex_digits(b: u8) -> Seq<char> {
    if b < 16 {
        seq![hex_digit_char(b as nat)]
    } else {
        seq![hex_digit_char((b / 16) as nat), hex_digit_char((b % 16) as nat)]
    }
}

/// `c` is one of `0-9`, `a-f`, `A-F`.
pub open spec fn is_hex_digit(c: char) -> bool {
    ('0' <= c && c <= '9') || ('a' <= c && c <= 'f') || ('A' <= c && c <= 'F')
}

/// The value of a hex digit.
pub open spec fn hex_digit_value(c: char) -> nat {
    if '0' <= c && c <= '9' {
        (c as u32 - 48) as nat
    } else if 'a' <= c && c <= 'f' {
        (c as u32 - 87) as nat
    } else {
        (c as u32 - 55) as nat
    }
}

/// The value of a sequence of hex digits, read as a base-16 numeral.
pub open spec fn hex_value(s: Seq<char>) -> nat
    decreases s.len(),
{
    if s.len() == 0 {
        0
    } else {
        16 * hex_value(s.drop_last()) + hex_digit_value(s.last())
    }
}

// ---------------------------------------------------------------------------
// One element, from one representation to another.
// ---------------------------------------------------------------------------

/// A character of text as its decimal value: any 7-bit ASCII character.
pub open spec fn char_to_byte(c: char) -> Result<u8, ConversionError> {
    if c as u32 <= 127 {
        Ok(c as u8)
    } else {
        Err(ConversionError::NotAscii)
    }
}

/// A decimal value as a character of text: printable ASCII only.
pub open spec fn byte_to_char(b: u8) -> Result<char, ConversionError> {
    if 32 <= b && b <= 126 {
        Ok(b as char)
    } else {
        Err(ConversionError::OutOfRange)
    }
}

/// A decimal value up to 126 in digit-encoded binary.
pub open spec fn byte_to_binary(b: u8) -> Result<u32, ConversionError> {
    if b <= 126 {
        Ok(bits_numeral(b as nat) as u32)
    } else {
        Err(ConversionError::OutOfRange)
    }
}

/// A digit-encoded binary value as a byte: its digits must be `0` or `1`, and
/// the numeral they spell must fit in a byte.
pub open spec fn binary_to_byte(n: u32) -> Result<u8, ConversionError> {
    if !is_binary_numeral(n as nat) {
        Err(ConversionError::NotBinaryDigits)
    } else if binary_numeral_value(n as nat) > 255 {
        Err(ConversionError::OutOfRange)
    } else {
        Ok(binary_numeral_value(n as nat) as u8)
    }
}

/// A decimal value up to 126 in hexadecimal.
pub open spec fn byte_to_hex(b: u8) -> Result<Seq<char>, ConversionError> {
    if b <= 126 {
        Ok(hex_digits(b))
    } else {
        Err(ConversionError::OutOfRange)
    }
}

/// A hexadecimal string as a byte: one or more hex digits of either case,
/// whose value must fit in a byte.
pub open spec fn hex_to_byte(s: Seq<char>) -> Result<u8, ConversionError> {
    if s.len() == 0 || !(forall|i: int| 0 <= i < s.len() ==> is_hex_digit(#[trigger] s[i])) {
        Err(ConversionError::InvalidHexDigit)
    } else if hex_value(s) > 255 {
        Err(ConversionError::OutOfRange)
    } else {
        Ok(hex_value(s) as u8)
    }
}

// ---------------------------------------------------------------------------
// Facts about the numerals.
// ---------------------------------------------------------------------------

/// A value below `2^k` has a digit-encoded binary form below `10^k`.
pub proof fn lemma_bits_numeral_bound(b: nat, k: nat)
    requires
        b < pow(2, k),
    ensures
        bits_numeral(b) < pow(10, k),
    decreases k,
{
    reveal(pow);
    if k > 0 {
        let p2 = pow(2, (k - 1) as nat);
        let p10 = pow(10, (k - 1) as nat);
        vstd::arithmetic::power::lemma_pow_positive(10, (k - 1) as nat);
        if b >= 2 {
            assert(b / 2 < p2) by (nonlinear_arith)
                requires
                    b < 2 * p2,
            ;
            lemma_bits_numeral_bound(b / 2, (k - 1) as nat);
            let h = bits_numeral(b / 2);
            assert(10 * h + b % 2 < 10 * p10) by (nonlinear_arith)
                requires
                    h < p10,
                    b % 2 < 2,
            ;
        }
    }
}

/// The digit-encoded binary form of a byte has at most eight digits.
pub proof fn lemma_bits_numeral_byte(b: u8)
    ensures
        bits_numeral(b as nat) < 100000000,
{
    reveal_with_fuel(pow, 9);
    lemma_bits_numeral_bound(b as nat, 8);
}

/// A numeral whose digits are all `0` or `1` is no smaller than its value in base 2.
pub proof fn lemma_binary_numeral_value_le(n: nat)
    requires
        is_binary_numeral(n),
    ensures
        binary_numeral_value(n) <= n,
    decreases n,
{
    if n >= 10 {
        lemma_binary_numeral_value_le(n / 10);
    }
}

/// Decoding the digit-encoded binary form of `b` gives `b` back.
pub proof fn lemma_bits_numeral_inverse(b: nat)
    ensures
        is_binary_numeral(bits_numeral(b)),
        binary_numeral_value(bits_numeral(b)) == b,
        b >= 1 ==> bits_numeral(b) >= 1,
    decreases b,
{
    if b >= 2 {
        let m = bits_numeral(b / 2);
        lemma_bits_numeral_inverse(b / 2);
        vstd::arithmetic::div_mod::lemma_fundamental_div_mod_converse(
            (10 * m + b % 2) as int,
            10,
            m as int,
            (b % 2) as int,
        );
    }
}

/// Encoding the value of a numeral whose digits are all `0` or `1` gives the numeral back.
pub proof fn lemma_binary_numeral_inverse(n: nat)
    requires
        is_binary_numeral(n),
    ensures
        bits_numeral(binary_numeral_value(n)) == n,
    decreases n,
{
    if n >= 10 {
        lemma_binary_numeral_inverse(n / 10);
        let v = binary_numeral_value(n);
        let h = binary_numeral_value(n / 10);
        if h == 0 {
            assert(bits_numeral(0) == 0);
        }
        assert(h >= 1);
        vstd::arithmetic::div_mod::lemma_fundamental_div_mod_converse(
            v as int,
            2,
            h as int,
            (n % 10) as int,
        );
    }
}

/// The digit for `d` is a hex digit whose value is `d`.
pub proof fn lemma_hex_digit_char(d: nat)
    requires
        d < 16,
    ensures
        is_hex_digit(hex_digit_char(d)),
        hex_digit_value(hex_digit_char(d)) == d,
{
    if d < 10 {
        assert(hex_digit_char(d) as u32 == d + 48);
    } else {
        assert(hex_digit_char(d) as u32 == d + 55);
    }
}

/// Reading back the hex digits of `b` gives `b`.
pub proof fn lemma_hex_digits_inverse(b: u8)
    ensures
        hex_digits(b).len() >= 1,
        forall|i: int| 0 <= i < hex_digits(b).len() ==> is_hex_digit(#[trigger] hex_digits(b)[i]),
        hex_value(hex_digits(b)) == b,
{
    let s = hex_digits(b);
    if b < 16 {
        lemma_hex_digit_char(b as nat);
        assert(s.drop_last() =~= Seq::<char>::empty());
        assert(hex_value(s) == 16 * hex_value(s.drop_last()) + hex_digit_value(s.last()));
    } else {
        lemma_hex_digit_char((b / 16) as nat);
        lemma_hex_digit_char((b % 16) as nat);
        let high = seq![hex_digit_char((b / 16) as nat)];
        assert(s.drop_last() =~= high);
        assert(high.drop_last() =~= Seq::<char>::empty());
        assert(hex_value(high) == 16 * hex_value(high.drop_last()) + hex_digit_value(high.last()));
        assert(hex_value(s) == 16 * hex_value(s.drop_last()) + hex_digit_value(s.last()));
    }
}

// ---------------------------------------------------------------------------
// Executable conversions of one element.
// ---------------------------------------------------------------------------

/// The digit-encoded binary form of `dec` (5 gives 101).
pub fn dec_to_bit(dec: u8) -> (r: u32)
    ensures
        r == bits_numeral(dec as nat),
    decreases dec,
{
    if dec < 2 {
        dec as u32
    } else {
        let high = dec_to_bit(dec / 2);
        proof {
            assert(bits_numeral((dec / 2) as nat) < 10000000) by {
                reveal_with_fuel(pow, 8);
                lemma_bits_numeral_bound((dec / 2) as nat, 7);
            }
        }
        10 * high + (dec % 2) as u32
    }
}

/// The base-2 value of the decimal digits of `n`, or `None` where one of them
/// is not `0` or `1`.
fn binary_digits_value(n: u32) -> (r: Option<u32>)
    ensures
        r is Some <==> is_binary_numeral(n as nat),
        r matches Some(v) ==> v == binary_numeral_value(n as nat),
    decreases n,
{
    if n < 10 {
        if n <= 1 {
            Some(n)
        } else {
            None
        }
    } else {
        match binary_digits_value(n / 10) {
            None => None,
            Some(high) => {
                if n % 10 <= 1 {
                    proof {
                        lemma_binary_numeral_value_le((n / 10) as nat);
                    }
                    Some(2 * high + n % 10)
                } else {
                    None
                }
            },
        }
    }
}

/// Decodes one digit-encoded binary value into a byte.
pub fn bits_to_dec(bit: &u32) -> (r: Result<u8, ConversionError>)
    ensures
        r == binary_to_byte(*bit),
{
    match binary_digits_value(*bit) {
        None => Err(ConversionError::NotBinaryDigits),
        Some(v) => {
            if v > 255 {
                Err(ConversionError::OutOfRange)
            } else {
                Ok(v as u8)
            }
        },
    }
}

/// The uppercase hex digit for `d < 16`.
fn hex_digit(d: u8) -> (c: char)
    requires
        d < 16,
    ensures
        c == hex_digit_char(d as nat),
{
    if d < 10 {
        (d + 48) as char
    } else {
        (d + 55) as char
    }
}

/// `dec` in uppercase hexadecimal, without leading zeros (10 gives "A").
pub fn dec_to_hex(dec: u8) -> (r: String)
    ensures
        r@ == hex_digits(dec),
{
    let mut s = String::new();
    if dec >= 16 {
        s.push(hex_digit(dec / 16));
    }
    s.push(hex_digit(dec % 16));
    s
}

/// The value of one hex digit, or `None` for any other character.
fn hex_digit_of(c: char) -> (r: Option<u32>)
    ensures
        r is Some <==> is_hex_digit(c),
        r matches Some(v) ==> v == hex_digit_value(c) && v < 16,
{
    if '0' <= c && c <= '9' {
        Some(c as u32 - 48)
    } else if 'a' <= c && c <= 'f' {
        Some(c as u32 - 87)
    } else if 'A' <= c && c <= 'F' {
        Some(c as u32 - 55)
    } else {
        None
    }
}

/// Decodes one hexadecimal string into a byte.
pub fn hex_to_dec(hex: &String) -> (r: Result<u8, ConversionError>)
    ensures
        r == hex_to_byte(hex@),
{
    let ghost s = hex@;
    let mut value: u32 = 0;
    let mut too_large: bool = false;
    let mut empty: bool = true;
    for c in it: hex.as_str().chars()
        invariant
            it.seq() == s,
            s == hex@,
            empty <==> it.index() == 0,
            forall|j: int| 0 <= j < it.index() ==> is_hex_digit(#[trigger] s[j]),
            !too_large ==> value == hex_value(s.take(it.index())) && value <= 255,
            too_large ==> hex_value(s.take(it.index())) > 255,
    {
        let ghost i = it.index();
        assert(c == s[i]);
        assert(s.take(i + 1).drop_last() =~= s.take(i));
        match hex_digit_of(c) {
            None => {
                assert(!is_hex_digit(s[i]));
                return Err(ConversionError::InvalidHexDigit);
            },
            Some(d) => {
                if !too_large {
                    let next = 16 * value + d;
                    if next > 255 {
                        too_large = true;
                    } else {
                        value = next;
                    }
                }
            },
        }
        empty = false;
    }
    assert(s.take(s.len() as int) =~= s);
    if empty {
        Err(ConversionError::InvalidHexDigit)
    } else if too_large {
        Err(ConversionError::OutOfRange)
    } else {
        Ok(value as u8)
    }
}

} // verus!
