use ascii_converter::{
    binary_to_decimal, binary_to_hexadecimal, binary_to_string, dec_to_hex,
    decimal_to_hexadecimal, decimals_to_binary, decimals_to_string, hexadecimal_to_binary,
    hexadecimal_to_decimal, hexadecimal_to_string, string_to_binary, string_to_decimals,
    string_to_hexadecimal, ConversionError, Converter,
};

fn hello_hex() -> Vec<String> {
    vec![
        "68".to_string(),
        "65".to_string(),
        "6C".to_string(),
        "6C".to_string(),
        "6F".to_string(),
    ]
}

#[test]
fn converter_new_with_characters() {
    let expected_binary = vec![1101000, 1100101, 1101100, 1101100, 1101111];
    let converter = Converter::from_characters("hello".to_string()).unwrap();

    let expected_decimal = vec![104, 101, 108, 108, 111];

    let expected_hexadecimal = hello_hex();

    assert_eq!(converter.charcters, "hello".to_string());
    assert_eq!(converter.decimal, expected_decimal);
    assert_eq!(converter.hexadecimal, expected_hexadecimal);
    assert_eq!(converter.binary, expected_binary);
}

#[test]
fn converter_new_with_binary() {
    let input = vec![1101000, 1100101, 1101100, 1101100, 1101111];
    let converter = Converter::from_binary(input.clone()).unwrap();

    let expected_decimal = vec![104, 101, 108, 108, 111];

    let expected_hexadecimal = hello_hex();

    assert_eq!(converter.charcters, "hello".to_string());
    assert_eq!(converter.decimal, expected_decimal);
    assert_eq!(converter.hexadecimal, expected_hexadecimal);
    assert_eq!(converter.binary, input);
}

#[test]
fn converter_new_with_hexadecimal() {
    let input = hello_hex();
    let expected_binary = vec![1101000, 1100101, 1101100, 1101100, 1101111];
    let converter = Converter::from_hexadecimal(input.clone()).unwrap();

    let expected_decimal = vec![104, 101, 108, 108, 111];

    assert_eq!(converter.charcters, "hello".to_string());
    assert_eq!(converter.decimal, expected_decimal);
    assert_eq!(converter.hexadecimal, input);
    assert_eq!(converter.binary, expected_binary);
}

#[test]
fn converter_new_with_decimal() {
    let input = vec![104, 101, 108, 108, 111];
    let expected_binary = vec![1101000, 1100101, 1101100, 1101100, 1101111];
    let converter = Converter::from_decimal(input.clone()).unwrap();

    let expected_hexadecimal = hello_hex();

    assert_eq!(converter.charcters, "hello".to_string());
    assert_eq!(converter.decimal, input);
    assert_eq!(converter.hexadecimal, expected_hexadecimal);
    assert_eq!(converter.binary, expected_binary);
}

#[test]
fn hexadecimal_to_string_test_happy_path() {
    let input = hello_hex();
    let expected = "hello".to_string();

    assert_eq!(hexadecimal_to_string(input), Ok(expected));
}

#[test]
fn hexadecimal_to_string_test_unhappy_path() {
    let input = vec![
        "6rtdfg8".to_string(),
        "65".to_string(),
        "6C".to_string(),
        "6C".to_string(),
        "6F".to_string(),
    ];

    assert_eq!(hexadecimal_to_string(input), Err(ConversionError::InvalidHexDigit));
}

#[test]
fn string_to_hexadecimal_test_happy_path() {
    let input = "hello".to_string();
    let expected = hello_hex();

    assert_eq!(string_to_hexadecimal(input), Ok(expected));
}

#[test]
fn string_to_hexadecimal_test_unhappy_path() {
    let input = "☢️".to_string();

    assert_eq!(string_to_hexadecimal(input), Err(ConversionError::NotAscii));
}

#[test]
fn binary_to_hexadecimal_test_happy_path() {
    let input = vec![1101000, 1100101, 1101100, 1101100, 1101111];
    let expected = hello_hex();

    assert_eq!(binary_to_hexadecimal(&input), Ok(expected));
}

#[test]
fn binary_to_hexadecimal_test_unhappy_path() {
    let input = vec![86, 1100101, 1101100, 1101100, 1101111];

    assert_eq!(binary_to_hexadecimal(&input), Err(ConversionError::NotBinaryDigits));
}

#[test]
fn hexadecimal_to_binary_test_happy_path() {
    let input = hello_hex();
    let expected = vec![1101000, 1100101, 1101100, 1101100, 1101111];

    assert_eq!(hexadecimal_to_binary(input), Ok(expected));
}

#[test]
fn hexadecimal_to_binary_test_unhappy_path() {
    let input = vec![
        "68".to_string(),
        "65z".to_string(),
        "6C".to_string(),
        "6C".to_string(),
        "6F".to_string(),
    ];

    assert_eq!(hexadecimal_to_binary(input), Err(ConversionError::InvalidHexDigit));
}

#[test]
fn hexadecimal_to_decimal_test_happy_path() {
    let input = hello_hex();
    let expected = vec![104, 101, 108, 108, 111];

    assert_eq!(hexadecimal_to_decimal(input), Ok(expected));
}

#[test]
fn hexadecimal_to_decimal_test_unhappy_path() {
    let input = vec![
        "68".to_string(),
        "65sdf".to_string(),
        "6C".to_string(),
        "6C".to_string(),
        "6F".to_string(),
    ];

    assert_eq!(hexadecimal_to_decimal(input), Err(ConversionError::InvalidHexDigit));
}

#[test]
fn decimal_to_hexadecimal_test_happy_path() {
    let input = vec![104, 101, 108, 108, 111];
    let expected = hello_hex();

    assert_eq!(decimal_to_hexadecimal(input), Ok(expected));
}

#[test]
fn decimal_to_hexadecimal_test_unhappy_path() {
    let input = vec![127];

    assert_eq!(decimal_to_hexadecimal(input), Err(ConversionError::OutOfRange));
}

#[test]
fn dec_to_hex_test_happy_path() {
    let expected = "A";

    assert_eq!(dec_to_hex(10), expected);
}

#[test]
fn string_to_decimals_test_happy_path() {
    let expected = vec![104, 101, 108, 108, 111];

    assert_eq!(string_to_decimals("hello"), Ok(expected));
}

#[test]
fn string_to_decimals_test_happy_none_alphabetical() {
    let expected = vec![
        49, 50, 51, 52, 53, 54, 55, 56, 57, 48, 32, 33, 36, 37, 94, 38, 42, 40, 41, 45, 95, 61,
        43, 123, 125, 91, 93, 59, 58, 64, 39, 126, 35, 60, 44, 46, 62, 47, 63,
    ];

    assert_eq!(string_to_decimals("1234567890 !$%^&*()-_=+{}[];:@'~#<,.>/?"), Ok(expected));
}

#[test]
fn string_to_decimals_test_happy_alphabetical() {
    let expected = vec![
        113, 119, 101, 114, 116, 121, 117, 105, 111, 112, 97, 115, 100, 102, 103, 104, 106, 107,
        108, 122, 120, 99, 118, 98, 110, 109, 81, 87, 69, 82, 84, 89, 85, 73, 79, 80, 65, 83, 68,
        70, 71, 72, 74, 75, 76, 90, 88, 67, 86, 66, 78, 77,
    ];

    assert_eq!(
        string_to_decimals("qwertyuiopasdfghjklzxcvbnmQWERTYUIOPASDFGHJKLZXCVBNM"),
        Ok(expected)
    );
}

#[test]
fn string_to_decimals_test_unhappy_path() {
    assert_eq!(string_to_decimals("☢️"), Err(ConversionError::NotAscii));
}

#[test]
fn decimals_to_binary_test_happy_path() {
    let input = vec![104, 101, 108, 108, 111];
    let expected = vec![1101000, 1100101, 1101100, 1101100, 1101111];

    assert_eq!(decimals_to_binary(&input), Ok(expected));
}

#[test]
fn decimals_to_binary_test_unhappy_path() {
    let input = vec![127];

    assert_eq!(decimals_to_binary(&input), Err(ConversionError::OutOfRange));
}

#[test]
fn decimals_to_binary_test_max_num() {
    let input = vec![126];
    let expected = vec![01111110];

    assert_eq!(decimals_to_binary(&input), Ok(expected));
}

#[test]
fn decimals_to_binary_test_min_num() {
    let input = vec![0];
    let expected = vec![0];

    assert_eq!(decimals_to_binary(&input), Ok(expected));
}

#[test]
fn binary_to_decimal_test_happy_path() {
    let input = vec![1101000, 1100101, 1101100, 1101100, 1101111];
    let expected = vec![104, 101, 108, 108, 111];

    assert_eq!(binary_to_decimal(&input), Ok(expected));
}

#[test]
fn binary_to_decimal_test_unhappy_path() {
    let input = vec![30340];

    assert_eq!(binary_to_decimal(&input), Err(ConversionError::NotBinaryDigits));
}

#[test]
fn decimals_to_string_test_happy_path() {
    let input = vec![104, 101, 108, 108, 111];

    assert_eq!(decimals_to_string(&input), Ok("hello".to_string()));
}

#[test]
fn decimals_to_string_test_unhappy_path() {
    let input = vec![168];

    assert_eq!(decimals_to_string(&input), Err(ConversionError::OutOfRange));
}

#[test]
fn binary_to_string_test_happy_path() {
    let input = vec![1101000, 1100101, 1101100, 1101100, 1101111];

    assert_eq!(binary_to_string(&input), Ok("hello".to_string()));
}

#[test]
fn binary_to_string_test_unhappy_path_none_binary() {
    let input = vec![104];

    assert_eq!(binary_to_string(&input), Err(ConversionError::NotBinaryDigits));
}

#[test]
fn binary_to_string_test_unhappy_path_out_of_range() {
    let input = vec![1];

    assert_eq!(binary_to_string(&input), Err(ConversionError::OutOfRange));
}

#[test]
fn string_to_binary_test_happy_path() {
    let expected = vec![1101000, 1100101, 1101100, 1101100, 1101111];

    assert_eq!(string_to_binary("hello"), Ok(expected));
}

#[test]
fn string_to_binary_test_unhappy_path() {
    assert_eq!(string_to_binary("☢️"), Err(ConversionError::NotAscii));
}
