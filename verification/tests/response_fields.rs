use tpm2_test_vectors::parse::response_fields::{
    parse_binary, parse_encoded_response, parse_expansion_control_sequence, parse_hexadecimal,
    parse_tpm2b,
};
use tpm2_test_vectors::parse::scan::{ErrorKind, ParseFailure};
use tpm2_test_vectors::response::Part;


#[test]
fn test_parse_tpm2b() {
    assert_eq!(parse_tpm2b("TPM2B"), Ok(("", Part::TPM2B)));
    assert_eq!(
        parse_tpm2b("XXXXX"),
        Err(ParseFailure::new("XXXXX", ErrorKind::Tag))
    );
}

#[test]
fn test_parse_binary() {
    assert_eq!(
        parse_binary("0b00000000"),
        Ok(("", Part::Binary("00000000", 8)))
    );
    assert_eq!(
        parse_binary("0B00000001"),
        Ok(("", Part::Binary("00000001", 8)))
    );
    assert_eq!(
        parse_binary("0b00000101"),
        Ok(("", Part::Binary("00000101", 8)))
    );
    assert_eq!(
        parse_binary("0b1_0_1_0_0_0_0_0"),
        Ok(("", Part::Binary("1_0_1_0_0_0_0_0", 8)))
    );
    assert_eq!(
        parse_binary("0b********"),
        Ok(("", Part::Binary("********", 8)))
    );
    assert_eq!(
        parse_binary("0b1*******"),
        Ok(("", Part::Binary("1*******", 8)))
    );
    assert_eq!(
        parse_binary("0b"),
        Err(ParseFailure::new("", ErrorKind::OneOf))
    );
    assert_eq!(
        parse_binary("0b2"),
        Err(ParseFailure::new("2", ErrorKind::OneOf))
    );
    assert_eq!(
        parse_binary("0b1"),
        Err(ParseFailure::new("1", ErrorKind::Verify))
    );
    assert_eq!(
        parse_binary("0b1111111"),
        Err(ParseFailure::new("1111111", ErrorKind::Verify))
    );
    assert_eq!(
        parse_binary("0b1_1"),
        Err(ParseFailure::new("1_1", ErrorKind::Verify))
    );
    assert_eq!(
        parse_binary("0b1__1__1__1__1__1__1__1"),
        Ok(("", Part::Binary("1__1__1__1__1__1__1__1", 8)))
    );
    assert_eq!(
        parse_binary("0b11111111__"),
        Ok(("", Part::Binary("11111111__", 8)))
    );
    assert_eq!(
        parse_binary("0b_11111111"),
        Err(ParseFailure::new("_11111111", ErrorKind::OneOf))
    );
}

#[test]
fn tests_test_parse_expansion_control_sequence() {
    assert_eq!(
        parse_expansion_control_sequence("{TPM2B}"),
        Ok(("", Part::TPM2B))
    );
    assert_eq!(
        parse_expansion_control_sequence("{0b00000101}"),
        Ok(("", Part::Binary("00000101", 8)))
    );
    assert_eq!(
        parse_expansion_control_sequence("{0B********}"),
        Ok(("", Part::Binary("********", 8)))
    );
    assert_eq!(
        parse_expansion_control_sequence("{TPM2B"),
        Err(ParseFailure::new("", ErrorKind::Char))
    );
    assert_eq!(
        parse_expansion_control_sequence("TPM2B}"),
        Err(ParseFailure::new("TPM2B}", ErrorKind::Char))
    );
    assert_eq!(
        parse_expansion_control_sequence("{0b}"),
        Err(ParseFailure::new("}", ErrorKind::OneOf))
    );
    assert_eq!(
        parse_expansion_control_sequence("{}"),
        Err(ParseFailure::new("}", ErrorKind::Tag))
    );
    assert_eq!(
        parse_expansion_control_sequence("{invalid}"),
        Err(ParseFailure::new("invalid}", ErrorKind::Tag))
    );
    assert_eq!(
        parse_expansion_control_sequence("{tpm2b}"),
        Err(ParseFailure::new("tpm2b}", ErrorKind::Tag))
    );
}

#[test]
fn tests_test_parse_hexadecimal() {
    assert_eq!(parse_hexadecimal("0123"), Ok(("", Part::Hex("0123", 4))));
    assert_eq!(
        parse_hexadecimal("abcdef"),
        Ok(("", Part::Hex("abcdef", 6)))
    );
    assert_eq!(
        parse_hexadecimal("ABCDEF"),
        Ok(("", Part::Hex("ABCDEF", 6)))
    );
    assert_eq!(
        parse_hexadecimal("0_1_2_3"),
        Ok(("", Part::Hex("0_1_2_3", 4)))
    );
    assert_eq!(parse_hexadecimal("**"), Ok(("", Part::Hex("**", 2))));
    assert_eq!(parse_hexadecimal("A*"), Ok(("", Part::Hex("A*", 2))));
    assert_eq!(
        parse_hexadecimal("g"),
        Err(ParseFailure::new("g", ErrorKind::OneOf))
    );
    assert_eq!(
        parse_hexadecimal(""),
        Err(ParseFailure::new("", ErrorKind::OneOf))
    );
    assert_eq!(
        parse_hexadecimal("1"),
        Err(ParseFailure::new("1", ErrorKind::Verify))
    );
    assert_eq!(
        parse_hexadecimal("123"),
        Err(ParseFailure::new("123", ErrorKind::Verify))
    );
    assert_eq!(
        parse_hexadecimal("1_2_3"),
        Err(ParseFailure::new("1_2_3", ErrorKind::Verify))
    );
    assert_eq!(parse_hexadecimal("aBcD"), Ok(("", Part::Hex("aBcD", 4))));
    assert_eq!(parse_hexadecimal("1*2*"), Ok(("", Part::Hex("1*2*", 4))));
    assert_eq!(parse_hexadecimal("*1*2"), Ok(("", Part::Hex("*1*2", 4))));
    assert_eq!(parse_hexadecimal("1__2"), Ok(("", Part::Hex("1__2", 2))));
    assert_eq!(parse_hexadecimal("12__"), Ok(("", Part::Hex("12__", 2))));
    assert_eq!(
        parse_hexadecimal("_12"),
        Err(ParseFailure::new("_12", ErrorKind::OneOf))
    );
}

#[test]
fn tests_test_parse_encoded_response() {
    assert_eq!(
        parse_encoded_response("0123"),
        Ok(vec![Part::Hex("0123", 4)])
    );
    assert_eq!(parse_encoded_response("{TPM2B}"), Ok(vec![Part::TPM2B]));
    assert_eq!(
        parse_encoded_response("{0b00000101}"),
        Ok(vec![Part::Binary("00000101", 8)])
    );
    assert_eq!(
        parse_encoded_response("01{TPM2B}23"),
        Ok(vec![Part::Hex("01", 2), Part::TPM2B, Part::Hex("23", 2)])
    );
    assert_eq!(
        parse_encoded_response("{TPM2B}0123"),
        Ok(vec![Part::TPM2B, Part::Hex("0123", 4)])
    );
    assert_eq!(
        parse_encoded_response("0123{TPM2B}"),
        Ok(vec![Part::Hex("0123", 4), Part::TPM2B])
    );
    assert_eq!(
        parse_encoded_response("01{0b00000001}23"),
        Ok(vec![
            Part::Hex("01", 2),
            Part::Binary("00000001", 8),
            Part::Hex("23", 2)
        ])
    );
    assert_eq!(
        parse_encoded_response("01**23"),
        Ok(vec![Part::Hex("01**23", 6)])
    );
    assert_eq!(
        parse_encoded_response("{0b1*******}"),
        Ok(vec![Part::Binary("1*******", 8)])
    );
    assert_eq!(
        parse_encoded_response("01_23"),
        Ok(vec![Part::Hex("01_23", 4)])
    );
    assert_eq!(
        parse_encoded_response("{0b0000_0101}"),
        Ok(vec![Part::Binary("0000_0101", 8)])
    );
    assert_eq!(
        parse_encoded_response("01_23{0b0000_0001}"),
        Ok(vec![Part::Hex("01_23", 4), Part::Binary("0000_0001", 8)])
    );
    assert_eq!(
        parse_encoded_response("01g"),
        Err(ParseFailure::new("g", ErrorKind::Eof))
    );
    assert_eq!(
        parse_encoded_response(""),
        Err(ParseFailure::new("", ErrorKind::Char))
    );
    assert_eq!(
        parse_encoded_response("g"),
        Err(ParseFailure::new("g", ErrorKind::Char))
    );
    assert_eq!(
        parse_encoded_response("{0b}"),
        Err(ParseFailure::new("}", ErrorKind::OneOf))
    );
}
