use tpm2_test_vectors::parse;
use tpm2_test_vectors::parse::fields::GrammarError;
use tpm2_test_vectors::parse::scan::ErrorKind;
use tpm2_test_vectors::parse::ParseError;
use tpm2_test_vectors::response::{
    hex_string_to_binary, hex_string_to_u16, CompareType, EncodedResponse, Part, Response,
    ResponseEvaluationError,
};

fn evaluate(encoded: &str, data: &[u8]) -> Result<(), ResponseEvaluationError> {
    Response::evaluate(&EncodedResponse::from(encoded), data)
}

#[test]
fn evaluate_exact_hex_matches() {
    assert!(evaluate("8001000000160000", &[0x80, 0x01, 0, 0, 0, 0x16, 0, 0]).is_ok());
    assert!(evaluate("ABCDEF", &[0xab, 0xcd, 0xef]).is_ok());
    assert!(evaluate("ab_cd_ef", &[0xab, 0xcd, 0xef]).is_ok());
}

#[test]
fn trailing_data_keeps_a_match() {
    assert!(evaluate("0102", &[0x01, 0x02, 0x03, 0x04]).is_ok());
    assert!(check_parts(vec![Part::Hex("0102", 4), Part::TPM2B], "0102000100ffee").is_ok());
    assert!(check_parts(vec![Part::Hex("0102", 4)], "0102 anything").is_ok());
}

#[test]
fn evaluate_wildcards_match_anything() {
    assert!(evaluate("80**_****", &[0x80, 0x12, 0x34, 0x56]).is_ok());
    assert!(evaluate("********", &[0xde, 0xad, 0xbe, 0xef]).is_ok());
}

#[test]
fn evaluate_mismatch_reports_position() {
    match evaluate("01_02_03", &[0x01, 0x02, 0x04]) {
        Err(ResponseEvaluationError::PartMismatch(want, got, index, per_byte, matched)) => {
            assert_eq!(want, "010203");
            assert_eq!(got, "010204");
            assert_eq!(index, 5);
            assert_eq!(per_byte, 2);
            assert_eq!(matched, 0);
        }
        other => panic!("unexpected {:?}", other),
    }
}

#[test]
fn evaluate_mismatch_after_matched_part() {
    match evaluate("01{TPM2B}ff", &[0x01, 0x00, 0x01, 0xaa, 0xfe]) {
        Err(ResponseEvaluationError::PartMismatch(want, got, index, per_byte, matched)) => {
            assert_eq!(want, "ff");
            assert_eq!(got, "fe");
            assert_eq!(index, 1);
            assert_eq!(per_byte, 2);
            assert_eq!(matched, 4);
        }
        other => panic!("unexpected {:?}", other),
    }
}

#[test]
fn evaluate_binary_part() {
    assert!(evaluate("{0b1000_0000}01", &[0x80, 0x01]).is_ok());
    assert!(evaluate("{0b1*******}", &[0xff]).is_ok());
    match evaluate("{0b0000_0001}", &[0x03]) {
        Err(ResponseEvaluationError::PartMismatch(want, got, index, per_byte, matched)) => {
            assert_eq!(want, "00000001");
            assert_eq!(got, "00000011");
            assert_eq!(index, 6);
            assert_eq!(per_byte, 8);
            assert_eq!(matched, 0);
        }
        other => panic!("unexpected {:?}", other),
    }
}

#[test]
fn evaluate_tpm2b_part() {
    assert!(evaluate("{TPM2B}", &[0x00, 0x02, 0xaa, 0xbb]).is_ok());
    assert!(evaluate("{TPM2B}cc", &[0x00, 0x00, 0xcc]).is_ok());
    match evaluate("{TPM2B}", &[0x00, 0x03, 0xaa]) {
        Err(ResponseEvaluationError::PartExtendsBeyondResponse(want, got)) => {
            assert_eq!(want, 6);
            assert_eq!(got, 2);
        }
        other => panic!("unexpected {:?}", other),
    }
}

#[test]
fn evaluate_response_too_short() {
    match evaluate("01020304", &[0x01]) {
        Err(ResponseEvaluationError::ResponseTooShort(want, got)) => {
            assert_eq!(want, 4);
            assert_eq!(got, 2);
        }
        other => panic!("unexpected {:?}", other),
    }
}

#[test]
fn evaluate_part_extends_beyond_response() {
    // min_len counts bytes while the data is counted in hex characters.
    match evaluate("010203", &[0x01, 0x02]) {
        Err(ResponseEvaluationError::PartExtendsBeyondResponse(want, got)) => {
            assert_eq!(want, 6);
            assert_eq!(got, 4);
        }
        other => panic!("unexpected {:?}", other),
    }
}

#[test]
fn evaluate_parse_error() {
    match evaluate("01g", &[0x01]) {
        Err(ResponseEvaluationError::Parse(ParseError::Nom(GrammarError { input, code }))) => {
            assert_eq!(input, "g");
            assert_eq!(code, ErrorKind::Eof);
        }
        other => panic!("unexpected {:?}", other),
    }
}

fn check_parts(parts: Vec<Part<'_>>, data: &str) -> Result<(), ResponseEvaluationError> {
    let encoded = EncodedResponse::from("");
    Response::new(&encoded, parts).check(data)
}

#[test]
fn compare_parts() {
    assert!(check_parts(vec![Part::lt("80", 2)], "7f").is_ok());
    assert!(check_parts(vec![Part::lt("80", 2)], "80").is_err());
    assert!(check_parts(vec![Part::le("80", 2)], "80").is_ok());
    assert!(check_parts(vec![Part::gt("80", 2)], "81").is_ok());
    assert!(check_parts(vec![Part::gt("80", 2)], "80").is_err());
    assert!(check_parts(vec![Part::ge("8_0", 2)], "80").is_ok());
    assert!(check_parts(vec![Part::not("AB", 2)], "ab").is_err());
    assert!(check_parts(vec![Part::not("AB", 2)], "ac").is_ok());
    match check_parts(vec![Part::Hex("01", 2), Part::lt("0_5", 2)], "0109") {
        Err(ResponseEvaluationError::PartCompareFailure(want, got, matched)) => {
            assert_eq!(want, "05");
            assert_eq!(got, "09");
            assert_eq!(matched, 1);
        }
        other => panic!("unexpected {:?}", other),
    }
}

#[test]
fn part_constructors_and_min_len() {
    assert_eq!(Part::not("ab", 2), Part::Compare(CompareType::Not, "ab", 2));
    assert_eq!(Part::lt("ab", 2), Part::Compare(CompareType::LessThan, "ab", 2));
    assert_eq!(Part::le("ab", 2), Part::Compare(CompareType::LessThanOrEqual, "ab", 2));
    assert_eq!(Part::gt("ab", 2), Part::Compare(CompareType::GreaterThan, "ab", 2));
    assert_eq!(Part::ge("ab", 2), Part::Compare(CompareType::GreaterThanOrEqual, "ab", 2));
    assert_eq!(Part::Hex("0123", 4).min_len(), 2);
    assert_eq!(Part::Binary("00000000", 8).min_len(), 1);
    assert_eq!(Part::TPM2B.min_len(), 2);
    assert_eq!(Part::Compare(CompareType::Not, "ab", 2).min_len(), 1);
}

#[test]
fn response_min_len_is_sum_of_parts() {
    let encoded = EncodedResponse::from("01{TPM2B}{0b00000001}2345");
    let response = parse::response(&encoded).unwrap();
    assert_eq!(response.min_len(), 1 + 2 + 1 + 2);
}

#[test]
fn hex_string_conversions() {
    assert_eq!(hex_string_to_binary("a5"), "10100101");
    assert_eq!(hex_string_to_binary("F_0"), "11110000");
    assert_eq!(hex_string_to_binary(""), "");
    assert_eq!(hex_string_to_u16("00ff"), 255);
    assert_eq!(hex_string_to_u16("ABCD"), 0xabcd);
    assert_eq!(hex_string_to_u16("x1"), 1);
    assert_eq!(hex_string_to_u16("1x"), 1);
    assert_eq!(hex_string_to_u16("1_2"), 0x12);
    assert_eq!(hex_string_to_u16("1_00"), 0x100);
}

#[test]
fn tpm2b_size_ignores_other_characters() {
    // The size field "0_1_" holds the digits 01: one byte follows.
    assert!(check_parts(vec![Part::TPM2B], "0_1_aa").is_ok());
    assert!(check_parts(vec![Part::TPM2B], "1_00").is_err());
}

#[test]
fn evaluation_messages() {
    assert_eq!(
        ResponseEvaluationError::ResponseTooShort(10, 4).message(),
        "\nTPM response too short\n  want: >= 10\n   got: 4"
    );
    assert_eq!(
        ResponseEvaluationError::PartExtendsBeyondResponse(6, 2).message(),
        "\nTPM response part extends beyond end of response\n  want: >= 6\n   got: 2"
    );
    assert_eq!(
        ResponseEvaluationError::InvalidPart("zz".to_string(), 3).message(),
        "invalid response part: \"zz\": 3 bytes to match"
    );
    assert_eq!(
        ResponseEvaluationError::InvalidPart("zz".to_string(), 0).message(),
        "invalid response part: \"zz\""
    );
    assert_eq!(
        ResponseEvaluationError::PartMismatch("010203".to_string(), "010204".to_string(), 5, 2, 0)
            .message(),
        "\nTPM response part mismatch\n  want: 010203\n   got: 010204\n             ^ mismatch begins in byte 3\n        "
    );
    assert_eq!(
        ResponseEvaluationError::PartMismatch("ff".to_string(), "fe".to_string(), 1, 2, 4).message(),
        "\nTPM response part mismatch\n  want: ...ff\n   got: ...fe\n            ^ mismatch begins in byte 5\n        ^^^ omitted 4 matched bytes"
    );
    assert_eq!(
        ResponseEvaluationError::PartMismatch("ff".to_string(), "0f".to_string(), 0, 2, 0).message(),
        "\nTPM response part mismatch\n  want: ff\n   got: 0f\n         ^ mismatch begins in byte 1\n        "
    );
    assert_eq!(
        ResponseEvaluationError::PartCompareFailure("05".to_string(), "09".to_string(), 1).message(),
        "\nTPM response part compare failure\n  want: ...05\n   got: ...09\n"
    );
    assert_eq!(
        ResponseEvaluationError::Parse(ParseError::Nom(GrammarError {
            input: "g".to_string(),
            code: ErrorKind::Eof
        }))
        .message(),
        "error parsing encoded response"
    );
}

#[test]
fn part_messages() {
    assert_eq!(Part::Hex("01_23", 4).message(), "Part \"01_23\": 4 bytes to match");
    assert_eq!(Part::TPM2B.message(), "TPM2B");
    assert_eq!(Part::le("ff", 2).message(), "Compare <= \"ff\": 2 bytes to match");
    assert_eq!(CompareType::GreaterThanOrEqual.symbol(), ">=");
    assert_eq!(CompareType::Not.symbol(), "!");
}
