use tpm2_test_vectors::input::{EncodedInput, HexDecodeError, Input, InputEvaluationError};
use tpm2_test_vectors::parse;
use tpm2_test_vectors::parse::fields::GrammarError;
use tpm2_test_vectors::parse::scan::ErrorKind;
use tpm2_test_vectors::parse::ParseError;

#[test]
fn to_tpm_bytes_decodes_digits() {
    let encoded = EncodedInput::from("80_01_00_00_00_0c_00_00_01_44_00_00");
    assert_eq!(
        Input::to_tpm_bytes(&encoded).unwrap(),
        vec![0x80, 0x01, 0, 0, 0, 0x0c, 0, 0, 0x01, 0x44, 0, 0]
    );
    let encoded = EncodedInput::from(String::from("aBcD"));
    assert_eq!(Input::to_tpm_bytes(&encoded).unwrap(), vec![0xab, 0xcd]);
}

#[test]
fn to_tpm_bytes_odd_length() {
    let encoded = EncodedInput::from("012");
    match Input::to_tpm_bytes(&encoded) {
        Err(InputEvaluationError::FromHex(e)) => assert_eq!(e, HexDecodeError::OddLength),
        other => panic!("unexpected {:?}", other),
    }
}

#[test]
fn to_tpm_bytes_parse_error() {
    let encoded = EncodedInput::from("01_zz");
    match Input::to_tpm_bytes(&encoded) {
        Err(InputEvaluationError::Parse(ParseError::Nom(GrammarError { input, code }))) => {
            assert_eq!(input, "zz");
            assert_eq!(code, ErrorKind::Eof);
        }
        other => panic!("unexpected {:?}", other),
    }
}

#[test]
fn to_bytes_invalid_character() {
    let encoded = EncodedInput::default();
    let input = Input::new(&encoded, "0g_12");
    match input.to_bytes() {
        Err(InputEvaluationError::FromHex(e)) => {
            assert_eq!(e, HexDecodeError::InvalidHexCharacter { c: 'g', index: 1 })
        }
        other => panic!("unexpected {:?}", other),
    }
    assert_eq!(Input::new(&encoded, "").to_bytes().unwrap(), Vec::<u8>::new());
}

#[test]
fn input_len_excludes_spaces() {
    let encoded = EncodedInput::from("01_02_03_");
    let input = parse::input(&encoded).unwrap();
    assert_eq!(input.len(), 3);
    assert!(!input.is_empty());
    assert_eq!(input.to_bytes().unwrap().len(), input.len());
    let empty = EncodedInput::default();
    assert!(Input::new(&empty, "_").is_empty());
    assert_eq!(Input::new(&empty, "123").len(), 1);
}

#[test]
fn input_messages() {
    let e = InputEvaluationError::FromHex(HexDecodeError::OddLength);
    assert_eq!(e.message(), "error converting input to bytes");
    let e = InputEvaluationError::Parse(ParseError::Nom(GrammarError {
        input: String::new(),
        code: ErrorKind::OneOf,
    }));
    assert_eq!(e.message(), "error parsing encoded input");
}

#[test]
fn parse_input_error() {
    match parse::input(&EncodedInput::from("")) {
        Err(ParseError::Nom(GrammarError { input, code })) => {
            assert_eq!(input, "");
            assert_eq!(code, ErrorKind::OneOf);
        }
        other => panic!("unexpected {:?}", other.map(|i| i.len())),
    }
}
