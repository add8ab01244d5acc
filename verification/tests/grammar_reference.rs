//! Compares the field grammars with a combinator-based reading of the same
//! grammar on many generated strings.
use nom::branch::alt;
use nom::bytes::complete::tag;
use nom::character::complete::{char, one_of};
use nom::combinator::{all_consuming, recognize};
use nom::error::{Error, ErrorKind as NomKind};
use nom::multi::{many0, many1};
use nom::sequence::{delimited, preceded, terminated};
use nom::{Finish, IResult, Parser};

use tpm2_test_vectors::parse::{fields, input_fields, response_fields};
use tpm2_test_vectors::parse::scan::ErrorKind;
use tpm2_test_vectors::response::Part;

fn kind(k: NomKind) -> ErrorKind {
    match k {
        NomKind::Tag => ErrorKind::Tag,
        NomKind::Char => ErrorKind::Char,
        NomKind::OneOf => ErrorKind::OneOf,
        NomKind::Verify => ErrorKind::Verify,
        NomKind::Eof => ErrorKind::Eof,
        other => panic!("unexpected kind {:?}", other),
    }
}

fn digits<'a>(set: &'static str) -> impl Parser<&'a str, Output = &'a str, Error = Error<&'a str>> {
    recognize(many1(terminated(one_of(set), many0(char('_')))))
}

fn counted<'a>(
    input: &'a str,
    r: IResult<&'a str, &'a str>,
    multiple_of: usize,
    binary: bool,
) -> IResult<&'a str, Part<'a>> {
    let (rest, s) = r?;
    let count = s.chars().filter(|&c| c != '_').count();
    if count % multiple_of != 0 {
        return Err(nom::Err::Error(Error::new(input, NomKind::Verify)));
    }
    Ok((rest, if binary { Part::Binary(s, count) } else { Part::Hex(s, count) }))
}

fn hex_part(input: &str) -> IResult<&str, Part<'_>> {
    counted(input, digits("0123456789abcdefABCDEF*").parse(input), 2, false)
}

fn binary_part(input: &str) -> IResult<&str, Part<'_>> {
    let r = preceded(alt((tag("0b"), tag("0B"))), digits("01*")).parse(input);
    counted(input, r, 8, true)
}

fn tpm2b(input: &str) -> IResult<&str, Part<'_>> {
    nom::combinator::map(tag("TPM2B"), |_| Part::TPM2B).parse(input)
}

fn expansion(input: &str) -> IResult<&str, Part<'_>> {
    terminated(delimited(char('{'), alt((tpm2b, binary_part)), char('}')), many0(char('_')))
        .parse(input)
}

fn reference_response(input: &str) -> Result<Vec<Part<'_>>, (&str, ErrorKind)> {
    all_consuming(many1(alt((hex_part, expansion))))
        .parse(input)
        .finish()
        .map(|(_, parts)| parts)
        .map_err(|e| (e.input, kind(e.code)))
}

fn strict_binary(input: &str) -> IResult<&str, Part<'_>> {
    let (after, _) = alt((tag("0b"), tag("0B"))).parse(input)?;
    counted(after, digits("01*").parse(after), 8, true)
}

fn strict_expansion(input: &str) -> IResult<&str, Part<'_>> {
    delimited(char('{'), alt((tpm2b, strict_binary)), char('}')).parse(input)
}

fn reference_strict_response(input: &str) -> Result<Vec<Part<'_>>, (&str, ErrorKind)> {
    all_consuming(many1(alt((hex_part, strict_expansion))))
        .parse(input)
        .finish()
        .map(|(_, parts)| parts)
        .map_err(|e| (e.input, kind(e.code)))
}

fn reference_input(input: &str) -> Result<&str, (&str, ErrorKind)> {
    all_consuming(digits("0123456789abcdefABCDEF"))
        .parse(input)
        .finish()
        .map(|(_, s)| s)
        .map_err(|e| (e.input, kind(e.code)))
}

fn generated() -> Vec<String> {
    let alphabet: Vec<char> = "01aF*_{}TPM2Bbg".chars().collect();
    let pieces = ["{TPM2B}", "{0b0000_0001}", "{0B1*******}", "0123", "ab_", "{", "}", "0b"];
    let mut seed: u64 = 0x2545_f491_4f6c_dd1d;
    let mut next = |m: u64| {
        seed ^= seed << 13;
        seed ^= seed >> 7;
        seed ^= seed << 17;
        seed % m
    };
    let mut out = vec![String::new()];
    for _ in 0..4000 {
        let mut s = String::new();
        let n = next(8);
        for _ in 0..n {
            if next(3) == 0 {
                s.push_str(pieces[next(pieces.len() as u64) as usize]);
            } else {
                s.push(alphabet[next(alphabet.len() as u64) as usize]);
            }
        }
        out.push(s);
    }
    out
}

#[test]
fn response_grammar_agrees_with_combinators() {
    for s in generated() {
        let ours = fields::parse_encoded_response(&s).map_err(|e| (e.input, e.code));
        let theirs = reference_response(&s).map_err(|(i, k)| (i.to_string(), k));
        assert_eq!(ours, theirs, "on {:?}", s);
    }
}

#[test]
fn strict_response_grammar_agrees_with_combinators() {
    for s in generated() {
        let ours = response_fields::parse_encoded_response(&s).map_err(|e| (e.input, e.code));
        assert_eq!(ours, reference_strict_response(&s), "on {:?}", s);
    }
}

#[test]
fn input_grammar_agrees_with_combinators() {
    for s in generated() {
        let ours = fields::parse_encoded_input(&s).map_err(|e| (e.input, e.code));
        let theirs = reference_input(&s).map_err(|(i, k)| (i.to_string(), k));
        assert_eq!(ours, theirs, "on {:?}", s);
        let strict = input_fields::parse_encoded_input(&s).map_err(|e| (e.input, e.code));
        assert_eq!(strict, reference_input(&s), "on {:?}", s);
    }
}
