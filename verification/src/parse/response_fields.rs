//! A stricter grammar of encoded responses, whose failures keep a slice of
//! the input: expansion control sequences may not be followed by spaces, and
//! a binary literal's digit count is checked after its `0b` prefix.
use vstd::prelude::*;

use crate::parse::consts::{EXPANSION_END, EXPANSION_START};
use crate::parse::fields::{
    part_pos_as, part_step_as, slice_failure, sliced_part, spec_tpm2b_part,
    tpm2b_part_at, views_of, NumericLiteral,
};
use crate::parse::scan::{
    chars_of, count_non_spaces, digit_run, scan_digit_run, strip_spaces, Alphabet, ErrorKind,
    ParseFailure, Step,
};
use crate::response::{Part, PartView};

verus! {

pub open spec fn literal_alphabet(lit: NumericLiteral) -> Alphabet {
    match lit {
        NumericLiteral::Hex => Alphabet::HexWildcard,
        NumericLiteral::Binary => Alphabet::BinaryWildcard,
    }
}

/// A digit run of the literal's alphabet at `i` whose digit count (spaces
/// excluded) is a multiple of `multiple_of`; otherwise a `Verify` failure at
/// `i`.
pub open spec fn spec_with_count(s: Seq<char>, i: int, lit: NumericLiteral, multiple_of: nat) -> Step<PartView> {
    match digit_run(s, i, literal_alphabet(lit)) {
        Err(x) => Err(x),
        Ok(e) => {
            let count = strip_spaces(s.subrange(i, e)).len();
            if count % multiple_of != 0 {
                Err((i, ErrorKind::Verify))
            } else {
                Ok(
                    (
                        e,
                        match lit {
                            NumericLiteral::Hex => PartView::Hex(s.subrange(i, e), count as usize),
                            NumericLiteral::Binary => PartView::Binary(
                                s.subrange(i, e),
                                count as usize,
                            ),
                        },
                    ),
                )
            }
        },
    }
}

/// `0b` or `0B`, then binary digits holding whole bytes.
pub open spec fn spec_binary(s: Seq<char>, i: int) -> Step<PartView> {
    if 0 <= i && i + 2 <= s.len() && s[i] == '0' && (s[i + 1] == 'b' || s[i + 1] == 'B') {
        spec_with_count(s, i + 2, NumericLiteral::Binary, 8)
    } else {
        Err((i, ErrorKind::Tag))
    }
}

/// `{`, then `TPM2B` or a binary literal, then `}`.
pub open spec fn spec_expansion(s: Seq<char>, i: int) -> Step<PartView> {
    if !(0 <= i < s.len() && s[i] == EXPANSION_START) {
        Err((i, ErrorKind::Char))
    } else {
        let inner = match spec_tpm2b_part(s, i + 1) {
            Ok(x) => Ok(x),
            Err(_) => spec_binary(s, i + 1),
        };
        match inner {
            Err(x) => Err(x),
            Ok((p, part)) => if 0 <= p < s.len() && s[p] == EXPANSION_END {
                Ok((p + 1, part))
            } else {
                Err((p, ErrorKind::Char))
            },
        }
    }
}

pub open spec fn spec_item(s: Seq<char>, i: int) -> Step<PartView> {
    match spec_with_count(s, i, NumericLiteral::Hex, 2) {
        Ok(x) => Ok(x),
        Err(_) => spec_expansion(s, i),
    }
}

pub open spec fn spec_items(s: Seq<char>, i: int) -> (int, Seq<PartView>)
    decreases s.len() - i,
{
    match spec_item(s, i) {
        Ok((p, part)) => if i < p <= s.len() {
            let rest = spec_items(s, p);
            (rest.0, seq![part] + rest.1)
        } else {
            (i, Seq::empty())
        },
        Err(_) => (i, Seq::empty()),
    }
}

pub open spec fn spec_response(s: Seq<char>) -> Result<Seq<PartView>, (int, ErrorKind)> {
    match spec_item(s, 0) {
        Err(x) => Err(x),
        Ok((p, first)) => {
            let rest = spec_items(s, p);
            if rest.0 == s.len() {
                Ok(seq![first] + rest.1)
            } else {
                Err((rest.0, ErrorKind::Eof))
            }
        },
    }
}

fn with_count_at<'a>(input: &'a str, s: &Vec<char>, i: usize, lit: NumericLiteral, multiple_of: usize) -> (r: Result<(usize, Part<'a>), (usize, ErrorKind)>)
    requires
        s@ == input@,
        i <= s@.len(),
        multiple_of > 0,
    ensures
        part_pos_as(r, spec_with_count(s@, i as int, lit, multiple_of as nat)),
        r matches Ok((e, _)) ==> i < e <= s@.len(),
        r matches Err((q, _)) ==> q <= s@.len(),
{
    let alphabet = match lit {
        NumericLiteral::Hex => Alphabet::HexWildcard,
        NumericLiteral::Binary => Alphabet::BinaryWildcard,
    };
    match scan_digit_run(s, i, alphabet) {
        Err(x) => Err(x),
        Ok(e) => {
            let count = count_non_spaces(s, i, e);
            if count % multiple_of != 0 {
                Err((i, ErrorKind::Verify))
            } else {
                let text = input.substring_char(i, e);
                let part = match lit {
                    NumericLiteral::Hex => Part::Hex(text, count),
                    NumericLiteral::Binary => Part::Binary(text, count),
                };
                Ok((e, part))
            }
        },
    }
}

fn binary_at<'a>(input: &'a str, s: &Vec<char>, i: usize) -> (r: Result<(usize, Part<'a>), (usize, ErrorKind)>)
    requires
        s@ == input@,
        i <= s@.len(),
    ensures
        part_pos_as(r, spec_binary(s@, i as int)),
        r matches Ok((e, _)) ==> i < e <= s@.len(),
        r matches Err((q, _)) ==> q <= s@.len(),
{
    if i < s.len() && s.len() - i >= 2 && s[i] == '0' && (s[i + 1] == 'b' || s[i + 1] == 'B') {
        with_count_at(input, s, i + 2, NumericLiteral::Binary, 8)
    } else {
        Err((i, ErrorKind::Tag))
    }
}

fn expansion_at<'a>(input: &'a str, s: &Vec<char>, i: usize) -> (r: Result<(usize, Part<'a>), (usize, ErrorKind)>)
    requires
        s@ == input@,
        i <= s@.len(),
    ensures
        part_pos_as(r, spec_expansion(s@, i as int)),
        r matches Ok((e, _)) ==> i < e <= s@.len(),
        r matches Err((q, _)) ==> q <= s@.len(),
{
    if !(i < s.len() && s[i] == EXPANSION_START) {
        return Err((i, ErrorKind::Char));
    }
    let inner = match tpm2b_part_at(s, i + 1) {
        Ok(x) => Ok(x),
        Err(_) => binary_at(input, s, i + 1),
    };
    match inner {
        Err(x) => Err(x),
        Ok((p, part)) => {
            if p < s.len() && s[p] == EXPANSION_END {
                Ok((p + 1, part))
            } else {
                Err((p, ErrorKind::Char))
            }
        },
    }
}

fn item_at<'a>(input: &'a str, s: &Vec<char>, i: usize) -> (r: Result<(usize, Part<'a>), (usize, ErrorKind)>)
    requires
        s@ == input@,
        i <= s@.len(),
    ensures
        part_pos_as(r, spec_item(s@, i as int)),
        r matches Ok((e, _)) ==> i < e <= s@.len(),
        r matches Err((q, _)) ==> q <= s@.len(),
{
    match with_count_at(input, s, i, NumericLiteral::Hex, 2) {
        Ok(x) => Ok(x),
        Err(_) => expansion_at(input, s, i),
    }
}

/// Parse a TPM2B expansion control sequence. This "expands" to the contents
/// of a TPM2B in the response, which is a big-endian u16 length followed by
/// that many bytes.
pub fn parse_tpm2b<'a>(input: &'a str) -> (r: Result<(&'a str, Part<'a>), ParseFailure<'a>>)
    ensures
        part_step_as(input@, r, spec_tpm2b_part(input@, 0)),
{
    let s = chars_of(input);
    sliced_part(input, tpm2b_part_at(&s, 0))
}

/// Parse a binary expansion control sequence. This allows for precision in
/// matching specific bits in the response.
pub fn parse_binary<'a>(input: &'a str) -> (r: Result<(&'a str, Part<'a>), ParseFailure<'a>>)
    ensures
        part_step_as(input@, r, spec_binary(input@, 0)),
{
    let s = chars_of(input);
    sliced_part(input, binary_at(input, &s, 0))
}

/// Parse one of the expansion control sequences.
pub fn parse_expansion_control_sequence<'a>(input: &'a str) -> (r: Result<(&'a str, Part<'a>), ParseFailure<'a>>)
    ensures
        part_step_as(input@, r, spec_expansion(input@, 0)),
{
    let s = chars_of(input);
    sliced_part(input, expansion_at(input, &s, 0))
}

/// Parse the hexadecimal portion of the response, including wildcards.
pub fn parse_hexadecimal<'a>(input: &'a str) -> (r: Result<(&'a str, Part<'a>), ParseFailure<'a>>)
    ensures
        part_step_as(input@, r, spec_with_count(input@, 0, NumericLiteral::Hex, 2)),
{
    parse_with_count(input, NumericLiteral::Hex, 2)
}

/// Reads a digit run of the literal's alphabet (hexadecimal or binary, both
/// with wildcards), ensures it holds a multiple of `multiple_of` digits
/// excluding spaces, and makes the matching [`Part`].
pub fn parse_with_count<'a>(input: &'a str, literal: NumericLiteral, multiple_of: usize) -> (r: Result<(&'a str, Part<'a>), ParseFailure<'a>>)
    requires
        multiple_of > 0,
    ensures
        part_step_as(input@, r, spec_with_count(input@, 0, literal, multiple_of as nat)),
{
    let s = chars_of(input);
    sliced_part(input, with_count_at(input, &s, 0, literal, multiple_of))
}

/// Parse an encoded response
pub fn parse_encoded_response<'a>(input: &'a str) -> (r: Result<Vec<Part<'a>>, ParseFailure<'a>>)
    ensures
        match spec_response(input@) {
            Ok(parts) => r matches Ok(v) && views_of(v@) == parts,
            Err((q, k)) => r matches Err(e) && e.input@ == input@.skip(q) && e.code == k,
        },
{
    let s = chars_of(input);
    let (first_end, first) = match item_at(input, &s, 0) {
        Ok(x) => x,
        Err(at) => return Err(slice_failure(input, at)),
    };
    let mut parts: Vec<Part<'a>> = Vec::new();
    parts.push(first);
    let mut p = first_end;
    assert(views_of(parts@) =~= seq![first@]);
    loop
        invariant
            s@ == input@,
            p <= s@.len(),
            spec_item(s@, 0) matches Ok((first_p, first_part)) && ({
                let rest = spec_items(s@, first_p);
                let here = spec_items(s@, p as int);
                rest.0 == here.0 && seq![first_part] + rest.1 == views_of(parts@) + here.1
            }),
        ensures
            p <= s@.len(),
            spec_item(s@, 0) matches Ok((first_p, first_part)) && ({
                let rest = spec_items(s@, first_p);
                rest.0 == p && seq![first_part] + rest.1 == views_of(parts@)
            }),
        decreases s@.len() - p,
    {
        match item_at(input, &s, p) {
            Ok((q, part)) => {
                let ghost before = views_of(parts@);
                parts.push(part);
                assert(views_of(parts@) =~= before.push(part@));
                assert(seq![part@] + spec_items(s@, q as int).1 =~= spec_items(s@, p as int).1);
                assert(before + spec_items(s@, p as int).1 =~= views_of(parts@) + spec_items(
                    s@,
                    q as int,
                ).1);
                p = q;
            },
            Err(_) => {
                assert(spec_items(s@, p as int).1 =~= Seq::<PartView>::empty());
                assert(views_of(parts@) + Seq::<PartView>::empty() =~= views_of(parts@));
                break ;
            },
        }
    }
    if p == s.len() {
        Ok(parts)
    } else {
        Err(slice_failure(input, (p, ErrorKind::Eof)))
    }
}

} // verus!
