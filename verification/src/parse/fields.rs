//! The grammar of the encoded input and response fields of a test vector.
//!
//! An encoded input is a run of hexadecimal digits, optionally separated by
//! [`SPACE`] characters. An encoded response is a sequence of parts: runs of
//! hexadecimal digits and wildcards holding whole bytes, and expansion
//! control sequences between [`EXPANSION_START`] and [`EXPANSION_END`]
//! (`TPM2B`, or a binary literal `0b...` holding whole bytes), each of which
//! may be followed by spaces.
use vstd::prelude::*;

use crate::parse::consts::{EXPANSION_END, EXPANSION_START, SPACE};
use crate::parse::scan::{
    chars_of, count_non_spaces, digit_run, has_tag_at, lemma_run_end_bounds, lemma_spaces_end_bounds,
    lemma_strip_spaces_len, same_position, recognized_as, scan_digit_run,
    skip_spaces, spaces_end, strip_spaces, Alphabet, ErrorKind, ParseFailure, Step,
};
use crate::response::{lemma_sum_min_len_concat, part_min_len, sum_min_len, Part, PartView};

verus! {

/// The error returned from reading a whole field: the rest of the field at
/// the point of failure, and the kind of failure.
#[derive(Debug, PartialEq, Eq)]
pub struct GrammarError {
    pub input: String,
    pub code: ErrorKind,
}

/// The two kinds of numeric literal a response part can be written in.
#[derive(Clone, Copy, Debug, PartialEq, Eq, Structural)]
pub enum NumericLiteral {
    /// Hexadecimal digits and wildcards, making a [`Part::Hex`].
    Hex,
    /// `0b` or `0B`, then binary digits and wildcards, making a
    /// [`Part::Binary`].
    Binary,
}

pub open spec fn tpm2b_chars() -> Seq<char> {
    seq!['T', 'P', 'M', '2', 'B']
}

/// `0b` or `0B` at `i`, then a binary digit run: yields the bounds of the
/// digits.
pub open spec fn spec_binary_with_wildcards(s: Seq<char>, i: int) -> Result<(int, int), (int, ErrorKind)> {
    if 0 <= i && i + 2 <= s.len() && s[i] == '0' && (s[i + 1] == 'b' || s[i + 1] == 'B') {
        match digit_run(s, i + 2, Alphabet::BinaryWildcard) {
            Ok(e) => Ok((i + 2, e)),
            Err(x) => Err(x),
        }
    } else {
        Err((i, ErrorKind::Tag))
    }
}

/// The bounds of the digits of a numeric literal starting at `i`.
pub open spec fn spec_literal_text(s: Seq<char>, i: int, lit: NumericLiteral) -> Result<(int, int), (int, ErrorKind)> {
    match lit {
        NumericLiteral::Hex => match digit_run(s, i, Alphabet::HexWildcard) {
            Ok(e) => Ok((i, e)),
            Err(x) => Err(x),
        },
        NumericLiteral::Binary => spec_binary_with_wildcards(s, i),
    }
}

pub open spec fn numeric_part_view(lit: NumericLiteral, text: Seq<char>, count: nat) -> PartView {
    match lit {
        NumericLiteral::Hex => PartView::Hex(text, count as usize),
        NumericLiteral::Binary => PartView::Binary(text, count as usize),
    }
}

/// A numeric literal whose digit count (spaces excluded) is a multiple of
/// `multiple_of`; otherwise a `Verify` failure at the literal's start.
pub open spec fn spec_numeric_part(s: Seq<char>, i: int, lit: NumericLiteral, multiple_of: nat) -> Step<PartView> {
    match spec_literal_text(s, i, lit) {
        Err(x) => Err(x),
        Ok((b, e)) => {
            let count = strip_spaces(s.subrange(b, e)).len();
            if count % multiple_of != 0 {
                Err((i, ErrorKind::Verify))
            } else {
                Ok((e, numeric_part_view(lit, s.subrange(b, e), count)))
            }
        },
    }
}

pub open spec fn spec_tpm2b_part(s: Seq<char>, i: int) -> Step<PartView> {
    if has_tag_at(s, i, tpm2b_chars()) {
        Ok((i + 5, PartView::Tpm2b))
    } else {
        Err((i, ErrorKind::Tag))
    }
}

/// `{`, then `TPM2B` or a binary literal of whole bytes, then `}`, then
/// spaces.
pub open spec fn spec_expansion_control_sequence(s: Seq<char>, i: int) -> Step<PartView> {
    if !(0 <= i < s.len() && s[i] == EXPANSION_START) {
        Err((i, ErrorKind::Char))
    } else {
        let inner = match spec_tpm2b_part(s, i + 1) {
            Ok(x) => Ok(x),
            Err(_) => spec_numeric_part(s, i + 1, NumericLiteral::Binary, 8),
        };
        match inner {
            Err(x) => Err(x),
            Ok((p, part)) => if 0 <= p < s.len() && s[p] == EXPANSION_END {
                Ok((spaces_end(s, p + 1), part))
            } else {
                Err((p, ErrorKind::Char))
            },
        }
    }
}

/// One response part: hexadecimal bytes, or else an expansion control
/// sequence. When both fail, the failure is the latter's.
pub open spec fn spec_response_item(s: Seq<char>, i: int) -> Step<PartView> {
    match spec_numeric_part(s, i, NumericLiteral::Hex, 2) {
        Ok(x) => Ok(x),
        Err(_) => spec_expansion_control_sequence(s, i),
    }
}

/// As many response parts as can be read from `i` on: the end of the last
/// one, and the parts.
pub open spec fn spec_response_items(s: Seq<char>, i: int) -> (int, Seq<PartView>)
    decreases s.len() - i,
{
    match spec_response_item(s, i) {
        Ok((p, part)) => if i < p <= s.len() {
            let rest = spec_response_items(s, p);
            (rest.0, seq![part] + rest.1)
        } else {
            (i, Seq::empty())
        },
        Err(_) => (i, Seq::empty()),
    }
}

/// The parts of a whole encoded response: at least one, with nothing left
/// over.
pub open spec fn spec_encoded_response(s: Seq<char>) -> Result<Seq<PartView>, (int, ErrorKind)> {
    match spec_response_item(s, 0) {
        Err(x) => Err(x),
        Ok((p, first)) => {
            let rest = spec_response_items(s, p);
            if rest.0 == s.len() {
                Ok(seq![first] + rest.1)
            } else {
                Err((rest.0, ErrorKind::Eof))
            }
        },
    }
}

/// A whole encoded input: one hexadecimal digit run covering all of it.
pub open spec fn spec_encoded_input(s: Seq<char>) -> Result<int, (int, ErrorKind)> {
    match digit_run(s, 0, Alphabet::Hex) {
        Err(x) => Err(x),
        Ok(e) => if e == s.len() {
            Ok(e)
        } else {
            Err((e, ErrorKind::Eof))
        },
    }
}

pub proof fn lemma_numeric_part_size(s: Seq<char>, i: int, lit: NumericLiteral, multiple_of: nat)
    requires
        0 <= i <= s.len(),
    ensures
        spec_numeric_part(s, i, lit, multiple_of) matches Ok((e, part)) ==> i < e <= s.len()
            && part_min_len(part) <= e - i,
{
    if i < s.len() {
        lemma_run_end_bounds(s, i + 1, Alphabet::HexWildcard);
    }
    if i + 3 <= s.len() {
        lemma_run_end_bounds(s, i + 3, Alphabet::BinaryWildcard);
    }
    if let Ok((b, e)) = spec_literal_text(s, i, lit) {
        lemma_strip_spaces_len(s.subrange(b, e));
    }
}

pub proof fn lemma_response_item_size(s: Seq<char>, i: int)
    requires
        0 <= i <= s.len(),
    ensures
        spec_response_item(s, i) matches Ok((e, part)) ==> i < e <= s.len() && part_min_len(part)
            <= e - i,
{
    lemma_numeric_part_size(s, i, NumericLiteral::Hex, 2);
    if i < s.len() {
        lemma_numeric_part_size(s, i + 1, NumericLiteral::Binary, 8);
        match spec_expansion_control_sequence(s, i) {
            Ok(_) => {
                let inner = match spec_tpm2b_part(s, i + 1) {
                    Ok(x) => Ok(x),
                    Err(_) => spec_numeric_part(s, i + 1, NumericLiteral::Binary, 8),
                };
                if let Ok((p, _)) = inner {
                    lemma_spaces_end_bounds(s, p + 1);
                }
            },
            Err(_) => {},
        }
    }
}

pub proof fn lemma_response_items_size(s: Seq<char>, i: int)
    requires
        0 <= i <= s.len(),
    ensures
        i <= spec_response_items(s, i).0 <= s.len(),
        sum_min_len(spec_response_items(s, i).1) <= spec_response_items(s, i).0 - i,
    decreases s.len() - i,
{
    lemma_response_item_size(s, i);
    match spec_response_item(s, i) {
        Ok((p, part)) => {
            if i < p <= s.len() {
                lemma_response_items_size(s, p);
                let rest = spec_response_items(s, p);
                lemma_sum_min_len_concat(seq![part], rest.1);
                assert(seq![part].drop_last() =~= Seq::<PartView>::empty());
                assert(sum_min_len(seq![part]) == part_min_len(part)) by {
                    reveal_with_fuel(sum_min_len, 2);
                }
            }
        },
        Err(_) => {},
    }
}

/// The parts of an encoded response need no more bytes than it has
/// characters.
pub proof fn lemma_encoded_response_min_len(s: Seq<char>)
    ensures
        spec_encoded_response(s) matches Ok(parts) ==> sum_min_len(parts) <= s.len(),
{
    lemma_response_item_size(s, 0);
    if let Ok((p, first)) = spec_response_item(s, 0) {
        lemma_response_items_size(s, p);
        lemma_sum_min_len_concat(seq![first], spec_response_items(s, p).1);
        assert(seq![first].drop_last() =~= Seq::<PartView>::empty());
        assert(sum_min_len(seq![first]) == part_min_len(first)) by {
            reveal_with_fuel(sum_min_len, 2);
        }
    }
}

/// Whether a part step's exec outcome on the input `s` is the spec outcome.
pub open spec fn part_step_as<'a>(
    s: Seq<char>,
    r: Result<(&'a str, Part<'a>), ParseFailure<'a>>,
    spec: Step<PartView>,
) -> bool {
    match spec {
        Ok((end, part)) => r matches Ok((rest, p)) && rest@ == s.skip(end) && p@ == part,
        Err((q, k)) => r matches Err(e) && e.input@ == s.skip(q) && e.code == k,
    }
}

pub open spec fn part_pos_as<'a>(r: Result<(usize, Part<'a>), (usize, ErrorKind)>, spec: Step<PartView>) -> bool {
    match spec {
        Ok((end, part)) => r matches Ok((e, p)) && e == end && p@ == part,
        Err((q, k)) => r matches Err((qq, kk)) && qq == q && kk == k,
    }
}

pub open spec fn views_of<'a>(v: Seq<Part<'a>>) -> Seq<PartView> {
    v.map_values(|p: Part<'a>| p@)
}

/// Whether a whole-field exec outcome carries the spec outcome: the parts on
/// success, the rest of `s` from the failing position on failure.
pub open spec fn response_as<'a>(
    s: Seq<char>,
    r: Result<Vec<Part<'a>>, GrammarError>,
    spec: Result<Seq<PartView>, (int, ErrorKind)>,
) -> bool {
    match spec {
        Ok(parts) => r matches Ok(v) && views_of(v@) == parts,
        Err((q, k)) => r matches Err(e) && e.input@ == s.skip(q) && e.code == k,
    }
}

pub(crate) fn slice_failure<'a>(input: &'a str, at: (usize, ErrorKind)) -> (e: ParseFailure<'a>)
    requires
        at.0 <= input@.len(),
    ensures
        e.input@ == input@.skip(at.0 as int),
        e.code == at.1,
{
    ParseFailure { input: input.substring_char(at.0, input.unicode_len()), code: at.1 }
}

pub(crate) fn owned_failure(input: &str, at: (usize, ErrorKind)) -> (e: GrammarError)
    requires
        at.0 <= input@.len(),
    ensures
        e.input@ == input@.skip(at.0 as int),
        e.code == at.1,
{
    GrammarError { input: input.substring_char(at.0, input.unicode_len()).to_owned(), code: at.1 }
}

/// Slices `input` by a digit run outcome over its characters.
pub(crate) fn recognized<'a>(input: &'a str, start: usize, r: Result<usize, (usize, ErrorKind)>) -> (out: Result<(&'a str, &'a str), ParseFailure<'a>>)
    requires
        start <= input@.len(),
        r matches Ok(e) ==> start <= e <= input@.len(),
        r matches Err((q, _)) ==> q <= input@.len(),
    ensures
        forall|spec| same_position(r, spec) ==> recognized_as(input@, out, start as int, spec),
{
    match r {
        Ok(e) => {
            let n = input.unicode_len();
            Ok((input.substring_char(e, n), input.substring_char(start, e)))
        },
        Err(at) => Err(slice_failure(input, at)),
    }
}

pub(crate) fn sliced_part<'a>(input: &'a str, r: Result<(usize, Part<'a>), (usize, ErrorKind)>) -> (out: Result<(&'a str, Part<'a>), ParseFailure<'a>>)
    requires
        r matches Ok((e, _)) ==> e <= input@.len(),
        r matches Err((q, _)) ==> q <= input@.len(),
    ensures
        forall|spec| part_pos_as(r, spec) ==> part_step_as(input@, out, spec),
{
    match r {
        Ok((e, p)) => Ok((input.substring_char(e, input.unicode_len()), p)),
        Err(at) => Err(slice_failure(input, at)),
    }
}

fn binary_with_wildcards_at(s: &Vec<char>, i: usize) -> (r: Result<(usize, usize), (usize, ErrorKind)>)
    requires
        i <= s@.len(),
    ensures
        match spec_binary_with_wildcards(s@, i as int) {
            Ok((b, e)) => r matches Ok((bb, ee)) && bb == b && ee == e && i + 2 == b && b < e <= s@.len(),
            Err((q, k)) => r matches Err((qq, kk)) && qq == q && kk == k && q <= s@.len(),
        },
{
    if i < s.len() && s.len() - i >= 2 && s[i] == '0' && (s[i + 1] == 'b' || s[i + 1] == 'B') {
        match scan_digit_run(s, i + 2, Alphabet::BinaryWildcard) {
            Ok(e) => Ok((i + 2, e)),
            Err(x) => Err(x),
        }
    } else {
        Err((i, ErrorKind::Tag))
    }
}

fn numeric_part_at<'a>(input: &'a str, s: &Vec<char>, i: usize, lit: NumericLiteral, multiple_of: usize) -> (r: Result<(usize, Part<'a>), (usize, ErrorKind)>)
    requires
        s@ == input@,
        i <= s@.len(),
        multiple_of > 0,
    ensures
        part_pos_as(r, spec_numeric_part(s@, i as int, lit, multiple_of as nat)),
        r matches Ok((e, _)) ==> i < e <= s@.len(),
        r matches Err((q, _)) ==> q <= s@.len(),
{
    let bounds = match lit {
        NumericLiteral::Hex => match scan_digit_run(s, i, Alphabet::HexWildcard) {
            Ok(e) => Ok((i, e)),
            Err(x) => Err(x),
        },
        NumericLiteral::Binary => binary_with_wildcards_at(s, i),
    };
    match bounds {
        Err(x) => Err(x),
        Ok((b, e)) => {
            let count = count_non_spaces(s, b, e);
            if count % multiple_of != 0 {
                Err((i, ErrorKind::Verify))
            } else {
                let text = input.substring_char(b, e);
                let part = match lit {
                    NumericLiteral::Hex => Part::Hex(text, count),
                    NumericLiteral::Binary => Part::Binary(text, count),
                };
                Ok((e, part))
            }
        },
    }
}

fn tpm2b_at(s: &Vec<char>, i: usize) -> (b: bool)
    requires
        i <= s@.len(),
    ensures
        b == has_tag_at(s@, i as int, tpm2b_chars()),
        b ==> i + 5 <= s.len(),
{
    let b = i < s.len() && s.len() - i >= 5 && s[i] == 'T' && s[i + 1] == 'P' && s[i + 2] == 'M' && s[i + 3] == '2'
        && s[i + 4] == 'B';
    proof {
        if b {
            assert(s@.subrange(i as int, i + 5) =~= tpm2b_chars());
        } else if i + 5 <= s@.len() {
            let t = s@.subrange(i as int, i + 5);
            assert(t[0] == s@[i as int] && t[1] == s@[i + 1] && t[2] == s@[i + 2] && t[3] == s@[i
                + 3] && t[4] == s@[i + 4]);
        }
    }
    b
}

pub(crate) fn tpm2b_part_at<'a>(s: &Vec<char>, i: usize) -> (r: Result<(usize, Part<'a>), (usize, ErrorKind)>)
    requires
        i <= s@.len(),
    ensures
        part_pos_as(r, spec_tpm2b_part(s@, i as int)),
        r matches Ok((e, _)) ==> i < e <= s@.len(),
        r matches Err((q, _)) ==> q <= s@.len(),
{
    if tpm2b_at(s, i) {
        Ok((i + 5, Part::TPM2B))
    } else {
        Err((i, ErrorKind::Tag))
    }
}

fn expansion_control_sequence_at<'a>(input: &'a str, s: &Vec<char>, i: usize) -> (r: Result<(usize, Part<'a>), (usize, ErrorKind)>)
    requires
        s@ == input@,
        i <= s@.len(),
    ensures
        part_pos_as(r, spec_expansion_control_sequence(s@, i as int)),
        r matches Ok((e, _)) ==> i < e <= s@.len(),
        r matches Err((q, _)) ==> q <= s@.len(),
{
    if !(i < s.len() && s[i] == EXPANSION_START) {
        return Err((i, ErrorKind::Char));
    }
    let inner = match tpm2b_part_at(s, i + 1) {
        Ok(x) => Ok(x),
        Err(_) => numeric_part_at(input, s, i + 1, NumericLiteral::Binary, 8),
    };
    match inner {
        Err(x) => Err(x),
        Ok((p, part)) => {
            if p < s.len() && s[p] == EXPANSION_END {
                Ok((skip_spaces(s, p + 1), part))
            } else {
                Err((p, ErrorKind::Char))
            }
        },
    }
}

fn response_item_at<'a>(input: &'a str, s: &Vec<char>, i: usize) -> (r: Result<(usize, Part<'a>), (usize, ErrorKind)>)
    requires
        s@ == input@,
        i <= s@.len(),
    ensures
        part_pos_as(r, spec_response_item(s@, i as int)),
        r matches Ok((e, _)) ==> i < e <= s@.len(),
        r matches Err((q, _)) ==> q <= s@.len(),
{
    match numeric_part_at(input, s, i, NumericLiteral::Hex, 2) {
        Ok(x) => Ok(x),
        Err(_) => expansion_control_sequence_at(input, s, i),
    }
}

/// Parses hexadecimal from `input`, allowing for [`SPACE`] characters.
pub fn parse_hex<'a>(input: &'a str) -> (r: Result<(&'a str, &'a str), ParseFailure<'a>>)
    ensures
        recognized_as(input@, r, 0, digit_run(input@, 0, Alphabet::Hex)),
{
    let s = chars_of(input);
    recognized(input, 0, scan_digit_run(&s, 0, Alphabet::Hex))
}

/// Parses hexadecimal from `input`, allowing for [`SPACE`] and wildcard
/// characters.
pub fn parse_hex_with_wildcards<'a>(input: &'a str) -> (r: Result<(&'a str, &'a str), ParseFailure<'a>>)
    ensures
        recognized_as(input@, r, 0, digit_run(input@, 0, Alphabet::HexWildcard)),
{
    let s = chars_of(input);
    recognized(input, 0, scan_digit_run(&s, 0, Alphabet::HexWildcard))
}

/// Parses binary from `input`, allowing for [`SPACE`] and wildcard
/// characters. The `0b` or `0B` prefix is not part of the recognized text.
pub fn parse_binary_with_wildcards<'a>(input: &'a str) -> (r: Result<(&'a str, &'a str), ParseFailure<'a>>)
    ensures
        match spec_binary_with_wildcards(input@, 0) {
            Ok((b, e)) => recognized_as(input@, r, b, Ok(e)),
            Err(x) => recognized_as(input@, r, 0, Err(x)),
        },
{
    let s = chars_of(input);
    match binary_with_wildcards_at(&s, 0) {
        Ok((b, e)) => {
            assert(same_position(Ok(e), Ok(e as int)));
            recognized(input, b, Ok(e))
        },
        Err(x) => {
            assert(same_position(Err(x), Err((x.0 as int, x.1))));
            recognized(input, 0, Err(x))
        },
    }
}

/// Parses a numeric literal of kind `literal` whose digit count, excluding
/// [`SPACE`], is a multiple of `multiple_of`, into the matching [`Part`].
pub fn parse_numeric_part<'a>(input: &'a str, literal: NumericLiteral, multiple_of: usize) -> (r: Result<(&'a str, Part<'a>), ParseFailure<'a>>)
    requires
        multiple_of > 0,
    ensures
        part_step_as(input@, r, spec_numeric_part(input@, 0, literal, multiple_of as nat)),
{
    let s = chars_of(input);
    sliced_part(input, numeric_part_at(input, &s, 0, literal, multiple_of))
}

/// Parses a binary part from an encoded response.
pub fn parse_binary_part<'a>(input: &'a str) -> (r: Result<(&'a str, Part<'a>), ParseFailure<'a>>)
    ensures
        part_step_as(input@, r, spec_numeric_part(input@, 0, NumericLiteral::Binary, 8)),
{
    parse_numeric_part(input, NumericLiteral::Binary, 8)
}

/// Parses a hex part from an encoded response.
pub fn parse_hex_part<'a>(input: &'a str) -> (r: Result<(&'a str, Part<'a>), ParseFailure<'a>>)
    ensures
        part_step_as(input@, r, spec_numeric_part(input@, 0, NumericLiteral::Hex, 2)),
{
    parse_numeric_part(input, NumericLiteral::Hex, 2)
}

/// Parses a TPM2B part from an encoded response. This "expands" to the
/// contents of a TPM2B in the response, which is a big-endian u16 length
/// followed by that many bytes.
pub fn parse_tpm2b_part<'a>(input: &'a str) -> (r: Result<(&'a str, Part<'a>), ParseFailure<'a>>)
    ensures
        part_step_as(input@, r, spec_tpm2b_part(input@, 0)),
{
    let s = chars_of(input);
    sliced_part(input, tpm2b_part_at(&s, 0))
}

/// Parses expansion control sequences.
pub fn parse_expansion_control_sequence<'a>(input: &'a str) -> (r: Result<(&'a str, Part<'a>), ParseFailure<'a>>)
    ensures
        part_step_as(input@, r, spec_expansion_control_sequence(input@, 0)),
{
    let s = chars_of(input);
    sliced_part(input, expansion_control_sequence_at(input, &s, 0))
}

/// Parse an encoded response.
pub fn parse_encoded_response<'a>(input: &'a str) -> (r: Result<Vec<Part<'a>>, GrammarError>)
    ensures
        response_as(input@, r, spec_encoded_response(input@)),
{
    let s = chars_of(input);
    let (first_end, first) = match response_item_at(input, &s, 0) {
        Ok(x) => x,
        Err(at) => return Err(owned_failure(input, at)),
    };
    let mut parts: Vec<Part<'a>> = Vec::new();
    parts.push(first);
    let mut p = first_end;
    assert(views_of(parts@) =~= seq![first@]);
    loop
        invariant
            s@ == input@,
            p <= s@.len(),
            spec_response_item(s@, 0) matches Ok((first_p, first_part)) && ({
                let rest = spec_response_items(s@, first_p);
                let here = spec_response_items(s@, p as int);
                rest.0 == here.0 && seq![first_part] + rest.1 == views_of(parts@) + here.1
            }),
        ensures
            p <= s@.len(),
            spec_response_item(s@, 0) matches Ok((first_p, first_part)) && ({
                let rest = spec_response_items(s@, first_p);
                rest.0 == p && seq![first_part] + rest.1 == views_of(parts@)
            }),
        decreases s@.len() - p,
    {
        match response_item_at(input, &s, p) {
            Ok((q, part)) => {
                let ghost before = views_of(parts@);
                parts.push(part);
                assert(views_of(parts@) =~= before.push(part@));
                assert(seq![part@] + spec_response_items(s@, q as int).1 =~= spec_response_items(
                    s@,
                    p as int,
                ).1);
                assert(before + spec_response_items(s@, p as int).1 =~= views_of(parts@)
                    + spec_response_items(s@, q as int).1);
                p = q;
            },
            Err(_) => {
                assert(spec_response_items(s@, p as int).1 =~= Seq::<PartView>::empty());
                assert(views_of(parts@) + Seq::<PartView>::empty() =~= views_of(parts@));
                break ;
            },
        }
    }
    if p == s.len() {
        Ok(parts)
    } else {
        Err(owned_failure(input, (p, ErrorKind::Eof)))
    }
}

/// Parse an encoded input; yields the whole input.
pub fn parse_encoded_input<'a>(input: &'a str) -> (r: Result<&'a str, GrammarError>)
    ensures
        match spec_encoded_input(input@) {
            Ok(_) => r matches Ok(d) && d@ == input@,
            Err((q, k)) => r matches Err(e) && e.input@ == input@.skip(q) && e.code == k,
        },
{
    let s = chars_of(input);
    match scan_digit_run(&s, 0, Alphabet::Hex) {
        Err(at) => Err(owned_failure(input, at)),
        Ok(e) => {
            if e == s.len() {
                Ok(input)
            } else {
                Err(owned_failure(input, (e, ErrorKind::Eof)))
            }
        },
    }
}

} // verus!

verus! {

/// A part holds whole bytes: its count is the number of its digits (spaces
/// excluded), even for hexadecimal, a multiple of eight for binary.
pub open spec fn holds_whole_bytes(p: PartView) -> bool {
    match p {
        PartView::Hex(text, count) => count == strip_spaces(text).len() && count % 2 == 0,
        PartView::Binary(text, count) => count == strip_spaces(text).len() && count % 8 == 0,
        PartView::Tpm2b => true,
        PartView::Compare(_, _, _) => false,
    }
}

proof fn lemma_item_whole_bytes(s: Seq<char>, i: int)
    requires
        0 <= i <= s.len(),
        s.len() <= usize::MAX,
    ensures
        spec_response_item(s, i) matches Ok((_, part)) ==> holds_whole_bytes(part),
{
    if i < s.len() {
        lemma_run_end_bounds(s, i + 1, Alphabet::HexWildcard);
    }
    if i + 3 <= s.len() {
        lemma_run_end_bounds(s, i + 3, Alphabet::BinaryWildcard);
    }
    if let Ok((b, e)) = spec_literal_text(s, i, NumericLiteral::Hex) {
        lemma_strip_spaces_len(s.subrange(b, e));
    }
    if let Ok((b, e)) = spec_literal_text(s, i + 1, NumericLiteral::Binary) {
        lemma_strip_spaces_len(s.subrange(b, e));
    }
}

proof fn lemma_items_whole_bytes(s: Seq<char>, i: int)
    requires
        0 <= i <= s.len(),
        s.len() <= usize::MAX,
    ensures
        forall|j: int|
            0 <= j < spec_response_items(s, i).1.len() ==> holds_whole_bytes(
                #[trigger] spec_response_items(s, i).1[j],
            ),
    decreases s.len() - i,
{
    lemma_item_whole_bytes(s, i);
    if let Ok((p, part)) = spec_response_item(s, i) {
        if i < p <= s.len() {
            lemma_items_whole_bytes(s, p);
            let rest = spec_response_items(s, p).1;
            let all = spec_response_items(s, i).1;
            assert forall|j: int| 0 <= j < all.len() implies holds_whole_bytes(#[trigger] all[j]) by {
                if j > 0 {
                    assert(all[j] == rest[j - 1]);
                }
            }
        }
    }
}

/// The parts read from an encoded response are hexadecimal parts of whole
/// bytes, binary parts of whole bytes, and TPM2B parts; never comparisons.
pub proof fn law_response_parts_hold_whole_bytes(s: Seq<char>)
    requires
        s.len() <= usize::MAX,
    ensures
        spec_encoded_response(s) matches Ok(parts) ==> forall|j: int|
            0 <= j < parts.len() ==> holds_whole_bytes(#[trigger] parts[j]),
{
    lemma_item_whole_bytes(s, 0);
    if let Ok((p, first)) = spec_response_item(s, 0) {
        lemma_response_item_size(s, 0);
        lemma_items_whole_bytes(s, p);
        if let Ok(parts) = spec_encoded_response(s) {
            let rest = spec_response_items(s, p).1;
            assert forall|j: int| 0 <= j < parts.len() implies holds_whole_bytes(#[trigger] parts[j]) by {
                if j > 0 {
                    assert(parts[j] == rest[j - 1]);
                }
            }
        }
    }
}

} // verus!
