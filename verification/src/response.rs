//! A response is an encoded string describing the expected response from a
//! TPM command.
use vstd::prelude::*;

use crate::parse::consts::{
    GREATER_THAN, GREATER_THAN_OR_EQUAL, LESS_THAN, LESS_THAN_OR_EQUAL, NOT, SPACE, WILDCARD,
};
use crate::parse::fields::{
    spec_encoded_response, spec_numeric_part, spec_response_item, spec_response_items, views_of,
    NumericLiteral,
};
use crate::parse::scan::{
    chars_of, in_alphabet, is_hex_digit, lemma_run_end_all, lemma_strip_no_spaces, strip_spaces,
    Alphabet, ErrorKind,
};
use crate::parse::{ParseError, ParseErrorView};
use crate::text::{
    decimal, first_mismatch, first_mismatch_exec, hex_digit_value_exec, hex_digits,
    hex_to_binary, hex_value, lemma_first_mismatch_self, lemma_first_mismatch_wildcards,
    law_first_mismatch_is_first, law_lex_order_first_difference, lemma_hex_digits_len,
    lemma_hex_value_bound, lemma_lex_order_zero, lemma_pow16_monotone, lex_order, lex_order_exec,
    lower_code, lowered, lowered_codes, nibble_bits, pow16, push_decimal, without_spaces,
};

verus! {

/// Errors returned from evaluating a response.
#[derive(Debug)]
pub enum ResponseEvaluationError {
    /// Parse Error
    Parse(ParseError),
    /// Response is too short (`want`, `got`)
    ResponseTooShort(usize, usize),
    /// Invalid Part (`part.expected`, `part.count`)
    InvalidPart(String, usize),
    /// Part extends beyond end of response (`want`, `got`)
    PartExtendsBeyondResponse(usize, usize),
    /// Part mismatches actual data (`want`, `got`, `index`, `chars_per_byte`,
    /// `matched`)
    PartMismatch(String, String, usize, usize, usize),
    /// Part compare failure (`want`, `got`, `matched`)
    PartCompareFailure(String, String, usize),
}

/// What a [`ResponseEvaluationError`] tells, with its texts as characters.
pub enum EvaluationErrorView {
    Parse(ParseErrorView),
    ResponseTooShort(int, int),
    InvalidPart(Seq<char>, int),
    PartExtendsBeyondResponse(int, int),
    PartMismatch(Seq<char>, Seq<char>, int, int, int),
    PartCompareFailure(Seq<char>, Seq<char>, int),
}

impl View for ResponseEvaluationError {
    type V = EvaluationErrorView;

    open spec fn view(&self) -> EvaluationErrorView {
        match self {
            ResponseEvaluationError::Parse(e) => EvaluationErrorView::Parse(e@),
            ResponseEvaluationError::ResponseTooShort(w, g) => EvaluationErrorView::ResponseTooShort(
                *w as int,
                *g as int,
            ),
            ResponseEvaluationError::InvalidPart(e, c) => EvaluationErrorView::InvalidPart(
                e@,
                *c as int,
            ),
            ResponseEvaluationError::PartExtendsBeyondResponse(w, g) =>
                EvaluationErrorView::PartExtendsBeyondResponse(*w as int, *g as int),
            ResponseEvaluationError::PartMismatch(w, g, i, c, m) => EvaluationErrorView::PartMismatch(
                w@,
                g@,
                *i as int,
                *c as int,
                *m as int,
            ),
            ResponseEvaluationError::PartCompareFailure(w, g, m) =>
                EvaluationErrorView::PartCompareFailure(w@, g@, *m as int),
        }
    }
}

/// The outcome of an evaluation, with the error by its view.
pub open spec fn evaluation_outcome(r: Result<(), ResponseEvaluationError>) -> Result<(), EvaluationErrorView> {
    match r {
        Ok(()) => Ok(()),
        Err(e) => Err(e@),
    }
}

/// An EncodedResponse represents expected data returned from the TPM in a
/// compact format useful for writing test vectors. Typically, this gets used
/// with the [`Response`] struct to evaluate it against actual TPM data.
#[derive(Debug, Default)]
pub struct EncodedResponse(String);

impl View for EncodedResponse {
    type V = Seq<char>;

    closed spec fn view(&self) -> Seq<char> {
        self.0@
    }
}

impl EncodedResponse {
    /// The encoded text.
    pub fn as_str(&self) -> (r: &str)
        ensures
            r@ == self@,
    {
        self.0.as_str()
    }
}

impl AsRef<str> for EncodedResponse {
    fn as_ref(&self) -> (r: &str)
        ensures
            r@ == self@,
    {
        self.0.as_str()
    }
}

impl From<String> for EncodedResponse {
    fn from(s: String) -> (r: Self)
        ensures
            r@ == s@,
    {
        Self(s)
    }
}

impl vstd::std_specs::convert::FromSpecImpl<String> for EncodedResponse {
    open spec fn obeys_from_spec() -> bool {
        true
    }

    closed spec fn from_spec(v: String) -> Self {
        EncodedResponse(v)
    }
}

impl<'s> From<&'s str> for EncodedResponse {
    fn from(s: &'s str) -> (r: Self)
        ensures
            r@ == s@,
    {
        Self(s.to_owned())
    }
}

impl<'s> vstd::std_specs::convert::FromSpecImpl<&'s str> for EncodedResponse {
    open spec fn obeys_from_spec() -> bool {
        false
    }

    open spec fn from_spec(v: &'s str) -> Self {
        arbitrary()
    }
}

/// A type of comparison to perform.
#[derive(Clone, Copy, Debug, PartialEq, Eq, Structural)]
pub enum CompareType {
    Not,
    LessThan,
    LessThanOrEqual,
    GreaterThan,
    GreaterThanOrEqual,
}

/// A Part represents a subsequence of the total response with specific
/// semantics for matching data against the TPM. It directly references the
/// `EncodedResponse` it was parsed from.
#[derive(Clone, Debug, PartialEq, Eq)]
pub enum Part<'a> {
    /// Hexadecimal bytes with wildcards
    Hex(&'a str, usize),
    /// Binary bits with wildcards
    Binary(&'a str, usize),
    /// A TPM2B in the response (big-endian u16 length followed by length bytes)
    TPM2B,
    /// Compare against a known hexadecimal value
    Compare(CompareType, &'a str, usize),
}

/// The mathematical content of a [`Part`]: its text as characters.
pub enum PartView {
    Hex(Seq<char>, usize),
    Binary(Seq<char>, usize),
    Tpm2b,
    Compare(CompareType, Seq<char>, usize),
}

impl<'a> View for Part<'a> {
    type V = PartView;

    open spec fn view(&self) -> PartView {
        match *self {
            Part::Hex(s, c) => PartView::Hex(s@, c),
            Part::Binary(s, c) => PartView::Binary(s@, c),
            Part::TPM2B => PartView::Tpm2b,
            Part::Compare(t, s, c) => PartView::Compare(t, s@, c),
        }
    }
}

/// The minimum number of response bytes a part needs in order to match.
pub open spec fn part_min_len(p: PartView) -> nat {
    match p {
        PartView::Hex(_, count) => count as nat / 2,
        PartView::Binary(_, count) => count as nat / 8,
        PartView::Tpm2b => 2,
        PartView::Compare(_, _, count) => count as nat / 2,
    }
}

impl<'a> Part<'a> {
    /// Helper constructor for making a Not Compare part.
    pub fn not(expected: &'a str, count: usize) -> (r: Self)
        ensures
            r == Part::Compare(CompareType::Not, expected, count),
    {
        Self::Compare(CompareType::Not, expected, count)
    }

    /// Helper constructor for making a Less Than Compare part.
    pub fn lt(expected: &'a str, count: usize) -> (r: Self)
        ensures
            r == Part::Compare(CompareType::LessThan, expected, count),
    {
        Self::Compare(CompareType::LessThan, expected, count)
    }

    /// Helper constructor for making a Less Than Or Equal Compare part.
    pub fn le(expected: &'a str, count: usize) -> (r: Self)
        ensures
            r == Part::Compare(CompareType::LessThanOrEqual, expected, count),
    {
        Self::Compare(CompareType::LessThanOrEqual, expected, count)
    }

    /// Helper constructor for making a Greater Than Compare part.
    pub fn gt(expected: &'a str, count: usize) -> (r: Self)
        ensures
            r == Part::Compare(CompareType::GreaterThan, expected, count),
    {
        Self::Compare(CompareType::GreaterThan, expected, count)
    }

    /// Helper constructor for making a Greater Than Or Equal Compare part.
    pub fn ge(expected: &'a str, count: usize) -> (r: Self)
        ensures
            r == Part::Compare(CompareType::GreaterThanOrEqual, expected, count),
    {
        Self::Compare(CompareType::GreaterThanOrEqual, expected, count)
    }

    /// Returns the minimum length required in the response to match the part.
    pub fn min_len(&self) -> (r: usize)
        ensures
            r == part_min_len(self@),
    {
        match self {
            Self::Hex(_, count) => count / 2,
            Self::Binary(_, count) => count / 8,
            Self::TPM2B => 2,  // must encode at least a u16 size
            Self::Compare(_, _, count) => count / 2,
        }
    }
}

} // verus!

verus! {

/// The state of matching actual data: the number of bytes matched so far
/// and the hexadecimal characters still to match.
pub type MatchState = (int, Seq<char>);

/// Splits the first `n` characters off `rest`.
pub open spec fn spec_split(rest: Seq<char>, n: int) -> Result<(Seq<char>, Seq<char>), EvaluationErrorView> {
    if rest.len() < n {
        Err(EvaluationErrorView::PartExtendsBeyondResponse(n, rest.len() as int))
    } else {
        Ok((rest.take(n), rest.skip(n)))
    }
}

/// Whether the lowered `got` stands in relation `t` to the lowered `want`,
/// both compared lexicographically.
pub open spec fn compare_holds(t: CompareType, got: Seq<u32>, want: Seq<u32>) -> bool {
    match t {
        CompareType::Not => got != want,
        CompareType::LessThan => lex_order(got, want) == -1,
        CompareType::LessThanOrEqual => lex_order(got, want) <= 0,
        CompareType::GreaterThan => lex_order(got, want) == 1,
        CompareType::GreaterThanOrEqual => lex_order(got, want) >= 0,
    }
}

/// Checks one part against the hexadecimal characters `rest` of the actual
/// data, `matched` bytes having matched before it.
///
/// - Hex: the next `count` characters must match the expected digits, a
///   wildcard matching anything and letters in either case.
/// - Binary: the next `count / 4` characters, as binary digits, must match
///   the expected bits, a wildcard matching anything.
/// - TPM2B: four characters whose hexadecimal digits (others ignored) give
///   a big-endian size, then that many bytes.
/// - Compare: the next `count` characters, lowered, must stand in the
///   comparison's relation to the lowered expected characters.
pub open spec fn spec_part_check(p: PartView, matched: int, rest: Seq<char>) -> Result<MatchState, EvaluationErrorView> {
    match p {
        PartView::Hex(expected, count) => match spec_split(rest, count as int) {
            Err(e) => Err(e),
            Ok((got, after)) => {
                let want = strip_spaces(expected);
                match first_mismatch(want, got, 0, true) {
                    Some(k) => Err(EvaluationErrorView::PartMismatch(want, got, k, 2, matched)),
                    None => Ok((matched + count as int / 2, after)),
                }
            },
        },
        PartView::Binary(expected, count) => match spec_split(rest, count as int / 4) {
            Err(e) => Err(e),
            Ok((got, after)) => {
                let want = strip_spaces(expected);
                let bits = hex_to_binary(got);
                match first_mismatch(want, bits, 0, false) {
                    Some(k) => Err(EvaluationErrorView::PartMismatch(want, bits, k, 8, matched)),
                    None => Ok((matched + (count as int / 4) / 2, after)),
                }
            },
        },
        PartView::Tpm2b => if rest.len() < 4 {
            Err(EvaluationErrorView::PartExtendsBeyondResponse(4, rest.len() as int))
        } else {
            let size = 2 * hex_value(hex_digits(rest.take(4))) as int;
            if rest.len() - 4 < size {
                Err(EvaluationErrorView::PartExtendsBeyondResponse(size, rest.len() - 4))
            } else {
                Ok((matched + (4 + size) / 2, rest.skip(4 + size)))
            }
        },
        PartView::Compare(t, expected, count) => match spec_split(rest, count as int) {
            Err(e) => Err(e),
            Ok((got, after)) => {
                let want = strip_spaces(expected);
                if compare_holds(t, lowered(got), lowered(want)) {
                    Ok((matched + count as int / 2, after))
                } else {
                    Err(EvaluationErrorView::PartCompareFailure(want, got, matched))
                }
            },
        },
    }
}

/// Checks the parts in order, each on what the ones before left; the first
/// failure ends the check.
pub open spec fn spec_check_parts(parts: Seq<PartView>, matched: int, rest: Seq<char>) -> Result<MatchState, EvaluationErrorView>
    decreases parts.len(),
{
    if parts.len() == 0 {
        Ok((matched, rest))
    } else {
        match spec_part_check(parts[0], matched, rest) {
            Err(e) => Err(e),
            Ok((m, r)) => spec_check_parts(parts.drop_first(), m, r),
        }
    }
}

/// Checks a response of `parts`, needing `min_len` characters of `data`.
pub open spec fn spec_response_check(parts: Seq<PartView>, min_len: int, data: Seq<char>) -> Result<(), EvaluationErrorView> {
    if data.len() < min_len {
        Err(EvaluationErrorView::ResponseTooShort(min_len, data.len() as int))
    } else {
        match spec_check_parts(parts, 0, data) {
            Ok(_) => Ok(()),
            Err(e) => Err(e),
        }
    }
}

/// The sum of the parts' minimum lengths.
pub open spec fn sum_min_len(parts: Seq<PartView>) -> nat
    decreases parts.len(),
{
    if parts.len() == 0 {
        0
    } else {
        sum_min_len(parts.drop_last()) + part_min_len(parts.last())
    }
}

/// Internal struct to keep track of how much of an actual response is checked.
/// It directly references the actual TPM response it was constructed from.
struct PartialMatch<'a> {
    /// Number of bytes in the actual response matched so far.
    matched: usize,
    /// The remaining string to match.
    remaining: &'a str,
}

spec fn match_outcome<'a>(r: Result<PartialMatch<'a>, ResponseEvaluationError>) -> Result<MatchState, EvaluationErrorView> {
    match r {
        Ok(d) => Ok((d.matched as int, d.remaining@)),
        Err(e) => Err(e@),
    }
}

/// The length of `s` in characters.
fn str_len(s: &str) -> (n: usize)
    ensures
        n == s@.len(),
{
    s.unicode_len()
}

/// Helper to split the data part to be checked from the rest of the data.
fn split_data_part<'a>(data: &PartialMatch<'a>, num_hex_chars: usize) -> (r: Result<(&'a str, &'a str), ResponseEvaluationError>)
    requires
        data.remaining.is_ascii(),
    ensures
        match spec_split(data.remaining@, num_hex_chars as int) {
            Ok((a, b)) => r matches Ok((x, y)) && x@ == a && y@ == b && x.is_ascii() && y.is_ascii(),
            Err(e) => r matches Err(x) && x@ == e,
        },
{
    let n = str_len(data.remaining);
    if n < num_hex_chars {
        return Err(ResponseEvaluationError::PartExtendsBeyondResponse(num_hex_chars, n));
    }
    Ok(
        (
            data.remaining.substring_ascii(0, num_hex_chars),
            data.remaining.substring_ascii(num_hex_chars, n),
        ),
    )
}

/// Helper function to convert a hex string to a binary string, ignoring
/// non-hexadecimal characters.
pub fn hex_string_to_binary(hex_string: &str) -> (r: String)
    ensures
        r@ == hex_to_binary(hex_string@),
{
    let zero = "0";
    let one = "1";
    proof {
        reveal_strlit("0");
        reveal_strlit("1");
    }
    let n = hex_string.unicode_len();
    let mut result = String::new();
    let mut i: usize = 0;
    while i < n
        invariant
            n == hex_string@.len(),
            i <= n,
            zero@ == seq!['0'],
            one@ == seq!['1'],
            result@ == hex_to_binary(hex_string@.take(i as int)),
        decreases n - i,
    {
        let c = hex_string.get_char(i);
        assert(hex_string@.take(i + 1).drop_last() =~= hex_string@.take(i as int));
        if crate::parse::scan::is_hex_digit_exec(c) {
            let v = hex_digit_value_exec(c);
            let ghost before = result@;
            result.append(if v / 8 % 2 == 1 { one } else { zero });
            result.append(if v / 4 % 2 == 1 { one } else { zero });
            result.append(if v / 2 % 2 == 1 { one } else { zero });
            result.append(if v % 2 == 1 { one } else { zero });
            assert(result@ =~= before + nibble_bits(c));
        } else {
            assert(nibble_bits(c) =~= Seq::<char>::empty());
            assert(result@ =~= result@ + nibble_bits(c));
        }
        i = i + 1;
    }
    assert(hex_string@.take(n as int) =~= hex_string@);
    result
}

/// Helper function to get a u16 from a big-endian hex string, ignoring
/// non-hexadecimal characters.
pub fn hex_string_to_u16(hex_string: &str) -> (r: u16)
    requires
        hex_digits(hex_string@).len() <= 4,
    ensures
        r == hex_value(hex_digits(hex_string@)),
{
    let n = hex_string.unicode_len();
    let mut result: u32 = 0;
    let mut i: usize = 0;
    assert(pow16(4) == 65536) by {
        reveal_with_fuel(pow16, 5);
    }
    while i < n
        invariant
            n == hex_string@.len(),
            i <= n,
            hex_digits(hex_string@).len() <= 4,
            pow16(4) == 65536,
            result == hex_value(hex_digits(hex_string@.take(i as int))),
            result < 65536,
        decreases n - i,
    {
        let c = hex_string.get_char(i);
        let ghost t = hex_string@.take(i + 1);
        assert(t.drop_last() =~= hex_string@.take(i as int));
        if crate::parse::scan::is_hex_digit_exec(c) {
            proof {
                let d = hex_digits(t);
                assert(d.drop_last() =~= hex_digits(hex_string@.take(i as int)));
                lemma_hex_digits_len(hex_string@, i + 1);
                lemma_hex_value_bound(d);
                lemma_pow16_monotone(d.len(), 4);
            }
            result = result * 16 + hex_digit_value_exec(c);
        }
        i = i + 1;
    }
    assert(hex_string@.take(n as int) =~= hex_string@);
    result as u16
}

impl<'a> Part<'a> {
    /// Checks the part against actual `data` (formatted as a hexadecimal
    /// string).
    fn check<'d>(&self, data: PartialMatch<'d>) -> (r: Result<PartialMatch<'d>, ResponseEvaluationError>)
        requires
            data.remaining.is_ascii(),
            data.matched + data.remaining@.len() <= usize::MAX,
        ensures
            match_outcome(r) == spec_part_check(self@, data.matched as int, data.remaining@),
            r matches Ok(d) ==> d.remaining.is_ascii() && d.matched + d.remaining@.len() <= data.matched
                + data.remaining@.len(),
    {
        match self {
            Self::Hex(expected, count) => {
                let num_hex_chars = *count;
                let (data_part, data_rest) = match split_data_part(&data, num_hex_chars) {
                    Ok(x) => x,
                    Err(e) => return Err(e),
                };
                let want = without_spaces(expected);
                let want_chars = chars_of(want.as_str());
                let got_chars = chars_of(data_part);
                match first_mismatch_exec(&want_chars, &got_chars, true) {
                    Some(i) => Err(
                        ResponseEvaluationError::PartMismatch(
                            want,
                            data_part.to_owned(),
                            i,
                            2,  // chars_per_byte
                            data.matched,
                        ),
                    ),
                    None => Ok(
                        PartialMatch {
                            matched: data.matched + num_hex_chars / 2,
                            remaining: data_rest,
                        },
                    ),
                }
            },
            Self::Binary(expected, count) => {
                // count is number of binary characters (bits).
                let num_hex_chars = count / 4;
                let (data_part, data_rest) = match split_data_part(&data, num_hex_chars) {
                    Ok(x) => x,
                    Err(e) => return Err(e),
                };
                let binary_part = hex_string_to_binary(data_part);
                let want = without_spaces(expected);
                let want_chars = chars_of(want.as_str());
                let got_chars = chars_of(binary_part.as_str());
                match first_mismatch_exec(&want_chars, &got_chars, false) {
                    Some(i) => Err(
                        ResponseEvaluationError::PartMismatch(
                            want,
                            binary_part,
                            i,
                            8,  // chars_per_byte
                            data.matched,
                        ),
                    ),
                    None => Ok(
                        PartialMatch {
                            matched: data.matched + num_hex_chars / 2,
                            remaining: data_rest,
                        },
                    ),
                }
            },
            Self::TPM2B => {
                // A TPM2B is a u16 size followed by size bytes.
                let u16_hex_chars: usize = 4;
                let n = str_len(data.remaining);
                if n < u16_hex_chars {
                    return Err(ResponseEvaluationError::PartExtendsBeyondResponse(u16_hex_chars, n));
                }
                let size_hex = data.remaining.substring_ascii(0, u16_hex_chars);
                let rest = data.remaining.substring_ascii(u16_hex_chars, n);
                proof {
                    lemma_hex_digits_len(size_hex@, 0);
                }
                let num_hex_chars = (hex_string_to_u16(size_hex) as usize) * 2;
                let rest_len = str_len(rest);
                if rest_len < num_hex_chars {
                    return Err(
                        ResponseEvaluationError::PartExtendsBeyondResponse(num_hex_chars, rest_len),
                    );
                }
                let data_rest = data.remaining.substring_ascii(u16_hex_chars + num_hex_chars, n);
                Ok(
                    PartialMatch {
                        matched: data.matched + (u16_hex_chars + num_hex_chars) / 2,
                        remaining: data_rest,
                    },
                )
            },
            Self::Compare(compare_type, expected, count) => {
                let num_hex_chars = *count;
                let (data_part, data_rest) = match split_data_part(&data, num_hex_chars) {
                    Ok(x) => x,
                    Err(e) => return Err(e),
                };
                let want = without_spaces(expected);
                let want_codes = lowered_codes(&chars_of(want.as_str()));
                let got_codes = lowered_codes(&chars_of(data_part));
                let order = lex_order_exec(&got_codes, &want_codes);
                proof {
                    lemma_lex_order_zero(got_codes@, want_codes@);
                }
                let matched = match compare_type {
                    CompareType::Not => order != 0,
                    CompareType::LessThan => order == -1,
                    CompareType::LessThanOrEqual => order <= 0,
                    CompareType::GreaterThan => order == 1,
                    CompareType::GreaterThanOrEqual => order >= 0,
                };
                if !matched {
                    return Err(
                        ResponseEvaluationError::PartCompareFailure(
                            want,
                            data_part.to_owned(),
                            data.matched,
                        ),
                    );
                }
                Ok(PartialMatch { matched: data.matched + num_hex_chars / 2, remaining: data_rest })
            },
        }
    }
}

} // verus!

verus! {

/// Lowercase hexadecimal digit of `d` (below 16).
pub open spec fn lower_hex_digit(d: nat) -> char {
    if d < 10 {
        crate::text::digit_char(d)
    } else if d == 10 {
        'a'
    } else if d == 11 {
        'b'
    } else if d == 12 {
        'c'
    } else if d == 13 {
        'd'
    } else if d == 14 {
        'e'
    } else {
        'f'
    }
}

/// Each byte as two lowercase hexadecimal digits, high nibble first.
pub open spec fn hex_encoding(data: Seq<u8>) -> Seq<char>
    decreases data.len(),
{
    if data.len() == 0 {
        Seq::empty()
    } else {
        hex_encoding(data.drop_last()) + seq![
            lower_hex_digit(data.last() as nat / 16),
            lower_hex_digit(data.last() as nat % 16),
        ]
    }
}

/// Calls `hex::encode`, which writes each byte of `data` as two lowercase
/// hexadecimal digits, high nibble first.
#[verifier::external_body]
fn hex_encode(data: &[u8]) -> (r: String)
    ensures
        r@ == hex_encoding(data@),
{
    hex::encode(data)
}

/// The hexadecimal encoding is ASCII, two characters per byte.
pub proof fn lemma_hex_encoding_ascii(data: Seq<u8>)
    ensures
        vstd::utf8::is_ascii_chars(hex_encoding(data)),
        hex_encoding(data).len() == 2 * data.len(),
    decreases data.len(),
{
    if data.len() > 0 {
        lemma_hex_encoding_ascii(data.drop_last());
        let s = hex_encoding(data);
        let t = hex_encoding(data.drop_last());
        assert forall|i| 0 <= i < s.len() implies '\0' <= #[trigger] s[i] <= '\u{7f}' by {
            if i < t.len() {
                assert(s[i] == t[i]);
            }
        }
    }
}

/// A prefix of the parts needs no more bytes than all of them.
pub proof fn lemma_sum_min_len_prefix(parts: Seq<PartView>, i: int)
    requires
        0 <= i <= parts.len(),
    ensures
        sum_min_len(parts.take(i)) <= sum_min_len(parts),
    decreases parts.len(),
{
    if i < parts.len() {
        lemma_sum_min_len_prefix(parts.drop_last(), i);
        assert(parts.drop_last().take(i) =~= parts.take(i));
    } else {
        assert(parts.take(i) =~= parts);
    }
}

/// The minimum length adds up over concatenated parts.
pub proof fn lemma_sum_min_len_concat(a: Seq<PartView>, b: Seq<PartView>)
    ensures
        sum_min_len(a + b) == sum_min_len(a) + sum_min_len(b),
    decreases b.len(),
{
    if b.len() == 0 {
        assert(a + b =~= a);
    } else {
        lemma_sum_min_len_concat(a, b.drop_last());
        assert((a + b).drop_last() =~= a + b.drop_last());
    }
}

/// A Response represents expected data returned from the TPM.
#[derive(Debug)]
pub struct Response<'a> {
    /// The encoded format this response is constructed from, owned for lifetime
    /// referencing the parts.
    _encoded: &'a EncodedResponse,
    /// The minimum length of actual data expected, computed based on
    /// `_encoded`.
    min_len: usize,
    /// The parts of the response.
    parts: Vec<Part<'a>>,
}

impl<'a> Response<'a> {
    /// The minimum length is the sum of the parts' minimum lengths.
    #[verifier::type_invariant]
    spec fn well_formed(self) -> bool {
        self.min_len == sum_min_len(views_of(self.parts@))
    }

    /// The parts of the response, in order.
    pub closed spec fn parts_view(self) -> Seq<PartView> {
        views_of(self.parts@)
    }

    /// The encoded response this response was read from.
    pub closed spec fn encoded(self) -> &'a EncodedResponse {
        self._encoded
    }

    /// Create a new Response.
    pub fn new(encoded: &'a EncodedResponse, parts: Vec<Part<'a>>) -> (r: Self)
        requires
            sum_min_len(views_of(parts@)) <= usize::MAX,
        ensures
            r.parts_view() == views_of(parts@),
            r.encoded() == encoded,
    {
        let mut min_len: usize = 0;
        let mut i: usize = 0;
        while i < parts.len()
            invariant
                i <= parts@.len(),
                sum_min_len(views_of(parts@)) <= usize::MAX,
                min_len == sum_min_len(views_of(parts@).take(i as int)),
            decreases parts@.len() - i,
        {
            let ghost v = views_of(parts@);
            proof {
                assert(v.take(i + 1).drop_last() =~= v.take(i as int));
                lemma_sum_min_len_prefix(v, i + 1);
            }
            min_len = min_len + parts[i].min_len();
            i = i + 1;
        }
        assert(views_of(parts@).take(parts@.len() as int) =~= views_of(parts@));
        Self { _encoded: encoded, min_len, parts }
    }

    /// Returns the minimum length of TPM data needed for this response to
    /// evaluate.
    pub fn min_len(&self) -> (r: usize)
        ensures
            r == sum_min_len(self.parts_view()),
    {
        proof {
            use_type_invariant(self);
        }
        self.min_len
    }

    /// Check the response against actual `data` (formatted as a hexadecimal
    /// string) returned from the TPM.
    pub fn check(&self, data: &str) -> (r: Result<(), ResponseEvaluationError>)
        requires
            data.is_ascii(),
        ensures
            evaluation_outcome(r) == spec_response_check(
                self.parts_view(),
                sum_min_len(self.parts_view()) as int,
                data@,
            ),
    {
        let min_len = self.min_len();
        let n = str_len(data);
        if n < min_len {
            return Err(ResponseEvaluationError::ResponseTooShort(min_len, n));
        }
        let ghost all = self.parts_view();
        let ghost actual = data@;
        let mut state = PartialMatch { matched: 0, remaining: data };
        let mut i: usize = 0;
        assert(all.skip(0) =~= all);
        while i < self.parts.len()
            invariant
                all == views_of(self.parts@),
                all == self.parts_view(),
                actual == data@,
                actual.len() >= sum_min_len(all),
                i <= self.parts@.len(),
                state.remaining.is_ascii(),
                state.matched + state.remaining@.len() <= usize::MAX,
                spec_check_parts(all, 0, actual) == spec_check_parts(
                    all.skip(i as int),
                    state.matched as int,
                    state.remaining@,
                ),
            decreases self.parts@.len() - i,
        {
            let ghost here = all.skip(i as int);
            assert(here.len() > 0);
            assert(here[0] == self.parts@[i as int]@);
            assert(here.drop_first() =~= all.skip(i + 1));
            let ghost m0 = state.matched as int;
            let ghost r0 = state.remaining@;
            state = match self.parts[i].check(state) {
                Ok(d) => d,
                Err(e) => {
                    assert(spec_check_parts(here, m0, r0) == Err::<MatchState, _>(e@));
                    return Err(e);
                },
            };
            i = i + 1;
        }
        Ok(())
    }

    /// Convenience function to construct a Response and evaluate it.
    pub fn evaluate(encoded: &EncodedResponse, data: &[u8]) -> (r: Result<(), ResponseEvaluationError>)
        ensures
            evaluation_outcome(r) == match crate::parse::fields::spec_encoded_response(encoded@) {
                Err((q, k)) => Err(
                    EvaluationErrorView::Parse(crate::parse::grammar_failure(encoded@, q, k)),
                ),
                Ok(parts) => spec_response_check(parts, sum_min_len(parts) as int, hex_encoding(data@)),
            },
    {
        let response = match crate::parse::response(encoded) {
            Ok(response) => response,
            Err(e) => return Err(ResponseEvaluationError::Parse(e)),
        };
        let actual = hex_encode(data);
        proof {
            lemma_hex_encoding_ascii(data@);
        }
        response.check(actual.as_str())
    }
}

} // verus!

verus! {

/// `n` spaces.
pub open spec fn spaces(n: nat) -> Seq<char> {
    Seq::new(n, |i: int| ' ')
}

/// `...` before texts that follow matched bytes.
pub open spec fn ellipsis_if(matched: int) -> Seq<char> {
    if matched == 0 {
        ""@
    } else {
        "..."@
    }
}

/// When the message of an error can be written: a mismatch's characters
/// per byte is not zero and its numbers stay within `usize`.
pub open spec fn message_defined(v: EvaluationErrorView) -> bool {
    match v {
        EvaluationErrorView::PartMismatch(_, _, index, per_byte, matched) => per_byte != 0 && index
            + (if matched == 0 {
            0int
        } else {
            3int
        }) <= usize::MAX && index / per_byte + 1 + matched <= usize::MAX,
        _ => true,
    }
}

/// The message describing an evaluation error.
pub open spec fn evaluation_message(v: EvaluationErrorView) -> Seq<char> {
    match v {
        EvaluationErrorView::Parse(_) => "error parsing encoded response"@,
        EvaluationErrorView::ResponseTooShort(want, got) => "\nTPM response too short\n  want: >= "@
            + decimal(want as nat) + "\n   got: "@ + decimal(got as nat),
        EvaluationErrorView::InvalidPart(expected, count) => "invalid response part: \""@ + expected
            + "\""@ + if count > 0 {
            ": "@ + decimal(count as nat) + " bytes to match"@
        } else {
            Seq::empty()
        },
        EvaluationErrorView::PartExtendsBeyondResponse(want, got) =>
            "\nTPM response part extends beyond end of response\n  want: >= "@ + decimal(want as nat)
            + "\n   got: "@ + decimal(got as nat),
        EvaluationErrorView::PartMismatch(want, got, index, per_byte, matched) => {
            let width: int = index + if matched == 0 {
                0int
            } else {
                3int
            };
            "\nTPM response part mismatch\n  want: "@ + ellipsis_if(matched) + want + "\n   got: "@
                + ellipsis_if(matched) + got + "\n        "@ + spaces(
                if width == 0 {
                    1
                } else {
                    width as nat
                },
            ) + "^ mismatch begins in byte "@ + decimal((index / per_byte + 1 + matched) as nat)
                + "\n        "@ + if matched == 0 {
                ""@
            } else {
                "^^^ omitted "@ + decimal(matched as nat) + " matched bytes"@
            }
        },
        EvaluationErrorView::PartCompareFailure(want, got, matched) =>
            "\nTPM response part compare failure\n  want: "@ + ellipsis_if(matched) + want
            + "\n   got: "@ + ellipsis_if(matched) + got + "\n"@,
    }
}

fn push_spaces(out: &mut String, n: usize)
    ensures
        final(out)@ == old(out)@ + spaces(n as nat),
{
    let space = " ";
    proof {
        reveal_strlit(" ");
    }
    let mut i: usize = 0;
    while i < n
        invariant
            space@ == seq![' '],
            i <= n,
            out@ == old(out)@ + spaces(i as nat),
        decreases n - i,
    {
        out.append(space);
        i = i + 1;
        assert(out@ =~= old(out)@ + spaces(i as nat));
    }
}

impl ResponseEvaluationError {
    /// The message describing the error.
    pub fn message(&self) -> (r: String)
        requires
            message_defined(self@),
        ensures
            r@ == evaluation_message(self@),
    {
        match self {
            Self::Parse(_) => "error parsing encoded response".to_owned(),
            Self::ResponseTooShort(want, got) => {
                let mut r = "\nTPM response too short\n  want: >= ".to_owned();
                push_decimal(&mut r, *want);
                r.append("\n   got: ");
                push_decimal(&mut r, *got);
                r
            },
            Self::InvalidPart(expected, count) => {
                let mut r = "invalid response part: \"".to_owned();
                r.append(expected.as_str());
                r.append("\"");
                if *count > 0 {
                    r.append(": ");
                    push_decimal(&mut r, *count);
                    r.append(" bytes to match");
                }
                r
            },
            Self::PartExtendsBeyondResponse(want, got) => {
                let mut r = "\nTPM response part extends beyond end of response\n  want: >= ".to_owned();
                push_decimal(&mut r, *want);
                r.append("\n   got: ");
                push_decimal(&mut r, *got);
                r
            },
            Self::PartMismatch(want, got, index, chars_per_byte, matched) => {
                let prelude = if *matched == 0 {
                    ""
                } else {
                    "..."
                };
                // The prelude is empty or three characters long.
                let width = *index + if *matched == 0 {
                    0
                } else {
                    3
                };
                let total = *index / *chars_per_byte + 1 + *matched;
                let mut r = "\nTPM response part mismatch\n  want: ".to_owned();
                r.append(prelude);
                r.append(want.as_str());
                r.append("\n   got: ");
                r.append(prelude);
                r.append(got.as_str());
                r.append("\n        ");
                push_spaces(
                    &mut r,
                    if width == 0 {
                        1
                    } else {
                        width
                    },
                );
                r.append("^ mismatch begins in byte ");
                push_decimal(&mut r, total);
                r.append("\n        ");
                if *matched != 0 {
                    r.append("^^^ omitted ");
                    push_decimal(&mut r, *matched);
                    r.append(" matched bytes");
                } else {
                    proof {
                        reveal_strlit("");
                        assert(r@ =~= r@ + ""@);
                    }
                }
                r
            },
            Self::PartCompareFailure(want, got, matched) => {
                let prelude = if *matched == 0 {
                    ""
                } else {
                    "..."
                };
                let mut r = "\nTPM response part compare failure\n  want: ".to_owned();
                r.append(prelude);
                r.append(want.as_str());
                r.append("\n   got: ");
                r.append(prelude);
                r.append(got.as_str());
                r.append("\n");
                r
            },
        }
    }
}

impl CompareType {
    /// The symbol of the comparison.
    pub fn symbol(&self) -> (r: &'static str)
        ensures
            r@ == match *self {
                CompareType::Not => NOT@,
                CompareType::LessThan => LESS_THAN@,
                CompareType::LessThanOrEqual => LESS_THAN_OR_EQUAL@,
                CompareType::GreaterThan => GREATER_THAN@,
                CompareType::GreaterThanOrEqual => GREATER_THAN_OR_EQUAL@,
            },
    {
        match self {
            Self::Not => NOT,
            Self::LessThan => LESS_THAN,
            Self::LessThanOrEqual => LESS_THAN_OR_EQUAL,
            Self::GreaterThan => GREATER_THAN,
            Self::GreaterThanOrEqual => GREATER_THAN_OR_EQUAL,
        }
    }
}

} // verus!

verus! {

/// The symbol that introduces a comparison in an encoded response.
pub open spec fn compare_symbol(t: CompareType) -> Seq<char> {
    match t {
        CompareType::Not => NOT@,
        CompareType::LessThan => LESS_THAN@,
        CompareType::LessThanOrEqual => LESS_THAN_OR_EQUAL@,
        CompareType::GreaterThan => GREATER_THAN@,
        CompareType::GreaterThanOrEqual => GREATER_THAN_OR_EQUAL@,
    }
}

/// The description of a part.
pub open spec fn part_message(p: PartView) -> Seq<char> {
    match p {
        PartView::Hex(s, c) => "Part \""@ + s + "\": "@ + decimal(c as nat) + " bytes to match"@,
        PartView::Binary(s, c) => "Part \""@ + s + "\": "@ + decimal(c as nat) + " bytes to match"@,
        PartView::Tpm2b => "TPM2B"@,
        PartView::Compare(t, s, c) => "Compare "@ + compare_symbol(t) + " \""@ + s + "\": "@ + decimal(
            c as nat,
        ) + " bytes to match"@,
    }
}

impl<'a> Part<'a> {
    /// The description of the part.
    pub fn message(&self) -> (r: String)
        ensures
            r@ == part_message(self@),
    {
        match self {
            Self::Hex(s, c) | Self::Binary(s, c) => {
                let mut r = "Part \"".to_owned();
                r.append(s);
                r.append("\": ");
                push_decimal(&mut r, *c);
                r.append(" bytes to match");
                r
            },
            Self::TPM2B => "TPM2B".to_owned(),
            Self::Compare(t, s, c) => {
                let mut r = "Compare ".to_owned();
                r.append(t.symbol());
                r.append(" \"");
                r.append(s);
                r.append("\": ");
                push_decimal(&mut r, *c);
                r.append(" bytes to match");
                r
            },
        }
    }
}

} // verus!

verus! {

/// The two characters that encode byte `i`.
pub proof fn lemma_hex_encoding_index(data: Seq<u8>, i: int)
    requires
        0 <= i < data.len(),
    ensures
        hex_encoding(data).len() == 2 * data.len(),
        hex_encoding(data)[2 * i] == lower_hex_digit(data[i] as nat / 16),
        hex_encoding(data)[2 * i + 1] == lower_hex_digit(data[i] as nat % 16),
    decreases data.len(),
{
    lemma_hex_encoding_ascii(data);
    if i < data.len() - 1 {
        lemma_hex_encoding_index(data.drop_last(), i);
    }
}

/// Every character of the encoding is a hexadecimal digit.
pub proof fn lemma_hex_encoding_digits(data: Seq<u8>)
    ensures
        forall|j: int| 0 <= j < hex_encoding(data).len() ==> is_hex_digit(#[trigger] hex_encoding(data)[j]),
{
    lemma_hex_encoding_ascii(data);
    assert forall|j: int| 0 <= j < hex_encoding(data).len() implies is_hex_digit(#[trigger] hex_encoding(data)[j]) by {
        lemma_hex_encoding_index(data, j / 2);
        if j % 2 == 0 {
            assert(j == 2 * (j / 2));
        } else {
            assert(j == 2 * (j / 2) + 1);
        }
    }
}

/// A response written as exactly the hexadecimal digits of some bytes reads
/// as one hexadecimal part, and matches those bytes.
pub proof fn law_exact_hex_matches(data: Seq<u8>)
    requires
        data.len() > 0,
        2 * data.len() <= usize::MAX,
    ensures
        spec_encoded_response(hex_encoding(data)) == Ok::<Seq<PartView>, (int, ErrorKind)>(
            seq![PartView::Hex(hex_encoding(data), (2 * data.len()) as usize)],
        ),
        spec_response_check(
            seq![PartView::Hex(hex_encoding(data), (2 * data.len()) as usize)],
            data.len() as int,
            hex_encoding(data),
        ) is Ok,
{
    let h = hex_encoding(data);
    let n = h.len() as int;
    lemma_hex_encoding_digits(data);
    lemma_hex_encoding_ascii(data);
    assert forall|j: int| 0 <= j < n implies in_alphabet(Alphabet::HexWildcard, #[trigger] h[j]) by {
        assert(is_hex_digit(h[j]));
    }
    lemma_run_end_all(h, 1, Alphabet::HexWildcard);
    assert forall|j: int| 0 <= j < n implies #[trigger] h[j] != SPACE by {
        assert(is_hex_digit(h[j]));
    }
    lemma_strip_no_spaces(h);
    assert(h.subrange(0, n) =~= h);
    let part = PartView::Hex(h, n as usize);
    assert(spec_numeric_part(h, 0, NumericLiteral::Hex, 2) == Ok::<(int, PartView), (int, ErrorKind)>((n, part)));
    assert(spec_response_item(h, 0) == Ok::<(int, PartView), (int, ErrorKind)>((n, part)));
    assert(spec_response_items(h, n).1 =~= Seq::<PartView>::empty());
    assert(seq![part] + Seq::<PartView>::empty() =~= seq![part]);
    // The check.
    let parts = seq![part];
    lemma_first_mismatch_self(h, 0, true);
    assert(h.take(n) =~= h);
    assert(parts.drop_first() =~= Seq::<PartView>::empty());
    assert(spec_part_check(part, 0, h) == Ok::<MatchState, EvaluationErrorView>((n / 2, h.skip(n))));
    assert(spec_check_parts(parts.drop_first(), n / 2, h.skip(n)) is Ok);
    assert(spec_check_parts(parts, 0, h) is Ok);
}

/// A hexadecimal part of wildcards matches any data long enough.
pub proof fn law_wildcards_match_anything(w: Seq<char>, count: usize, matched: int, rest: Seq<char>)
    requires
        forall|j: int| 0 <= j < w.len() ==> #[trigger] w[j] == WILDCARD,
        rest.len() >= count,
    ensures
        spec_part_check(PartView::Hex(w, count), matched, rest) == Ok::<MatchState, EvaluationErrorView>(
            (matched + count / 2, rest.skip(count as int)),
        ),
{
    assert forall|j: int| 0 <= j < w.len() implies #[trigger] w[j] != SPACE by {
        assert(w[j] == WILDCARD);
    }
    lemma_strip_no_spaces(w);
    lemma_first_mismatch_wildcards(w, rest.take(count as int), 0, true);
}

proof fn lemma_check_parts_consumes(parts: Seq<PartView>, matched: int, rest: Seq<char>)
    ensures
        spec_check_parts(parts, matched, rest) matches Ok((m, r)) ==> rest.len() - r.len() >= 2
            * sum_min_len(parts),
    decreases parts.len(),
{
    if parts.len() > 0 {
        let p = parts[0];
        lemma_sum_min_len_concat(seq![p], parts.drop_first());
        assert(seq![p] + parts.drop_first() =~= parts);
        assert(sum_min_len(seq![p]) == part_min_len(p)) by {
            reveal_with_fuel(sum_min_len, 2);
            assert(seq![p].drop_last() =~= Seq::<PartView>::empty());
        }
        if let Ok((m, r)) = spec_part_check(p, matched, rest) {
            lemma_check_parts_consumes(parts.drop_first(), m, r);
            assert(rest.len() - r.len() >= 2 * part_min_len(p)) by {
                match p {
                    PartView::Hex(_, c) => {},
                    PartView::Binary(_, c) => {
                        assert(c as int / 4 >= 2 * (c as int / 8));
                    },
                    PartView::Tpm2b => {},
                    PartView::Compare(_, _, c) => {},
                }
            }
        }
    }
}

/// Whether a part's count stands for whole bytes: an even number of
/// hexadecimal characters, or a multiple of eight bits.
pub open spec fn counts_whole_bytes(p: PartView) -> bool {
    match p {
        PartView::Hex(_, count) => count % 2 == 0,
        PartView::Binary(_, count) => count % 8 == 0,
        PartView::Tpm2b => true,
        PartView::Compare(_, _, count) => count % 2 == 0,
    }
}

/// A part that matches consumes a front of the data, and the bytes it adds
/// to those matched are exactly the characters it consumed, two per byte:
/// at least its minimum length.
pub proof fn law_part_check_counts_bytes(p: PartView, matched: int, rest: Seq<char>)
    requires
        counts_whole_bytes(p),
    ensures
        spec_part_check(p, matched, rest) matches Ok((m, r)) ==> {
            &&& r.len() <= rest.len()
            &&& r == rest.skip(rest.len() - r.len())
            &&& 2 * m + r.len() == 2 * matched + rest.len()
            &&& m >= matched + part_min_len(p)
        },
{
    if let Ok((m, r)) = spec_part_check(p, matched, rest) {
        match p {
            PartView::Binary(_, c) => {
                assert(c as int / 4 == 2 * (c as int / 8));
            },
            _ => {},
        }
    }
}

/// Parts that match in turn consume a front of the data, count the bytes
/// of what they consumed, and count at least their minimum length.
pub proof fn law_check_parts_counts_bytes(parts: Seq<PartView>, matched: int, rest: Seq<char>)
    requires
        forall|j: int| 0 <= j < parts.len() ==> counts_whole_bytes(#[trigger] parts[j]),
    ensures
        spec_check_parts(parts, matched, rest) matches Ok((m, r)) ==> {
            &&& r.len() <= rest.len()
            &&& r == rest.skip(rest.len() - r.len())
            &&& 2 * m + r.len() == 2 * matched + rest.len()
            &&& m >= matched + sum_min_len(parts)
        },
    decreases parts.len(),
{
    if parts.len() > 0 {
        let p = parts[0];
        lemma_sum_min_len_concat(seq![p], parts.drop_first());
        assert(seq![p] + parts.drop_first() =~= parts);
        assert(sum_min_len(seq![p]) == part_min_len(p)) by {
            reveal_with_fuel(sum_min_len, 2);
            assert(seq![p].drop_last() =~= Seq::<PartView>::empty());
        }
        law_part_check_counts_bytes(p, matched, rest);
        if let Ok((m1, r1)) = spec_part_check(p, matched, rest) {
            let tail = parts.drop_first();
            assert forall|j: int| 0 <= j < tail.len() implies counts_whole_bytes(#[trigger] tail[j]) by {
                assert(tail[j] == parts[j + 1]);
            }
            law_check_parts_counts_bytes(tail, m1, r1);
            if let Ok((m, r)) = spec_check_parts(tail, m1, r1) {
                assert(r == rest.skip(rest.len() - r.len())) by {
                    assert(r1 == rest.skip(rest.len() - r1.len()));
                    assert(r == r1.skip(r1.len() - r.len()));
                    assert forall|k: int| 0 <= k < r.len() implies r[k] == rest.skip(
                        rest.len() - r.len(),
                    )[k] by {
                        assert(r[k] == r1[r1.len() - r.len() + k]);
                        assert(r1[r1.len() - r.len() + k] == rest[rest.len() - r1.len() + r1.len() - r.len() + k]);
                    }
                    assert(r =~= rest.skip(rest.len() - r.len()));
                }
            }
        }
    } else {
        assert(rest.skip(0) =~= rest);
    }
}

proof fn lemma_part_check_extends(p: PartView, matched: int, rest: Seq<char>, extra: Seq<char>)
    ensures
        spec_part_check(p, matched, rest) matches Ok((m, r)) ==> spec_part_check(
            p,
            matched,
            rest + extra,
        ) == Ok::<MatchState, EvaluationErrorView>((m, r + extra)),
{
    if let Ok((m, r)) = spec_part_check(p, matched, rest) {
        let all = rest + extra;
        match p {
            PartView::Hex(_, c) => {
                assert(all.take(c as int) =~= rest.take(c as int));
                assert(all.skip(c as int) =~= rest.skip(c as int) + extra);
            },
            PartView::Binary(_, c) => {
                let n = c as int / 4;
                assert(all.take(n) =~= rest.take(n));
                assert(all.skip(n) =~= rest.skip(n) + extra);
            },
            PartView::Tpm2b => {
                assert(all.take(4) =~= rest.take(4));
                let size = 2 * hex_value(hex_digits(rest.take(4))) as int;
                assert(all.skip(4 + size) =~= rest.skip(4 + size) + extra);
            },
            PartView::Compare(_, _, c) => {
                assert(all.take(c as int) =~= rest.take(c as int));
                assert(all.skip(c as int) =~= rest.skip(c as int) + extra);
            },
        }
    }
}

proof fn lemma_check_parts_extends(parts: Seq<PartView>, matched: int, rest: Seq<char>, extra: Seq<char>)
    ensures
        spec_check_parts(parts, matched, rest) matches Ok((m, r)) ==> spec_check_parts(
            parts,
            matched,
            rest + extra,
        ) == Ok::<MatchState, EvaluationErrorView>((m, r + extra)),
    decreases parts.len(),
{
    if parts.len() > 0 {
        lemma_part_check_extends(parts[0], matched, rest, extra);
        if let Ok((m1, r1)) = spec_part_check(parts[0], matched, rest) {
            lemma_check_parts_extends(parts.drop_first(), m1, r1, extra);
        }
    }
}

/// Characters after the data that a response matches are not checked:
/// appending any keeps it matching.
pub proof fn law_trailing_data_keeps_match(parts: Seq<PartView>, data: Seq<char>, extra: Seq<char>)
    requires
        spec_response_check(parts, sum_min_len(parts) as int, data) is Ok,
    ensures
        spec_response_check(parts, sum_min_len(parts) as int, data + extra) is Ok,
{
    lemma_check_parts_extends(parts, 0, data, extra);
}

/// A hexadecimal part checks every character it covers: it matches data
/// long enough exactly when each expected character (spaces left out) is a
/// wildcard or equals the data's character at the same place, letters in
/// either case; a wildcard stands for its own place only.
pub proof fn law_hex_part_checks_each_character(expected: Seq<char>, count: usize, matched: int, rest: Seq<char>)
    requires
        rest.len() >= count,
    ensures
        (spec_part_check(PartView::Hex(expected, count), matched, rest) is Ok) == (forall|j: int|
            0 <= j < strip_spaces(expected).len() && j < count ==> #[trigger] strip_spaces(expected)[j]
                == WILDCARD || lower_code(strip_spaces(expected)[j]) == lower_code(rest[j])),
{
    let want = strip_spaces(expected);
    let got = rest.take(count as int);
    law_first_mismatch_is_first(want, got, true);
    if forall|j: int|
        0 <= j < want.len() && j < count ==> #[trigger] want[j] == WILDCARD || lower_code(want[j])
            == lower_code(rest[j]) {
        assert forall|j: int| 0 <= j < want.len() && j < got.len() implies #[trigger] want[j]
            == WILDCARD || lower_code(want[j]) == lower_code(got[j]) by {
            assert(got[j] == rest[j]);
        }
    } else {
        let j = choose|j: int|
            !(0 <= j < want.len() && j < count ==> #[trigger] want[j] == WILDCARD || lower_code(want[j])
                == lower_code(rest[j]));
        assert(got[j] == rest[j]);
        assert(!(want[j] == WILDCARD || lower_code(want[j]) == lower_code(got[j])));
    }
}

/// A binary part checks every bit it covers: it matches data long enough
/// exactly when each expected bit (spaces left out) is a wildcard or equals
/// the bit at the same place of the data's binary digits.
pub proof fn law_binary_part_checks_each_bit(expected: Seq<char>, count: usize, matched: int, rest: Seq<char>)
    requires
        rest.len() >= count / 4,
    ensures
        (spec_part_check(PartView::Binary(expected, count), matched, rest) is Ok) == (forall|j: int|
            0 <= j < strip_spaces(expected).len() && j < hex_to_binary(rest.take(count as int / 4)).len()
                ==> #[trigger] strip_spaces(expected)[j] == WILDCARD || strip_spaces(expected)[j]
                == hex_to_binary(rest.take(count as int / 4))[j]),
{
    law_first_mismatch_is_first(strip_spaces(expected), hex_to_binary(rest.take(count as int / 4)), false);
}

/// The comparison parts order the lowered data against the lowered expected
/// text (spaces left out) lexicographically: `<=` is `<` or equal, `>=` is
/// not `<`, `>` is not `<=`, `!` is not equal; and `<` holds where the data
/// is below at the first place they differ, or is a proper prefix.
pub proof fn law_compare_parts_order(expected: Seq<char>, count: usize, matched: int, rest: Seq<char>)
    requires
        rest.len() >= count,
    ensures
        ({
            let ok = |t: CompareType| spec_part_check(PartView::Compare(t, expected, count), matched, rest) is Ok;
            let got = lowered(rest.take(count as int));
            let want = lowered(strip_spaces(expected));
            &&& ok(CompareType::Not) == (got != want)
            &&& ok(CompareType::LessThanOrEqual) == (ok(CompareType::LessThan) || got == want)
            &&& ok(CompareType::GreaterThanOrEqual) == !ok(CompareType::LessThan)
            &&& ok(CompareType::GreaterThan) == !ok(CompareType::LessThanOrEqual)
            &&& forall|i: int|
                #![trigger got[i], want[i]]
                0 <= i < got.len() && i < want.len() && got.take(i) == want.take(i) && got[i] < want[i]
                    ==> ok(CompareType::LessThan)
            &&& got.len() < want.len() && got == want.take(got.len() as int) ==> ok(CompareType::LessThan)
        }),
{
    let got = lowered(rest.take(count as int));
    let want = lowered(strip_spaces(expected));
    lemma_lex_order_zero(got, want);
    assert forall|i: int|
        #![trigger got[i], want[i]]
        0 <= i < got.len() && i < want.len() && got.take(i) == want.take(i) && got[i] < want[i] implies lex_order(
        got,
        want,
    ) == -1 by {
        law_lex_order_first_difference(got, want, i);
    }
    if got.len() < want.len() && got == want.take(got.len() as int) {
        assert(got.take(got.len() as int) =~= got);
        law_lex_order_first_difference(got, want, got.len() as int);
    }
    assert(lex_order(got, want) == -1 || lex_order(got, want) == 0 || lex_order(got, want) == 1) by {
        lemma_lex_order_range(got, want);
    }
}

proof fn lemma_lex_order_range(a: Seq<u32>, b: Seq<u32>)
    ensures
        lex_order(a, b) == -1 || lex_order(a, b) == 0 || lex_order(a, b) == 1,
    decreases a.len(),
{
    if a.len() > 0 && b.len() > 0 && a[0] == b[0] {
        lemma_lex_order_range(a.drop_first(), b.drop_first());
    }
}

/// A response only matches data holding at least its minimum length of
/// bytes, two hexadecimal characters each.
pub proof fn law_match_needs_min_len(parts: Seq<PartView>, data: Seq<char>)
    ensures
        spec_response_check(parts, sum_min_len(parts) as int, data) is Ok ==> data.len() >= 2
            * sum_min_len(parts),
{
    lemma_check_parts_consumes(parts, 0, data);
}

} // verus!
