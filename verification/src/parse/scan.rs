//! Character classes and the scanning steps shared by the field grammars.
//!
//! The grammars are stated as spec functions over the characters of the
//! input and positions in it: a successful step yields the position where the
//! rest of the input begins, a failed step yields the position at which it
//! failed together with the kind of failure.
use vstd::prelude::*;

use crate::parse::consts::{SPACE, WILDCARD};

verus! {

/// The kind of a grammar failure, named after the step that failed.
#[derive(Clone, Copy, Debug, PartialEq, Eq, Structural)]
pub enum ErrorKind {
    /// A fixed tag (such as `TPM2B` or `0b`) was expected.
    Tag,
    /// A single delimiter character was expected.
    Char,
    /// A character of a digit class was expected.
    OneOf,
    /// A digit run does not hold a whole number of bytes.
    Verify,
    /// Input was left over after the whole field was read.
    Eof,
}

/// A grammar failure: the input left at the point of failure, and its kind.
#[derive(Debug, PartialEq, Eq)]
pub struct ParseFailure<'a> {
    /// The rest of the input, starting where the failure occurred.
    pub input: &'a str,
    /// What was expected there.
    pub code: ErrorKind,
}

impl<'a> ParseFailure<'a> {
    /// Creates a failure at `input` of kind `code`.
    pub fn new(input: &'a str, code: ErrorKind) -> (r: Self)
        ensures
            r.input == input,
            r.code == code,
    {
        ParseFailure { input, code }
    }
}

/// The digit classes that digit runs are made of.
#[derive(Clone, Copy, Debug, PartialEq, Eq, Structural)]
pub enum Alphabet {
    /// `0-9`, `a-f`, `A-F`.
    Hex,
    /// Hexadecimal digits and the wildcard `*`.
    HexWildcard,
    /// `0`, `1` and the wildcard `*`.
    BinaryWildcard,
}

/// Position-based outcome of a grammar step: `Ok((end, value))` or
/// `Err((position, kind))`.
pub type Step<T> = Result<(int, T), (int, ErrorKind)>;

pub open spec fn is_hex_digit(c: char) -> bool {
    ('0' <= c && c <= '9') || ('a' <= c && c <= 'f') || ('A' <= c && c <= 'F')
}

pub open spec fn in_alphabet(a: Alphabet, c: char) -> bool {
    match a {
        Alphabet::Hex => is_hex_digit(c),
        Alphabet::HexWildcard => is_hex_digit(c) || c == WILDCARD,
        Alphabet::BinaryWildcard => c == '0' || c == '1' || c == WILDCARD,
    }
}

/// The first position at or after `i` holding neither a digit of `a` nor a
/// space.
pub open spec fn run_end(s: Seq<char>, i: int, a: Alphabet) -> int
    decreases s.len() - i,
{
    if 0 <= i < s.len() && (s[i] == SPACE || in_alphabet(a, s[i])) {
        run_end(s, i + 1, a)
    } else {
        i
    }
}

/// A digit run starting at `i`: a digit of `a`, then any mix of digits and
/// spaces. Yields the end of the run.
pub open spec fn digit_run(s: Seq<char>, i: int, a: Alphabet) -> Result<int, (int, ErrorKind)> {
    if 0 <= i < s.len() && in_alphabet(a, s[i]) {
        Ok(run_end(s, i + 1, a))
    } else {
        Err((i, ErrorKind::OneOf))
    }
}

/// The first position at or after `i` that does not hold a space.
pub open spec fn spaces_end(s: Seq<char>, i: int) -> int
    decreases s.len() - i,
{
    if 0 <= i < s.len() && s[i] == SPACE {
        spaces_end(s, i + 1)
    } else {
        i
    }
}

/// Whether `s` holds the characters of `t` starting at `i`.
pub open spec fn has_tag_at(s: Seq<char>, i: int, t: Seq<char>) -> bool {
    0 <= i && i + t.len() <= s.len() && s.subrange(i, i + t.len()) == t
}

/// The characters of `s` other than spaces.
pub open spec fn strip_spaces(s: Seq<char>) -> Seq<char>
    decreases s.len(),
{
    if s.len() == 0 {
        s
    } else if s.last() == SPACE {
        strip_spaces(s.drop_last())
    } else {
        strip_spaces(s.drop_last()).push(s.last())
    }
}

/// Whether a step's outcome on `s` is told by `r`: on success the rest and the
/// recognized text are the slices of `s` at the end position, on failure the
/// failure holds the rest of `s` at the failing position.
pub open spec fn recognized_as<'a>(
    s: Seq<char>,
    r: Result<(&'a str, &'a str), ParseFailure<'a>>,
    start: int,
    spec: Result<int, (int, ErrorKind)>,
) -> bool {
    match spec {
        Ok(end) => r matches Ok((rest, rec)) && rest@ == s.skip(end) && rec@ == s.subrange(
            start,
            end,
        ),
        Err((p, k)) => r matches Err(e) && e.input@ == s.skip(p) && e.code == k,
    }
}

/// Whether an exec position outcome equals a spec position outcome.
pub open spec fn same_position(r: Result<usize, (usize, ErrorKind)>, spec: Result<int, (int, ErrorKind)>) -> bool {
    match spec {
        Ok(end) => r matches Ok(e) && e == end,
        Err((p, k)) => r matches Err((q, kk)) && q == p && kk == k,
    }
}

pub proof fn lemma_strip_spaces_len(s: Seq<char>)
    ensures
        strip_spaces(s).len() <= s.len(),
    decreases s.len(),
{
    if s.len() > 0 {
        lemma_strip_spaces_len(s.drop_last());
    }
}

pub proof fn lemma_run_end_bounds(s: Seq<char>, i: int, a: Alphabet)
    requires
        0 <= i <= s.len(),
    ensures
        i <= run_end(s, i, a) <= s.len(),
    decreases s.len() - i,
{
    if i < s.len() && (s[i] == SPACE || in_alphabet(a, s[i])) {
        lemma_run_end_bounds(s, i + 1, a);
    }
}

pub proof fn lemma_spaces_end_bounds(s: Seq<char>, i: int)
    requires
        0 <= i <= s.len(),
    ensures
        i <= spaces_end(s, i) <= s.len(),
    decreases s.len() - i,
{
    if i < s.len() && s[i] == SPACE {
        lemma_spaces_end_bounds(s, i + 1);
    }
}

/// A run over characters all of the alphabet reaches the end.
pub proof fn lemma_run_end_all(s: Seq<char>, i: int, a: Alphabet)
    requires
        0 <= i <= s.len(),
        forall|j: int| i <= j < s.len() ==> in_alphabet(a, #[trigger] s[j]),
    ensures
        run_end(s, i, a) == s.len(),
    decreases s.len() - i,
{
    if i < s.len() {
        lemma_run_end_all(s, i + 1, a);
    }
}

/// Text without spaces is left as it is by removing spaces.
pub proof fn lemma_strip_no_spaces(s: Seq<char>)
    requires
        forall|j: int| 0 <= j < s.len() ==> #[trigger] s[j] != SPACE,
    ensures
        strip_spaces(s) == s,
    decreases s.len(),
{
    if s.len() > 0 {
        lemma_strip_no_spaces(s.drop_last());
        assert(s.drop_last().push(s.last()) =~= s);
    }
}

/// The characters of `s`, one by one.
pub fn chars_of(s: &str) -> (v: Vec<char>)
    ensures
        v@ == s@,
{
    let n = s.unicode_len();
    let mut v: Vec<char> = Vec::new();
    let mut i: usize = 0;
    while i < n
        invariant
            n == s@.len(),
            i <= n,
            v@ == s@.take(i as int),
        decreases n - i,
    {
        let c = s.get_char(i);
        v.push(c);
        i = i + 1;
        assert(v@ =~= s@.take(i as int));
    }
    assert(v@ =~= s@);
    v
}

pub fn is_hex_digit_exec(c: char) -> (b: bool)
    ensures
        b == is_hex_digit(c),
{
    ('0' <= c && c <= '9') || ('a' <= c && c <= 'f') || ('A' <= c && c <= 'F')
}

pub fn in_alphabet_exec(a: Alphabet, c: char) -> (b: bool)
    ensures
        b == in_alphabet(a, c),
{
    match a {
        Alphabet::Hex => is_hex_digit_exec(c),
        Alphabet::HexWildcard => is_hex_digit_exec(c) || c == WILDCARD,
        Alphabet::BinaryWildcard => c == '0' || c == '1' || c == WILDCARD,
    }
}

/// Reads a digit run of `a` starting at `i`.
pub fn scan_digit_run(s: &Vec<char>, i: usize, a: Alphabet) -> (r: Result<usize, (usize, ErrorKind)>)
    requires
        i <= s@.len(),
    ensures
        same_position(r, digit_run(s@, i as int, a)),
        r matches Ok(e) ==> i < e <= s@.len(),
{
    if i < s.len() && in_alphabet_exec(a, s[i]) {
        let mut j = i + 1;
        while j < s.len() && (s[j] == SPACE || in_alphabet_exec(a, s[j]))
            invariant
                i < j <= s@.len(),
                run_end(s@, j as int, a) == run_end(s@, i as int + 1, a),
            decreases s@.len() - j,
        {
            j = j + 1;
        }
        Ok(j)
    } else {
        Err((i, ErrorKind::OneOf))
    }
}

/// Skips the spaces starting at `i`.
pub fn skip_spaces(s: &Vec<char>, i: usize) -> (e: usize)
    requires
        i <= s@.len(),
    ensures
        e == spaces_end(s@, i as int),
        i <= e <= s@.len(),
{
    let mut j = i;
    while j < s.len() && s[j] == SPACE
        invariant
            i <= j <= s@.len(),
            spaces_end(s@, j as int) == spaces_end(s@, i as int),
        decreases s@.len() - j,
    {
        j = j + 1;
    }
    j
}

/// Whether `s` holds `t` starting at `i`.
pub fn tag_at(s: &Vec<char>, i: usize, t: &str) -> (b: bool)
    requires
        i <= s@.len(),
    ensures
        b == has_tag_at(s@, i as int, t@),
{
    let n = t.unicode_len();
    if n > s.len() - i {
        return false;
    }
    let mut k: usize = 0;
    while k < n
        invariant
            n == t@.len(),
            i + n <= s.len(),
            k <= n,
            forall|j: int| 0 <= j < k ==> s@[i + j] == t@[j],
        decreases n - k,
    {
        if s[i + k] != t.get_char(k) {
            assert(s@.subrange(i as int, i + n)[k as int] != t@[k as int]);
            return false;
        }
        k = k + 1;
    }
    assert(s@.subrange(i as int, i + n) =~= t@);
    true
}

/// The number of characters of `s[i..j]` other than spaces.
pub fn count_non_spaces(s: &Vec<char>, i: usize, j: usize) -> (n: usize)
    requires
        i <= j <= s@.len(),
    ensures
        n == strip_spaces(s@.subrange(i as int, j as int)).len(),
{
    let mut n: usize = 0;
    let mut k = i;
    while k < j
        invariant
            i <= k <= j <= s@.len(),
            n == strip_spaces(s@.subrange(i as int, k as int)).len(),
            n <= k - i,
        decreases j - k,
    {
        let ghost before = s@.subrange(i as int, k as int);
        let ghost after = s@.subrange(i as int, k + 1);
        assert(after.drop_last() =~= before);
        proof {
            lemma_strip_spaces_len(before);
        }
        if s[k] != SPACE {
            n = n + 1;
        }
        k = k + 1;
    }
    n
}

} // verus!
