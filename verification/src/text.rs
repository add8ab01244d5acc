//! Character-level definitions used by the response checks and messages:
//! hexadecimal digit values, ASCII case folding, lexicographic order and
//! decimal numerals.
use vstd::prelude::*;

use crate::parse::consts::{SPACE, WILDCARD};
use crate::parse::scan::{is_hex_digit, strip_spaces};

verus! {

/// The value of a hexadecimal digit; 0 for any other character.
pub open spec fn hex_digit_value(c: char) -> nat {
    if '0' <= c && c <= '9' {
        (c as int - '0' as int) as nat
    } else if 'a' <= c && c <= 'f' {
        (c as int - 'a' as int + 10) as nat
    } else if 'A' <= c && c <= 'F' {
        (c as int - 'A' as int + 10) as nat
    } else {
        0
    }
}

/// The hexadecimal digits of `s`, in order, other characters left out.
pub open spec fn hex_digits(s: Seq<char>) -> Seq<char>
    decreases s.len(),
{
    if s.len() == 0 {
        Seq::empty()
    } else if is_hex_digit(s.last()) {
        hex_digits(s.drop_last()).push(s.last())
    } else {
        hex_digits(s.drop_last())
    }
}

/// The big-endian value of a sequence of hexadecimal digits.
pub open spec fn hex_value(s: Seq<char>) -> nat
    decreases s.len(),
{
    if s.len() == 0 {
        0
    } else {
        16 * hex_value(s.drop_last()) + hex_digit_value(s.last())
    }
}

pub open spec fn pow16(m: nat) -> nat
    decreases m,
{
    if m == 0 {
        1
    } else {
        16 * pow16((m - 1) as nat)
    }
}

pub open spec fn bit_char(b: nat) -> char {
    if b == 1 {
        '1'
    } else {
        '0'
    }
}

/// The four binary digits of a hexadecimal digit, most significant first;
/// nothing for any other character.
pub open spec fn nibble_bits(c: char) -> Seq<char> {
    if is_hex_digit(c) {
        let v = hex_digit_value(c);
        seq![bit_char(v / 8 % 2), bit_char(v / 4 % 2), bit_char(v / 2 % 2), bit_char(v % 2)]
    } else {
        Seq::empty()
    }
}

/// The binary digits of the hexadecimal digits of `s`, other characters
/// ignored.
pub open spec fn hex_to_binary(s: Seq<char>) -> Seq<char>
    decreases s.len(),
{
    if s.len() == 0 {
        Seq::empty()
    } else {
        hex_to_binary(s.drop_last()) + nibble_bits(s.last())
    }
}

/// The code of a character after ASCII lowercasing.
pub open spec fn lower_code(c: char) -> u32 {
    if 'A' <= c && c <= 'Z' {
        (c as u32 + 32) as u32
    } else {
        c as u32
    }
}

pub open spec fn lowered(s: Seq<char>) -> Seq<u32> {
    s.map_values(|c: char| lower_code(c))
}

/// Lexicographic order of two code sequences: -1, 0 or 1 as `a` is before,
/// equal to or after `b`; a proper prefix comes first.
pub open spec fn lex_order(a: Seq<u32>, b: Seq<u32>) -> int
    decreases a.len(),
{
    if a.len() == 0 {
        if b.len() == 0 {
            0
        } else {
            -1
        }
    } else if b.len() == 0 {
        1
    } else if a[0] < b[0] {
        -1
    } else if a[0] > b[0] {
        1
    } else {
        lex_order(a.drop_first(), b.drop_first())
    }
}

/// Whether `want[k]` fails to match `got[k]`: it is no wildcard and differs,
/// in case or not as `fold_case` says.
pub open spec fn is_mismatch(want: Seq<char>, got: Seq<char>, k: int, fold_case: bool) -> bool {
    want[k] != WILDCARD && (if fold_case {
        lower_code(want[k]) != lower_code(got[k])
    } else {
        want[k] != got[k]
    })
}

/// The first place from `k` on, within both sequences, where `want` fails to
/// match `got`.
pub open spec fn first_mismatch(want: Seq<char>, got: Seq<char>, k: int, fold_case: bool) -> Option<int>
    decreases want.len() - k,
{
    if k < 0 || k >= want.len() || k >= got.len() {
        None
    } else if is_mismatch(want, got, k, fold_case) {
        Some(k)
    } else {
        first_mismatch(want, got, k + 1, fold_case)
    }
}

pub open spec fn digit_char(d: nat) -> char {
    if d == 0 {
        '0'
    } else if d == 1 {
        '1'
    } else if d == 2 {
        '2'
    } else if d == 3 {
        '3'
    } else if d == 4 {
        '4'
    } else if d == 5 {
        '5'
    } else if d == 6 {
        '6'
    } else if d == 7 {
        '7'
    } else if d == 8 {
        '8'
    } else {
        '9'
    }
}

/// The decimal numeral of `n`, without leading zeros.
pub open spec fn decimal(n: nat) -> Seq<char>
    decreases n,
{
    if n < 10 {
        seq![digit_char(n)]
    } else {
        decimal(n / 10).push(digit_char(n % 10))
    }
}

pub proof fn lemma_pow16_positive(m: nat)
    ensures
        pow16(m) >= 1,
    decreases m,
{
    if m > 0 {
        lemma_pow16_positive((m - 1) as nat);
    }
}

/// A value of `m` digits is below `16^m`.
pub proof fn lemma_hex_value_bound(s: Seq<char>)
    ensures
        hex_value(s) < pow16(s.len()),
    decreases s.len(),
{
    if s.len() > 0 {
        lemma_hex_value_bound(s.drop_last());
        assert(hex_digit_value(s.last()) < 16);
    }
}

/// `16^m` grows with `m`.
pub proof fn lemma_pow16_monotone(a: nat, b: nat)
    requires
        a <= b,
    ensures
        pow16(a) <= pow16(b),
    decreases b,
{
    if a < b {
        lemma_pow16_monotone(a, (b - 1) as nat);
        lemma_pow16_positive((b - 1) as nat);
    }
}

/// A text has no more hexadecimal digits than characters, and a prefix of
/// it no more than the whole.
pub proof fn lemma_hex_digits_len(s: Seq<char>, i: int)
    requires
        0 <= i <= s.len(),
    ensures
        hex_digits(s).len() <= s.len(),
        hex_digits(s.take(i)).len() <= hex_digits(s).len(),
    decreases s.len(),
{
    if s.len() > 0 {
        if i < s.len() {
            lemma_hex_digits_len(s.drop_last(), i);
            assert(s.drop_last().take(i) =~= s.take(i));
        } else {
            lemma_hex_digits_len(s.drop_last(), 0);
            assert(s.take(i) =~= s);
        }
    } else {
        assert(s.take(i) =~= s);
    }
}

pub proof fn lemma_hex_to_binary_len_bound(s: Seq<char>)
    ensures
        hex_to_binary(s).len() <= 4 * s.len(),
    decreases s.len(),
{
    if s.len() > 0 {
        lemma_hex_to_binary_len_bound(s.drop_last());
    }
}

/// Text never mismatches itself.
pub proof fn lemma_first_mismatch_self(w: Seq<char>, k: int, fold_case: bool)
    ensures
        first_mismatch(w, w, k, fold_case) is None,
    decreases w.len() - k,
{
    if 0 <= k < w.len() {
        lemma_first_mismatch_self(w, k + 1, fold_case);
    }
}

/// Wildcards never mismatch.
pub proof fn lemma_first_mismatch_wildcards(w: Seq<char>, got: Seq<char>, k: int, fold_case: bool)
    requires
        forall|j: int| 0 <= j < w.len() ==> #[trigger] w[j] == WILDCARD,
    ensures
        first_mismatch(w, got, k, fold_case) is None,
    decreases w.len() - k,
{
    if 0 <= k < w.len() && k < got.len() {
        lemma_first_mismatch_wildcards(w, got, k + 1, fold_case);
    }
}

/// The value of a hexadecimal digit; 0 for any other character.
pub fn hex_digit_value_exec(c: char) -> (v: u32)
    ensures
        v == hex_digit_value(c),
        v < 16,
{
    if '0' <= c && c <= '9' {
        (c as u32) - ('0' as u32)
    } else if 'a' <= c && c <= 'f' {
        (c as u32) - ('a' as u32) + 10
    } else if 'A' <= c && c <= 'F' {
        (c as u32) - ('A' as u32) + 10
    } else {
        0
    }
}

pub fn lower_code_exec(c: char) -> (v: u32)
    ensures
        v == lower_code(c),
{
    if 'A' <= c && c <= 'Z' {
        (c as u32) + 32
    } else {
        c as u32
    }
}

/// `s` without its spaces.
pub fn without_spaces(s: &str) -> (r: String)
    ensures
        r@ == strip_spaces(s@),
{
    let n = s.unicode_len();
    let mut r = String::new();
    let mut i: usize = 0;
    while i < n
        invariant
            n == s@.len(),
            i <= n,
            r@ == strip_spaces(s@.take(i as int)),
        decreases n - i,
    {
        let c = s.get_char(i);
        assert(s@.take(i + 1).drop_last() =~= s@.take(i as int));
        if c != SPACE {
            let one = s.substring_char(i, i + 1);
            assert(one@ =~= seq![c]);
            r.append(one);
        }
        i = i + 1;
    }
    assert(s@.take(n as int) =~= s@);
    r
}

/// The lowered codes of the characters of `s`.
pub fn lowered_codes(s: &Vec<char>) -> (v: Vec<u32>)
    ensures
        v@ == lowered(s@),
{
    let mut v: Vec<u32> = Vec::new();
    let mut i: usize = 0;
    while i < s.len()
        invariant
            i <= s@.len(),
            v@ == lowered(s@.take(i as int)),
        decreases s@.len() - i,
    {
        v.push(lower_code_exec(s[i]));
        i = i + 1;
        assert(v@ =~= lowered(s@.take(i as int)));
    }
    assert(s@.take(s@.len() as int) =~= s@);
    v
}

/// The lexicographic order of `a` and `b`, as in [`lex_order`].
pub fn lex_order_exec(a: &Vec<u32>, b: &Vec<u32>) -> (r: i8)
    ensures
        r == lex_order(a@, b@),
{
    let mut k: usize = 0;
    assert(a@.skip(0) =~= a@);
    assert(b@.skip(0) =~= b@);
    while k < a.len() && k < b.len() && a[k] == b[k]
        invariant
            k <= a@.len(),
            k <= b@.len(),
            lex_order(a@, b@) == lex_order(a@.skip(k as int), b@.skip(k as int)),
        decreases a@.len() - k,
    {
        assert(a@.skip(k as int).drop_first() =~= a@.skip(k + 1));
        assert(b@.skip(k as int).drop_first() =~= b@.skip(k + 1));
        k = k + 1;
    }
    if k == a.len() {
        if k == b.len() {
            0
        } else {
            -1
        }
    } else if k == b.len() {
        1
    } else if a[k] < b[k] {
        -1
    } else {
        1
    }
}

pub proof fn lemma_lex_order_zero(a: Seq<u32>, b: Seq<u32>)
    ensures
        (lex_order(a, b) == 0) == (a == b),
    decreases a.len(),
{
    if a.len() > 0 && b.len() > 0 && a[0] == b[0] {
        lemma_lex_order_zero(a.drop_first(), b.drop_first());
        if a.drop_first() == b.drop_first() {
            assert(a =~= seq![a[0]] + a.drop_first());
            assert(b =~= seq![b[0]] + b.drop_first());
        }
    } else if a.len() == 0 && b.len() == 0 {
        assert(a =~= b);
    } else if a.len() > 0 && b.len() > 0 {
        assert(a[0] != b[0]);
    }
}

proof fn lemma_first_mismatch_from(want: Seq<char>, got: Seq<char>, k: int, fold_case: bool)
    requires
        0 <= k,
    ensures
        first_mismatch(want, got, k, fold_case) matches Some(m) ==> {
            &&& k <= m < want.len()
            &&& m < got.len()
            &&& want[m] != WILDCARD
            &&& if fold_case {
                lower_code(want[m]) != lower_code(got[m])
            } else {
                want[m] != got[m]
            }
            &&& forall|j: int|
                k <= j < m ==> #[trigger] want[j] == WILDCARD || (if fold_case {
                    lower_code(want[j]) == lower_code(got[j])
                } else {
                    want[j] == got[j]
                })
        },
        first_mismatch(want, got, k, fold_case) is None ==> forall|j: int|
            k <= j < want.len() && j < got.len() ==> #[trigger] want[j] == WILDCARD || (if fold_case {
                lower_code(want[j]) == lower_code(got[j])
            } else {
                want[j] == got[j]
            }),
    decreases want.len() - k,
{
    if k < want.len() && k < got.len() {
        lemma_first_mismatch_from(want, got, k + 1, fold_case);
    }
}

/// The first mismatch of `want` against `got` is the first place, within
/// both, where `want` holds no wildcard and differs from `got` (in ASCII case
/// or not, as `fold_case` says): every place before it agrees or holds a
/// wildcard, and there is none exactly when every place does.
pub proof fn law_first_mismatch_is_first(want: Seq<char>, got: Seq<char>, fold_case: bool)
    ensures
        first_mismatch(want, got, 0, fold_case) matches Some(m) ==> {
            &&& 0 <= m < want.len()
            &&& m < got.len()
            &&& want[m] != WILDCARD
            &&& if fold_case {
                lower_code(want[m]) != lower_code(got[m])
            } else {
                want[m] != got[m]
            }
            &&& forall|j: int|
                0 <= j < m ==> #[trigger] want[j] == WILDCARD || (if fold_case {
                    lower_code(want[j]) == lower_code(got[j])
                } else {
                    want[j] == got[j]
                })
        },
        (first_mismatch(want, got, 0, fold_case) is None) == (forall|j: int|
            0 <= j < want.len() && j < got.len() ==> #[trigger] want[j] == WILDCARD || (if fold_case {
                lower_code(want[j]) == lower_code(got[j])
            } else {
                want[j] == got[j]
            })),
{
    lemma_first_mismatch_from(want, got, 0, fold_case);
    if let Some(m) = first_mismatch(want, got, 0, fold_case) {
        assert(!(want[m] == WILDCARD || (if fold_case {
            lower_code(want[m]) == lower_code(got[m])
        } else {
            want[m] == got[m]
        })));
    }
}

/// Lexicographic order decides at the first place where two sequences
/// differ, and a proper prefix comes first.
pub proof fn law_lex_order_first_difference(a: Seq<u32>, b: Seq<u32>, i: int)
    requires
        0 <= i <= a.len(),
        i <= b.len(),
        a.take(i) == b.take(i),
    ensures
        i < a.len() && i < b.len() && a[i] < b[i] ==> lex_order(a, b) == -1,
        i < a.len() && i < b.len() && a[i] > b[i] ==> lex_order(a, b) == 1,
        i == a.len() && i < b.len() ==> lex_order(a, b) == -1,
        i < a.len() && i == b.len() ==> lex_order(a, b) == 1,
    decreases i,
{
    if i > 0 {
        assert(a[0] == a.take(i)[0] && b[0] == b.take(i)[0]);
        assert(a.drop_first().take(i - 1) =~= a.take(i).drop_first());
        assert(b.drop_first().take(i - 1) =~= b.take(i).drop_first());
        law_lex_order_first_difference(a.drop_first(), b.drop_first(), i - 1);
    }
}

/// The place of the first mismatch of `want` against `got`, as in
/// [`first_mismatch`].
pub fn first_mismatch_exec(want: &Vec<char>, got: &Vec<char>, fold_case: bool) -> (r: Option<usize>)
    ensures
        match r {
            Some(i) => first_mismatch(want@, got@, 0, fold_case) == Some(i as int),
            None => first_mismatch(want@, got@, 0, fold_case) is None,
        },
{
    let mut k: usize = 0;
    while k < want.len() && k < got.len()
        invariant
            k <= want@.len(),
            first_mismatch(want@, got@, 0, fold_case) == first_mismatch(want@, got@, k as int, fold_case),
        decreases want@.len() - k,
    {
        let w = want[k];
        let g = got[k];
        let differs = if fold_case {
            lower_code_exec(w) != lower_code_exec(g)
        } else {
            w != g
        };
        if w != WILDCARD && differs {
            return Some(k);
        }
        k = k + 1;
    }
    None
}

fn digit_str(d: usize) -> (s: &'static str)
    requires
        d < 10,
    ensures
        s@ == seq![digit_char(d as nat)],
{
    let digits = "0123456789";
    proof {
        reveal_strlit("0123456789");
    }
    let s = digits.substring_char(d, d + 1);
    assert(s@ =~= seq![digit_char(d as nat)]);
    s
}

/// Appends the decimal numeral of `n` to `out`.
pub fn push_decimal(out: &mut String, n: usize)
    ensures
        final(out)@ == old(out)@ + decimal(n as nat),
    decreases n,
{
    if n >= 10 {
        push_decimal(out, n / 10);
    }
    let ghost mid = out@;
    out.append(digit_str(n % 10));
    proof {
        if n >= 10 {
            assert(out@ =~= old(out)@ + decimal(n as nat));
        } else {
            assert(out@ =~= old(out)@ + decimal(n as nat));
        }
    }
}

} // verus!
