//! An input is an encoded string describing the bytes to send to a TPM.
use vstd::prelude::*;

use vstd::string::StringSliceAdditionalSpecFns;

use crate::parse::consts::SPACE;
use crate::parse::fields::spec_encoded_input;
use crate::parse::scan::{
    in_alphabet, is_hex_digit, lemma_strip_no_spaces, run_end, strip_spaces, Alphabet,
};
use crate::parse::{grammar_failure, ParseError, ParseErrorView};
use crate::response::{
    hex_encoding, lemma_hex_encoding_ascii, lemma_hex_encoding_digits, lemma_hex_encoding_index,
    lower_hex_digit,
};
use crate::text::without_spaces;

verus! {

/// The error of decoding hexadecimal text into bytes.
#[derive(Clone, Copy, Debug, PartialEq, Eq, Structural)]
pub enum HexDecodeError {
    /// A byte that is no hexadecimal digit, taken as a character, at its
    /// byte index.
    InvalidHexCharacter { c: char, index: usize },
    /// The text has an odd number of bytes.
    OddLength,
    /// The text does not fit a container of fixed size.
    InvalidStringLength,
}

/// The value of an ASCII hexadecimal digit byte.
pub open spec fn hex_byte_value(b: u8) -> Option<nat> {
    if 65 <= b <= 70 {
        Some((b - 65 + 10) as nat)
    } else if 97 <= b <= 102 {
        Some((b - 97 + 10) as nat)
    } else if 48 <= b <= 57 {
        Some((b - 48) as nat)
    } else {
        None
    }
}

/// The index of the first byte from `k` on that is no hexadecimal digit.
pub open spec fn first_non_hex_byte(h: Seq<u8>, k: int) -> Option<int>
    decreases h.len() - k,
{
    if k < 0 || k >= h.len() {
        None
    } else if hex_byte_value(h[k]) is None {
        Some(k)
    } else {
        first_non_hex_byte(h, k + 1)
    }
}

/// Hexadecimal text (as bytes) decoded into bytes: an odd length fails,
/// then the first byte that is no digit fails; otherwise each pair of
/// digits, high first, makes one byte.
pub open spec fn hex_decoding(h: Seq<u8>) -> Result<Seq<u8>, HexDecodeError> {
    if h.len() % 2 != 0 {
        Err(HexDecodeError::OddLength)
    } else {
        match first_non_hex_byte(h, 0) {
            Some(k) => Err(HexDecodeError::InvalidHexCharacter { c: h[k] as char, index: k as usize }),
            None => Ok(
                Seq::new(
                    (h.len() / 2) as nat,
                    |i: int|
                        (16 * hex_byte_value(h[2 * i]).unwrap() + hex_byte_value(
                            h[2 * i + 1],
                        ).unwrap()) as u8,
                ),
            ),
        }
    }
}

/// Calls `hex::decode` on the bytes of `s`: it fails with `OddLength` on an
/// odd number of bytes, else with `InvalidHexCharacter` at the first byte
/// that is no hexadecimal digit (either case), else yields one byte per
/// pair of digits, high digit first. Its error enum is told apart variant by
/// variant.
#[verifier::external_body]
fn hex_decode(s: &str) -> (r: Result<Vec<u8>, HexDecodeError>)
    ensures
        match hex_decoding(s.spec_bytes()) {
            Ok(b) => r matches Ok(v) && v@ == b,
            Err(e) => r == Err::<Vec<u8>, HexDecodeError>(e),
        },
{
    match hex::decode(s) {
        Ok(v) => Ok(v),
        Err(hex::FromHexError::InvalidHexCharacter { c, index }) => Err(
            HexDecodeError::InvalidHexCharacter { c, index },
        ),
        Err(hex::FromHexError::OddLength) => Err(HexDecodeError::OddLength),
        Err(hex::FromHexError::InvalidStringLength) => Err(HexDecodeError::InvalidStringLength),
    }
}

/// Errors returned from evaluating an input.
#[derive(Debug)]
pub enum InputEvaluationError {
    /// Parse Error
    Parse(ParseError),
    /// From Hex Error
    FromHex(HexDecodeError),
}

impl InputEvaluationError {
    /// The description of the error.
    pub fn message(&self) -> (r: &'static str)
        ensures
            r@ == match self@ {
                InputErrorView::Parse(_) => "error parsing encoded input"@,
                InputErrorView::FromHex(_) => "error converting input to bytes"@,
            },
    {
        match self {
            Self::Parse(_) => "error parsing encoded input",
            Self::FromHex(_) => "error converting input to bytes",
        }
    }
}

/// What an [`InputEvaluationError`] tells.
pub enum InputErrorView {
    Parse(ParseErrorView),
    FromHex(HexDecodeError),
}

impl View for InputEvaluationError {
    type V = InputErrorView;

    open spec fn view(&self) -> InputErrorView {
        match self {
            InputEvaluationError::Parse(e) => InputErrorView::Parse(e@),
            InputEvaluationError::FromHex(e) => InputErrorView::FromHex(*e),
        }
    }
}

/// The bytes an input text stands for: its characters other than spaces,
/// decoded as hexadecimal.
pub open spec fn input_bytes(data: Seq<char>) -> Result<Seq<u8>, InputErrorView> {
    match hex_decoding(vstd::utf8::encode_utf8(strip_spaces(data))) {
        Ok(b) => Ok(b),
        Err(e) => Err(InputErrorView::FromHex(e)),
    }
}

/// The outcome of an input evaluation, with the error by its view.
pub open spec fn bytes_outcome(r: Result<Vec<u8>, InputEvaluationError>) -> Result<Seq<u8>, InputErrorView> {
    match r {
        Ok(v) => Ok(v@),
        Err(e) => Err(e@),
    }
}

/// An EncodedInput represents the data to send to the TPM in a compact format
/// useful for writing test vectors. Typically, this gets used with the
/// [`Input`] struct to send the actual data to the TPM.
#[derive(Debug, Default)]
pub struct EncodedInput(String);

impl View for EncodedInput {
    type V = Seq<char>;

    closed spec fn view(&self) -> Seq<char> {
        self.0@
    }
}

impl EncodedInput {
    /// The encoded text.
    pub fn as_str(&self) -> (r: &str)
        ensures
            r@ == self@,
    {
        self.0.as_str()
    }
}

impl AsRef<str> for EncodedInput {
    fn as_ref(&self) -> (r: &str)
        ensures
            r@ == self@,
    {
        self.0.as_str()
    }
}

impl From<String> for EncodedInput {
    fn from(s: String) -> (r: Self)
        ensures
            r@ == s@,
    {
        Self(s)
    }
}

impl vstd::std_specs::convert::FromSpecImpl<String> for EncodedInput {
    open spec fn obeys_from_spec() -> bool {
        true
    }

    closed spec fn from_spec(v: String) -> Self {
        EncodedInput(v)
    }
}

impl<'s> From<&'s str> for EncodedInput {
    fn from(s: &'s str) -> (r: Self)
        ensures
            r@ == s@,
    {
        Self(s.to_owned())
    }
}

/// No spec function can make a `String` from a `&str`, so this conversion
/// is told by the `ensures` of its `from` alone.
impl<'s> vstd::std_specs::convert::FromSpecImpl<&'s str> for EncodedInput {
    open spec fn obeys_from_spec() -> bool {
        false
    }

    open spec fn from_spec(v: &'s str) -> Self {
        arbitrary()
    }
}

/// An Input represents the data to send to the TPM.
#[derive(Debug)]
pub struct Input<'a> {
    /// The encoded format this input is constructed from, owned for lifetime
    /// referencing the data.
    _encoded: &'a EncodedInput,
    /// The data to send to the TPM with spaces.
    data: &'a str,
}

impl<'a> View for Input<'a> {
    type V = Seq<char>;

    /// The data, spaces included.
    closed spec fn view(&self) -> Seq<char> {
        self.data@
    }
}

impl<'a> Input<'a> {
    /// The encoded input this input refers to.
    pub closed spec fn encoded(self) -> &'a EncodedInput {
        self._encoded
    }

    /// Create a new Input.
    pub fn new(encoded: &'a EncodedInput, data: &'a str) -> (r: Self)
        ensures
            r@ == data@,
            r.encoded() == encoded,
    {
        Self { _encoded: encoded, data }
    }

    /// Returns the length of the input in bytes, excluding spaces: half the
    /// number of its other characters.
    pub fn len(&self) -> (r: usize)
        ensures
            r == strip_spaces(self@).len() / 2,
    {
        let n = self.data.unicode_len();
        let mut count: usize = 0;
        let mut i: usize = 0;
        while i < n
            invariant
                n == self.data@.len(),
                i <= n,
                count == strip_spaces(self.data@.take(i as int)).len(),
                count <= i,
            decreases n - i,
        {
            assert(self.data@.take(i + 1).drop_last() =~= self.data@.take(i as int));
            if self.data.get_char(i) != SPACE {
                count = count + 1;
            }
            i = i + 1;
        }
        assert(self.data@.take(n as int) =~= self.data@);
        count / 2
    }

    /// Returns whether the input is empty.
    pub fn is_empty(&self) -> (r: bool)
        ensures
            r == (strip_spaces(self@).len() / 2 == 0),
    {
        self.len() == 0
    }

    /// Returns the bytes to send to the TPM.
    pub fn to_bytes(&self) -> (r: Result<Vec<u8>, InputEvaluationError>)
        ensures
            bytes_outcome(r) == input_bytes(self@),
    {
        let digits = without_spaces(self.data);
        match hex_decode(digits.as_str()) {
            Ok(v) => Ok(v),
            Err(e) => Err(InputEvaluationError::FromHex(e)),
        }
    }

    /// Convenience function to construct an Input and get the bytes to send to
    /// the TPM.
    pub fn to_tpm_bytes(encoded: &EncodedInput) -> (r: Result<Vec<u8>, InputEvaluationError>)
        ensures
            bytes_outcome(r) == match spec_encoded_input(encoded@) {
                Err((q, k)) => Err(InputErrorView::Parse(grammar_failure(encoded@, q, k))),
                Ok(_) => input_bytes(encoded@),
            },
    {
        let input = match crate::parse::input(encoded) {
            Ok(input) => input,
            Err(e) => return Err(InputEvaluationError::Parse(e)),
        };
        input.to_bytes()
    }
}

} // verus!

verus! {

proof fn lemma_lower_hex_digit_value(d: nat)
    requires
        d < 16,
    ensures
        hex_byte_value(lower_hex_digit(d) as u8) == Some(d),
        lower_hex_digit(d) as u8 as char == lower_hex_digit(d),
        '\0' <= lower_hex_digit(d) <= '\u{7f}',
{
}

proof fn lemma_first_non_hex_byte_none(h: Seq<u8>, k: int)
    requires
        0 <= k,
        forall|j: int| k <= j < h.len() ==> #[trigger] hex_byte_value(h[j]) is Some,
    ensures
        first_non_hex_byte(h, k) is None,
    decreases h.len() - k,
{
    if k < h.len() {
        lemma_first_non_hex_byte_none(h, k + 1);
    }
}

/// Hexadecimal digits of some bytes, read as an input, give back those
/// bytes.
pub proof fn law_hex_round_trip(data: Seq<u8>)
    ensures
        input_bytes(hex_encoding(data)) == Ok::<Seq<u8>, InputErrorView>(data),
{
    let h = hex_encoding(data);
    lemma_hex_encoding_ascii(data);
    lemma_hex_encoding_digits(data);
    assert forall|j: int| 0 <= j < h.len() implies #[trigger] h[j] != SPACE by {
        assert(is_hex_digit(h[j]));
    }
    lemma_strip_no_spaces(h);
    let b = vstd::utf8::encode_utf8(h);
    vstd::utf8::is_ascii_chars_encode_utf8(h);
    assert forall|j: int| 0 <= j < b.len() implies #[trigger] hex_byte_value(b[j]) is Some by {
        lemma_hex_encoding_index(data, j / 2);
        assert(b[j] == h[j] as u8);
        if j % 2 == 0 {
            assert(j == 2 * (j / 2));
            lemma_lower_hex_digit_value(data[j / 2] as nat / 16);
        } else {
            assert(j == 2 * (j / 2) + 1);
            lemma_lower_hex_digit_value(data[j / 2] as nat % 16);
        }
    }
    lemma_first_non_hex_byte_none(b, 0);
    let decoded = Seq::new(
        (b.len() / 2) as nat,
        |i: int| (16 * hex_byte_value(b[2 * i]).unwrap() + hex_byte_value(b[2 * i + 1]).unwrap()) as u8,
    );
    assert forall|i: int| 0 <= i < data.len() implies #[trigger] decoded[i] == data[i] by {
        lemma_hex_encoding_index(data, i);
        assert(b[2 * i] == h[2 * i] as u8);
        assert(b[2 * i + 1] == h[2 * i + 1] as u8);
        lemma_lower_hex_digit_value(data[i] as nat / 16);
        lemma_lower_hex_digit_value(data[i] as nat % 16);
    }
    assert(decoded =~= data);
}

proof fn lemma_run_end_covers(s: Seq<char>, i: int, a: Alphabet)
    requires
        0 <= i <= s.len(),
        run_end(s, i, a) == s.len(),
    ensures
        forall|j: int| i <= j < s.len() ==> #[trigger] s[j] == SPACE || in_alphabet(a, s[j]),
    decreases s.len() - i,
{
    if i < s.len() {
        lemma_run_end_covers(s, i + 1, a);
    }
}

proof fn lemma_strip_keeps(s: Seq<char>)
    requires
        forall|j: int| 0 <= j < s.len() ==> #[trigger] s[j] == SPACE || is_hex_digit(s[j]),
    ensures
        forall|j: int| 0 <= j < strip_spaces(s).len() ==> is_hex_digit(#[trigger] strip_spaces(s)[j]),
    decreases s.len(),
{
    if s.len() > 0 {
        let t = s.drop_last();
        assert forall|j: int| 0 <= j < t.len() implies #[trigger] t[j] == SPACE || is_hex_digit(t[j]) by {
            assert(t[j] == s[j]);
        }
        lemma_strip_keeps(t);
        let u = strip_spaces(s);
        let v = strip_spaces(t);
        assert forall|j: int| 0 <= j < u.len() implies is_hex_digit(#[trigger] u[j]) by {
            if s.last() != SPACE {
                if j < v.len() {
                    assert(u[j] == v[j]);
                } else {
                    assert(u[j] == s.last());
                }
            } else {
                assert(u[j] == v[j]);
            }
        }
    }
}

/// An input that follows the grammar stands for bytes exactly when it holds
/// an even number of digits, and then for as many bytes as its length.
pub proof fn law_parsed_input_bytes(s: Seq<char>)
    requires
        spec_encoded_input(s) is Ok,
    ensures
        (input_bytes(s) is Ok) == (strip_spaces(s).len() % 2 == 0),
        input_bytes(s) matches Ok(b) ==> b.len() == strip_spaces(s).len() / 2,
{
    lemma_run_end_covers(s, 1, Alphabet::Hex);
    assert forall|j: int| 0 <= j < s.len() implies #[trigger] s[j] == SPACE || is_hex_digit(s[j]) by {
        if j >= 1 {
            assert(in_alphabet(Alphabet::Hex, s[j]) == is_hex_digit(s[j]));
        }
    }
    lemma_strip_keeps(s);
    let t = strip_spaces(s);
    assert(vstd::utf8::is_ascii_chars(t)) by {
        assert forall|j| 0 <= j < t.len() implies '\0' <= #[trigger] t[j] <= '\u{7f}' by {
            assert(is_hex_digit(t[j]));
        }
    }
    vstd::utf8::is_ascii_chars_encode_utf8(t);
    let b = vstd::utf8::encode_utf8(t);
    assert forall|j: int| 0 <= j < b.len() implies #[trigger] hex_byte_value(b[j]) is Some by {
        assert(b[j] == t[j] as u8);
        assert(is_hex_digit(t[j]));
    }
    lemma_first_non_hex_byte_none(b, 0);
}

} // verus!
