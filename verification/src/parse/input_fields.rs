//! The grammar of encoded inputs with failures that keep a slice of the
//! input: a run of hexadecimal digits, optionally separated by spaces.
use vstd::prelude::*;

use crate::parse::fields::{recognized, spec_encoded_input};
use crate::parse::scan::{
    chars_of, digit_run, lemma_run_end_bounds, recognized_as, scan_digit_run, Alphabet, ErrorKind,
    ParseFailure,
};

verus! {

/// Parse the hexadecimal digits at the start of `input`, allowing for spaces.
pub fn parse_hexadecimal<'a>(input: &'a str) -> (r: Result<(&'a str, &'a str), ParseFailure<'a>>)
    ensures
        recognized_as(input@, r, 0, digit_run(input@, 0, Alphabet::Hex)),
{
    let s = chars_of(input);
    recognized(input, 0, scan_digit_run(&s, 0, Alphabet::Hex))
}

/// Parse an encoded input; yields the whole input.
pub fn parse_encoded_input<'a>(input: &'a str) -> (r: Result<&'a str, ParseFailure<'a>>)
    ensures
        match spec_encoded_input(input@) {
            Ok(_) => r matches Ok(d) && d@ == input@,
            Err((q, k)) => r matches Err(e) && e.input@ == input@.skip(q) && e.code == k,
        },
{
    proof {
        if input@.len() > 0 {
            lemma_run_end_bounds(input@, 1, Alphabet::Hex);
        }
    }
    match parse_hexadecimal(input) {
        Ok((rest, consumed)) => {
            if rest.unicode_len() == 0 {
                assert(consumed@ =~= input@);
                Ok(consumed)
            } else {
                Err(ParseFailure::new(rest, ErrorKind::Eof))
            }
        },
        Err(e) => Err(e),
    }
}

} // verus!
