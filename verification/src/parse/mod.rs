//! The parse module provides routines for parsing the encoded fields of a
//! test vector: [`fields`] holds their grammar; [`input`] and [`response`]
//! read an [`EncodedInput`] and an [`EncodedResponse`] with it.
use vstd::prelude::*;

use crate::parse::fields::{
    parse_encoded_input, parse_encoded_response, spec_encoded_input, spec_encoded_response,
    GrammarError,
};
use crate::parse::scan::ErrorKind;
use crate::input::{EncodedInput, Input};
use crate::response::{EncodedResponse, Response};

pub mod consts;
pub mod fields;
pub mod input_fields;
pub mod response_fields;
pub mod scan;

verus! {

#[verifier::external_type_specification]
#[verifier::external_body]
pub struct ExSpannedError(ron::error::SpannedError);

/// Types of errors that can occur from parsing inputs.
#[derive(Debug)]
pub enum ParseError {
    /// The test vector text is not valid for its Rusty Object Notation type.
    Ron(ron::error::SpannedError),
    /// An encoded field does not follow its grammar.
    Nom(GrammarError),
}

/// What a [`ParseError`] tells: the rest of the field and the failure kind
/// for a grammar failure.
pub enum ParseErrorView {
    Ron,
    Nom(Seq<char>, ErrorKind),
}

impl View for ParseError {
    type V = ParseErrorView;

    open spec fn view(&self) -> ParseErrorView {
        match self {
            ParseError::Ron(_) => ParseErrorView::Ron,
            ParseError::Nom(e) => ParseErrorView::Nom(e.input@, e.code),
        }
    }
}

impl ParseError {
    /// The description of the error.
    pub fn message(&self) -> (r: &'static str)
        ensures
            r@ == match self@ {
                ParseErrorView::Ron => "ron parse error"@,
                ParseErrorView::Nom(_, _) => "nom parse error"@,
            },
    {
        match self {
            Self::Ron(_) => "ron parse error",
            Self::Nom(_) => "nom parse error",
        }
    }
}

impl From<ron::error::SpannedError> for ParseError {
    fn from(err: ron::error::SpannedError) -> (r: Self)
        ensures
            r == ParseError::Ron(err),
    {
        Self::Ron(err)
    }
}

impl vstd::std_specs::convert::FromSpecImpl<ron::error::SpannedError> for ParseError {
    open spec fn obeys_from_spec() -> bool {
        true
    }

    open spec fn from_spec(v: ron::error::SpannedError) -> Self {
        ParseError::Ron(v)
    }
}

impl From<GrammarError> for ParseError {
    fn from(err: GrammarError) -> (r: Self)
        ensures
            r == ParseError::Nom(err),
    {
        Self::Nom(err)
    }
}

impl vstd::std_specs::convert::FromSpecImpl<GrammarError> for ParseError {
    open spec fn obeys_from_spec() -> bool {
        true
    }

    open spec fn from_spec(v: GrammarError) -> Self {
        ParseError::Nom(v)
    }
}

/// The view of a failed grammar step at `q` of `s`.
pub open spec fn grammar_failure(s: Seq<char>, q: int, k: ErrorKind) -> ParseErrorView {
    ParseErrorView::Nom(s.skip(q), k)
}

/// Parses an [`Input`] from the [`EncodedInput`] of a `CommandResponsePair`.
pub fn input(encoded: &EncodedInput) -> (r: Result<Input<'_>, ParseError>)
    ensures
        match spec_encoded_input(encoded@) {
            Ok(_) => r matches Ok(i) && i@ == encoded@ && i.encoded() == encoded,
            Err((q, k)) => r matches Err(e) && e@ == grammar_failure(encoded@, q, k),
        },
{
    let data = match parse_encoded_input(encoded.as_str()) {
        Ok(data) => data,
        Err(e) => return Err(ParseError::Nom(e)),
    };
    Ok(Input::new(encoded, data))
}

/// Parses a [`Response`] from the [`EncodedResponse`] of a
/// `CommandResponsePair`.
pub fn response(input: &EncodedResponse) -> (r: Result<Response<'_>, ParseError>)
    ensures
        match spec_encoded_response(input@) {
            Ok(parts) => r matches Ok(resp) && resp.parts_view() == parts && resp.encoded() == input,
            Err((q, k)) => r matches Err(e) && e@ == grammar_failure(input@, q, k),
        },
{
    let text = input.as_str();
    let n = text.unicode_len();
    let parts = match parse_encoded_response(text) {
        Ok(parts) => parts,
        Err(e) => return Err(ParseError::Nom(e)),
    };
    proof {
        crate::parse::fields::lemma_encoded_response_min_len(text@);
    }
    Ok(Response::new(input, parts))
}

} // verus!
