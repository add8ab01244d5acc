//! The steps of a test sequence, and the checks that they are well-formed.
use vstd::prelude::*;

use crate::input::EncodedInput;
use crate::parse::fields::{spec_encoded_input, spec_encoded_response};
use crate::parse::scan::strip_spaces;
use crate::parse::{grammar_failure, ParseError, ParseErrorView};
use crate::response::{sum_min_len, EncodedResponse};
use crate::text::{decimal, push_decimal};

verus! {

/// Minimum size of an input is a command header with no params.
pub const MIN_INPUT_LEN: usize = 10;

/// Minimum size of a response is a response header with no params.
pub const MIN_RESPONSE_LEN: usize = 10;

/// Types of errors for a [`TestStepError`].
#[derive(Debug)]
pub enum TestStepErrorKind {
    ParseInput(Box<ParseError>),
    ParseResponse(Box<ParseError>),
    InputTooShort,
    ResponseTooShort,
    InvalidLocality,
}

/// What a [`TestStepErrorKind`] tells.
pub enum StepErrorKindView {
    ParseInput(ParseErrorView),
    ParseResponse(ParseErrorView),
    InputTooShort,
    ResponseTooShort,
    InvalidLocality,
}

impl View for TestStepErrorKind {
    type V = StepErrorKindView;

    open spec fn view(&self) -> StepErrorKindView {
        match self {
            TestStepErrorKind::ParseInput(e) => StepErrorKindView::ParseInput((**e)@),
            TestStepErrorKind::ParseResponse(e) => StepErrorKindView::ParseResponse((**e)@),
            TestStepErrorKind::InputTooShort => StepErrorKindView::InputTooShort,
            TestStepErrorKind::ResponseTooShort => StepErrorKindView::ResponseTooShort,
            TestStepErrorKind::InvalidLocality => StepErrorKindView::InvalidLocality,
        }
    }
}

impl TestStepErrorKind {
    /// The description of the error kind.
    pub fn message(&self) -> (r: &'static str)
        ensures
            r@ == match self@ {
                StepErrorKindView::ParseInput(_) => "parse input error"@,
                StepErrorKindView::ParseResponse(_) => "parse response error"@,
                StepErrorKindView::InputTooShort => "input too short"@,
                StepErrorKindView::ResponseTooShort => "response too short"@,
                StepErrorKindView::InvalidLocality => "invalid locality"@,
            },
    {
        match self {
            Self::ParseInput(_) => "parse input error",
            Self::ParseResponse(_) => "parse response error",
            Self::InputTooShort => "input too short",
            Self::ResponseTooShort => "response too short",
            Self::InvalidLocality => "invalid locality",
        }
    }
}

/// The error type returned by functions using [`CommandResponsePair`].
#[derive(Debug)]
pub struct TestStepError {
    /// The name of the step in error.
    pub step: String,
    /// What is wrong with it.
    pub kind: TestStepErrorKind,
}

impl View for TestStepError {
    type V = (Seq<char>, StepErrorKindView);

    open spec fn view(&self) -> (Seq<char>, StepErrorKindView) {
        (self.step@, self.kind@)
    }
}

/// The outcome of a check, with the error by its view.
pub open spec fn check_outcome(r: Result<(), TestStepError>) -> Result<(), (Seq<char>, StepErrorKindView)> {
    match r {
        Ok(()) => Ok(()),
        Err(e) => Err(e@),
    }
}

impl TestStepError {
    pub fn new(step: &str, kind: TestStepErrorKind) -> (r: Self)
        ensures
            r.step@ == step@,
            r.kind == kind,
    {
        Self { step: step.to_owned(), kind }
    }

    /// The description of the error: the step it is in.
    pub fn message(&self) -> (r: String)
        ensures
            r@ == "error in step \""@ + self.step@ + "\""@,
    {
        let mut r = "error in step \"".to_owned();
        r.append(self.step.as_str());
        r.append("\"");
        r
    }
}

/// A CommandResponsePair represents a single round-trip of bytes sent between
/// the client and the TPM.
#[derive(Debug)]
pub struct CommandResponsePair {
    /// A descriptive name of the step to perform. This ends up in error
    /// messages.
    pub step: String,
    /// The input bytes to send to the TPM, in the encoded input format.
    pub input: EncodedInput,
    /// The expected response bytes received from the TPM, in the encoded
    /// response format.
    pub response: EncodedResponse,
}

/// A well-formed command/response pair: both fields follow their grammar,
/// the input holds at least a command header and the response needs at least
/// a response header. The first problem found, in that order, is the error.
pub open spec fn spec_pair_check(step: Seq<char>, input: Seq<char>, response: Seq<char>) -> Result<(), (Seq<char>, StepErrorKindView)> {
    match spec_encoded_input(input) {
        Err((q, k)) => Err((step, StepErrorKindView::ParseInput(grammar_failure(input, q, k)))),
        Ok(_) => match spec_encoded_response(response) {
            Err((q, k)) => Err(
                (step, StepErrorKindView::ParseResponse(grammar_failure(response, q, k))),
            ),
            Ok(parts) => if strip_spaces(input).len() / 2 < MIN_INPUT_LEN {
                Err((step, StepErrorKindView::InputTooShort))
            } else if sum_min_len(parts) < MIN_RESPONSE_LEN {
                Err((step, StepErrorKindView::ResponseTooShort))
            } else {
                Ok(())
            },
        },
    }
}

impl CommandResponsePair {
    /// check ensures the CommandResponsePair is well-formed. Errors returned
    /// from this function indicate issues in the authoring of the
    /// CommandResponsePair.
    pub fn check(&self) -> (r: Result<(), TestStepError>)
        ensures
            check_outcome(r) == spec_pair_check(self.step@, self.input@, self.response@),
    {
        // Ensure encoded fields parse correctly.
        let input = match crate::parse::input(&self.input) {
            Ok(input) => input,
            Err(e) => {
                return Err(
                    TestStepError::new(
                        self.step.as_str(),
                        TestStepErrorKind::ParseInput(Box::new(e)),
                    ),
                );
            },
        };
        let response = match crate::parse::response(&self.response) {
            Ok(response) => response,
            Err(e) => {
                return Err(
                    TestStepError::new(
                        self.step.as_str(),
                        TestStepErrorKind::ParseResponse(Box::new(e)),
                    ),
                );
            },
        };

        // Ensure input/response are at least the minimum length
        if input.len() < MIN_INPUT_LEN {
            return Err(TestStepError::new(self.step.as_str(), TestStepErrorKind::InputTooShort));
        }
        if response.min_len() < MIN_RESPONSE_LEN {
            return Err(
                TestStepError::new(self.step.as_str(), TestStepErrorKind::ResponseTooShort),
            );
        }
        Ok(())
    }
}

/// A well-formed pair sends at least a 10-byte command header (20 digits)
/// and expects at least a 10-byte response header; a pair whose fields
/// follow their grammar but whose input is shorter fails with
/// `InputTooShort`, and one whose input is long enough but whose response
/// needs fewer bytes fails with `ResponseTooShort`.
pub proof fn law_pair_check_needs_headers(step: Seq<char>, input: Seq<char>, response: Seq<char>)
    ensures
        spec_pair_check(step, input, response) is Ok ==> strip_spaces(input).len() >= 20 && (
        spec_encoded_response(response) matches Ok(parts) && sum_min_len(parts) >= 10),
        spec_encoded_input(input) is Ok && spec_encoded_response(response) is Ok
            && strip_spaces(input).len() < 20 ==> spec_pair_check(step, input, response)
            == Err::<(), (Seq<char>, StepErrorKindView)>((step, StepErrorKindView::InputTooShort)),
        spec_encoded_input(input) is Ok && strip_spaces(input).len() >= 20 ==> (spec_encoded_response(
            response,
        ) matches Ok(parts) && sum_min_len(parts) < 10 ==> spec_pair_check(step, input, response)
            == Err::<(), (Seq<char>, StepErrorKindView)>((step, StepErrorKindView::ResponseTooShort))),
{
}

/// A locality represents the locality to issue TPM commands at.
#[derive(Debug)]
pub struct Locality(pub u8);

/// The name of the step that sets locality `n`.
pub open spec fn locality_step_name(n: u8) -> Seq<char> {
    "SetLocality "@ + decimal(n as nat)
}

/// Localities 5 to 31 are reserved; the others can be set.
pub open spec fn spec_locality_check(n: u8) -> Result<(), (Seq<char>, StepErrorKindView)> {
    if 4 < n && n < 32 {
        Err((locality_step_name(n), StepErrorKindView::InvalidLocality))
    } else {
        Ok(())
    }
}

fn locality_name(n: u8) -> (r: String)
    ensures
        r@ == locality_step_name(n),
{
    let mut r = "SetLocality ".to_owned();
    push_decimal(&mut r, n as usize);
    r
}

impl Locality {
    /// check ensures the Locality is well-formed. Errors returned from this
    /// function indicate issues in the authoring of the Locality.
    pub fn check(&self) -> (r: Result<(), TestStepError>)
        ensures
            check_outcome(r) == spec_locality_check(self.0),
    {
        if self.0 > 4 && self.0 < 32 {
            let name = locality_name(self.0);
            return Err(TestStepError::new(name.as_str(), TestStepErrorKind::InvalidLocality));
        }
        Ok(())
    }
}

/// Types of steps in a test sequence.
#[derive(Debug)]
pub enum TestStep {
    /// Send a command to the TPM and check its response.
    SendCommand(CommandResponsePair),
    /// Cause the TPM to enter failure mode.
    EnterFailureMode,
    /// Set the locality for subsequent commands.
    SetLocality(Locality),
}

/// The check of a step: that of its pair or locality; entering failure mode
/// is always well-formed.
pub open spec fn spec_step_check(s: TestStep) -> Result<(), (Seq<char>, StepErrorKindView)> {
    match s {
        TestStep::SendCommand(cmd) => spec_pair_check(cmd.step@, cmd.input@, cmd.response@),
        TestStep::EnterFailureMode => Ok(()),
        TestStep::SetLocality(locality) => spec_locality_check(locality.0),
    }
}

/// The name of a step, as used in diagnostics.
pub open spec fn spec_step_name(s: TestStep) -> Seq<char> {
    match s {
        TestStep::SendCommand(cmd) => cmd.step@,
        TestStep::EnterFailureMode => "EnterFailureMode"@,
        TestStep::SetLocality(locality) => locality_step_name(locality.0),
    }
}

impl TestStep {
    /// check ensures the TestStep is well-formed. Errors returned from this
    /// function indicate issues in the authoring of the TestStep.
    pub fn check(&self) -> (r: Result<(), TestStepError>)
        ensures
            check_outcome(r) == spec_step_check(*self),
    {
        match self {
            Self::SendCommand(cmd) => cmd.check(),
            Self::EnterFailureMode => Ok(()),
            Self::SetLocality(locality) => locality.check(),
        }
    }

    /// name returns the name of the TestStep, useful for diagnostics.
    pub fn name(&self) -> (r: String)
        ensures
            r@ == spec_step_name(*self),
    {
        match self {
            Self::SendCommand(cmd) => cmd.step.clone(),
            Self::EnterFailureMode => "EnterFailureMode".to_owned(),
            Self::SetLocality(locality) => locality_name(locality.0),
        }
    }
}

} // verus!
