//! Test steps whose command input is given as raw bytes rather than in the
//! encoded input format, and the checks that they are well-formed.
use vstd::prelude::*;

use crate::response::EncodedResponse;
use crate::step::{locality_step_name, MIN_INPUT_LEN, MIN_RESPONSE_LEN};
use crate::text::push_decimal;

verus! {

/// Types of errors for a [`TestStepError`].
#[derive(Debug, PartialEq, Eq, Structural)]
pub enum TestStepErrorKind {
    InputTooShort,
    ResponseTooShort,
    ResponseMaskLengthDoesNotMatchResponseLength,
    InvalidLocality,
}

impl TestStepErrorKind {
    /// The description of the error kind.
    pub fn message(&self) -> (r: &'static str)
        ensures
            r@ == match *self {
                TestStepErrorKind::InputTooShort => "input too short"@,
                TestStepErrorKind::ResponseTooShort => "response too short"@,
                TestStepErrorKind::ResponseMaskLengthDoesNotMatchResponseLength =>
                    "response mask length does not match response length"@,
                TestStepErrorKind::InvalidLocality => "invalid locality"@,
            },
    {
        match self {
            Self::InputTooShort => "input too short",
            Self::ResponseTooShort => "response too short",
            Self::ResponseMaskLengthDoesNotMatchResponseLength => {
                "response mask length does not match response length"
            },
            Self::InvalidLocality => "invalid locality",
        }
    }
}

/// The error type returned by functions using [`CommandResponsePair`].
#[derive(Debug)]
pub struct TestStepError {
    /// The name of the step in error.
    pub step: String,
    /// What is wrong with it.
    pub kind: TestStepErrorKind,
}

impl TestStepError {
    pub fn new(step: &str, kind: TestStepErrorKind) -> (r: Self)
        ensures
            r.step@ == step@,
            r.kind == kind,
    {
        Self { step: step.to_owned(), kind }
    }

    /// The description of the error: the step it is in.
    pub fn message(&self) -> (r: String)
        ensures
            r@ == "error in step \""@ + self.step@ + "\""@,
    {
        let mut r = "error in step \"".to_owned();
        r.append(self.step.as_str());
        r.append("\"");
        r
    }
}

/// The outcome of a check: `None` when well-formed, else the error's step
/// name and kind.
pub open spec fn raw_check_outcome(r: Result<(), TestStepError>) -> Option<(Seq<char>, TestStepErrorKind)> {
    match r {
        Ok(()) => None,
        Err(e) => Some((e.step@, e.kind)),
    }
}

/// A CommandResponsePair represents a single round-trip of bytes sent between
/// the client and the TPM.
#[derive(Debug)]
pub struct CommandResponsePair {
    /// A descriptive name of the step to perform. This ends up in error
    /// messages.
    pub step: String,
    /// The input bytes to send to the TPM.
    pub input: Vec<u8>,
    /// The expected response bytes received from the TPM, encoded.
    pub response: EncodedResponse,
}

/// A well-formed pair has at least a command header of input and at least
/// as many bytes (UTF-8) of encoded response.
pub open spec fn spec_raw_pair_check(step: Seq<char>, input: Seq<u8>, response: Seq<char>) -> Option<(Seq<char>, TestStepErrorKind)> {
    if input.len() < MIN_INPUT_LEN {
        Some((step, TestStepErrorKind::InputTooShort))
    } else if vstd::utf8::encode_utf8(response).len() < MIN_RESPONSE_LEN {
        Some((step, TestStepErrorKind::ResponseTooShort))
    } else {
        None
    }
}

impl CommandResponsePair {
    /// check ensures the CommandResponsePair is well-formed. Errors returned
    /// from this function indicate issues in the authoring of the
    /// CommandResponsePair.
    pub fn check(&self) -> (r: Result<(), TestStepError>)
        ensures
            raw_check_outcome(r) == spec_raw_pair_check(self.step@, self.input@, self.response@),
    {
        // Ensure input/response are at least the minimum length
        if self.input.len() < MIN_INPUT_LEN {
            return Err(TestStepError::new(self.step.as_str(), TestStepErrorKind::InputTooShort));
        }
        if self.response.as_str().as_bytes().len() < MIN_RESPONSE_LEN {
            return Err(
                TestStepError::new(self.step.as_str(), TestStepErrorKind::ResponseTooShort),
            );
        }
        Ok(())
    }
}

/// A locality represents the locality to issue TPM commands at.
#[derive(Debug)]
pub struct Locality(pub u8);

pub open spec fn spec_raw_locality_check(n: u8) -> Option<(Seq<char>, TestStepErrorKind)> {
    if 4 < n && n < 32 {
        Some((locality_step_name(n), TestStepErrorKind::InvalidLocality))
    } else {
        None
    }
}

impl Locality {
    /// check ensures the Locality is well-formed. Errors returned from this
    /// function indicate issues in the authoring of the Locality.
    pub fn check(&self) -> (r: Result<(), TestStepError>)
        ensures
            raw_check_outcome(r) == spec_raw_locality_check(self.0),
    {
        if self.0 > 4 && self.0 < 32 {
            let mut name = "SetLocality ".to_owned();
            push_decimal(&mut name, self.0 as usize);
            return Err(TestStepError::new(name.as_str(), TestStepErrorKind::InvalidLocality));
        }
        Ok(())
    }
}

/// Types of steps in a test sequence.
#[derive(Debug)]
pub enum TestStep {
    /// Send a command to the TPM and check its response.
    SendCommand(CommandResponsePair),
    /// Cause the TPM to enter failure mode.
    EnterFailureMode,
    /// Set the locality for subsequent commands.
    SetLocality(Locality),
}

pub open spec fn spec_raw_step_check(s: TestStep) -> Option<(Seq<char>, TestStepErrorKind)> {
    match s {
        TestStep::SendCommand(pair) => spec_raw_pair_check(pair.step@, pair.input@, pair.response@),
        TestStep::EnterFailureMode => None,
        TestStep::SetLocality(locality) => spec_raw_locality_check(locality.0),
    }
}

impl TestStep {
    /// check ensures the TestStep is well-formed. Errors returned from this
    /// function indicate issues in the authoring of the TestStep.
    pub fn check(&self) -> (r: Result<(), TestStepError>)
        ensures
            raw_check_outcome(r) == spec_raw_step_check(*self),
    {
        match self {
            Self::SendCommand(pair) => pair.check(),
            Self::EnterFailureMode => Ok(()),
            Self::SetLocality(locality) => locality.check(),
        }
    }
}

} // verus!
