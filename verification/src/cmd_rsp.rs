//! Checks of command/response pairs whose expected response comes with a
//! mask of the same length.
use vstd::prelude::*;

use crate::step::{MIN_INPUT_LEN, MIN_RESPONSE_LEN};

verus! {

/// Types of errors for a [`CommandResponseError`].
#[derive(Debug, PartialEq, Eq, Structural)]
pub enum CommandResponseErrorKind {
    InputTooShort,
    ResponseTooShort,
    ResponseMaskLengthDoesNotMatchResponseLength,
}

impl CommandResponseErrorKind {
    /// The description of the error kind.
    pub fn message(&self) -> (r: &'static str)
        ensures
            r@ == match *self {
                CommandResponseErrorKind::InputTooShort => "input too short"@,
                CommandResponseErrorKind::ResponseTooShort => "response too short"@,
                CommandResponseErrorKind::ResponseMaskLengthDoesNotMatchResponseLength =>
                    "response mask length does not match response length"@,
            },
    {
        match self {
            Self::InputTooShort => "input too short",
            Self::ResponseTooShort => "response too short",
            Self::ResponseMaskLengthDoesNotMatchResponseLength => {
                "response mask length does not match response length"
            },
        }
    }
}

/// The error type returned by [`check_command_response_pair`].
#[derive(Debug)]
pub struct CommandResponseError {
    /// The name of the step in error.
    pub step: String,
    /// What is wrong with it.
    pub kind: CommandResponseErrorKind,
}

impl CommandResponseError {
    pub fn new(step: &str, kind: CommandResponseErrorKind) -> (r: Self)
        ensures
            r.step@ == step@,
            r.kind == kind,
    {
        Self { step: step.to_owned(), kind }
    }

    /// The description of the error: the step it is in.
    pub fn message(&self) -> (r: String)
        ensures
            r@ == "error in step \""@ + self.step@ + "\""@,
    {
        let mut r = "error in step \"".to_owned();
        r.append(self.step.as_str());
        r.append("\"");
        r
    }
}

/// A command and the response expected for it, as raw bytes, with a mask
/// for the response that is either empty or of the response's length.
#[derive(Debug)]
pub struct CommandResponsePair {
    /// A descriptive name of the step. This ends up in error messages.
    pub step: String,
    /// The input bytes to send to the TPM.
    pub input: Vec<u8>,
    /// The expected response bytes.
    pub response: Vec<u8>,
    /// The mask of the response bytes to compare; empty for all of them.
    pub response_mask: Vec<u8>,
}

/// The first problem of a pair, in the order input length, response length,
/// mask length.
pub open spec fn spec_check_pair(
    input: Seq<u8>,
    response: Seq<u8>,
    response_mask: Seq<u8>,
) -> Option<CommandResponseErrorKind> {
    if input.len() < MIN_INPUT_LEN {
        Some(CommandResponseErrorKind::InputTooShort)
    } else if response.len() < MIN_RESPONSE_LEN {
        Some(CommandResponseErrorKind::ResponseTooShort)
    } else if response_mask.len() != 0 && response_mask.len() != response.len() {
        Some(CommandResponseErrorKind::ResponseMaskLengthDoesNotMatchResponseLength)
    } else {
        None
    }
}

/// A masked pair is well-formed exactly when input and response hold at
/// least 10 bytes each and the mask is empty or exactly as long as the
/// response; with long enough input and response, a non-empty mask of any
/// other length, longer or shorter, is the error.
pub proof fn law_masked_pair_check(input: Seq<u8>, response: Seq<u8>, response_mask: Seq<u8>)
    ensures
        (spec_check_pair(input, response, response_mask) is None) == (input.len() >= 10
            && response.len() >= 10 && (response_mask.len() == 0 || response_mask.len()
            == response.len())),
        input.len() >= 10 && response.len() >= 10 && response_mask.len() != 0 && response_mask.len()
            != response.len() ==> spec_check_pair(input, response, response_mask) == Some(
            CommandResponseErrorKind::ResponseMaskLengthDoesNotMatchResponseLength,
        ),
{
}

/// check_command_response_pair ensures the `command` is well-formed. Errors
/// returned from this function indicate issues in the authoring of the
/// CommandResponsePair.
pub fn check_command_response_pair(command: &CommandResponsePair) -> (r: Result<(), CommandResponseError>)
    ensures
        match spec_check_pair(command.input@, command.response@, command.response_mask@) {
            None => r is Ok,
            Some(kind) => r matches Err(e) && e.kind == kind && e.step@ == command.step@,
        },
{
    // Ensure input/response are at least the minimum length
    if command.input.len() < MIN_INPUT_LEN {
        return Err(
            CommandResponseError::new(
                command.step.as_str(),
                CommandResponseErrorKind::InputTooShort,
            ),
        );
    }
    if command.response.len() < MIN_RESPONSE_LEN {
        return Err(
            CommandResponseError::new(
                command.step.as_str(),
                CommandResponseErrorKind::ResponseTooShort,
            ),
        );
    }
    // If a response mask is provided, it should have the same length as the
    // response.
    if !command.response_mask.is_empty() && command.response_mask.len() != command.response.len() {
        return Err(
            CommandResponseError::new(
                command.step.as_str(),
                CommandResponseErrorKind::ResponseMaskLengthDoesNotMatchResponseLength,
            ),
        );
    }
    Ok(())
}

} // verus!
