//! The runner module provides common logic to run a test vector against a
//! harness implementation.
use vstd::prelude::*;

use crate::harness::{Harness, HarnessError};
use crate::input::{input_bytes, Input, InputErrorView, InputEvaluationError};
use crate::parse::fields::spec_encoded_response;
use crate::parse::{grammar_failure, ParseError};
use crate::response::{
    hex_encoding, spec_response_check, sum_min_len, EvaluationErrorView, Response,
    ResponseEvaluationError,
};
use crate::step::{spec_step_check, spec_step_name, TestStep, TestStepError};
use crate::TpmTestVector;

verus! {

/// Size of the buffer that receives a TPM response.
pub const RESPONSE_BUFFER_SIZE: usize = 4096;

/// Types of errors that can be returned by running a test vector.
#[derive(Debug)]
pub enum TestErrorKind {
    ParseError(ParseError),
    TestStepError(TestStepError),
    InputEvaluationError(InputEvaluationError),
    HarnessError(HarnessError),
    ResponseEvaluationError(ResponseEvaluationError),
}

impl From<ParseError> for TestErrorKind {
    fn from(err: ParseError) -> (r: Self)
        ensures
            r == TestErrorKind::ParseError(err),
    {
        Self::ParseError(err)
    }
}

impl vstd::std_specs::convert::FromSpecImpl<ParseError> for TestErrorKind {
    open spec fn obeys_from_spec() -> bool {
        true
    }

    open spec fn from_spec(v: ParseError) -> Self {
        TestErrorKind::ParseError(v)
    }
}

impl From<TestStepError> for TestErrorKind {
    fn from(err: TestStepError) -> (r: Self)
        ensures
            r == TestErrorKind::TestStepError(err),
    {
        Self::TestStepError(err)
    }
}

impl vstd::std_specs::convert::FromSpecImpl<TestStepError> for TestErrorKind {
    open spec fn obeys_from_spec() -> bool {
        true
    }

    open spec fn from_spec(v: TestStepError) -> Self {
        TestErrorKind::TestStepError(v)
    }
}

impl From<InputEvaluationError> for TestErrorKind {
    fn from(err: InputEvaluationError) -> (r: Self)
        ensures
            r == TestErrorKind::InputEvaluationError(err),
    {
        Self::InputEvaluationError(err)
    }
}

impl vstd::std_specs::convert::FromSpecImpl<InputEvaluationError> for TestErrorKind {
    open spec fn obeys_from_spec() -> bool {
        true
    }

    open spec fn from_spec(v: InputEvaluationError) -> Self {
        TestErrorKind::InputEvaluationError(v)
    }
}

impl From<HarnessError> for TestErrorKind {
    fn from(err: HarnessError) -> (r: Self)
        ensures
            r == TestErrorKind::HarnessError(err),
    {
        Self::HarnessError(err)
    }
}

impl vstd::std_specs::convert::FromSpecImpl<HarnessError> for TestErrorKind {
    open spec fn obeys_from_spec() -> bool {
        true
    }

    open spec fn from_spec(v: HarnessError) -> Self {
        TestErrorKind::HarnessError(v)
    }
}

impl From<ResponseEvaluationError> for TestErrorKind {
    fn from(err: ResponseEvaluationError) -> (r: Self)
        ensures
            r == TestErrorKind::ResponseEvaluationError(err),
    {
        Self::ResponseEvaluationError(err)
    }
}

impl vstd::std_specs::convert::FromSpecImpl<ResponseEvaluationError> for TestErrorKind {
    open spec fn obeys_from_spec() -> bool {
        true
    }

    open spec fn from_spec(v: ResponseEvaluationError) -> Self {
        TestErrorKind::ResponseEvaluationError(v)
    }
}

/// The error type returned by the [`run_test_vector`] function.
#[derive(Debug)]
pub struct TestError {
    /// Name of the test that failed.
    pub name: String,
    /// Step within the test that failed. May be empty.
    pub step: Option<String>,
    /// Details about the failure that occurred.
    pub kind: TestErrorKind,
}

impl TestError {
    pub fn new(name: String, step: Option<String>, kind: TestErrorKind) -> (r: Self)
        ensures
            r.name == name,
            r.step == step,
            r.kind == kind,
    {
        Self { name, step, kind }
    }

    /// The message naming the test (`unknown` when unnamed) and the step that
    /// failed.
    pub fn message(&self) -> (r: String)
        ensures
            r@ == "\nError in test \""@ + (if self.name@.len() == 0 {
                "unknown"@
            } else {
                self.name@
            }) + "\""@ + match self.step {
                Some(step) => "\n      in step \""@ + step@ + "\""@,
                None => Seq::empty(),
            },
    {
        let mut r = "\nError in test \"".to_owned();
        if self.name.as_str().unicode_len() == 0 {
            r.append("unknown");
        } else {
            r.append(self.name.as_str());
        }
        r.append("\"");
        match &self.step {
            Some(step) => {
                r.append("\n      in step \"");
                r.append(step.as_str());
                r.append("\"");
            },
            None => {
                assert(r@ =~= r@ + Seq::<char>::empty());
            },
        }
        r
    }
}

/// The outcome of evaluating the encoded response `encoded` against the
/// actual `data`, as [`Response::evaluate`] gives it.
pub open spec fn evaluation_spec(encoded: Seq<char>, data: Seq<u8>) -> Result<(), EvaluationErrorView> {
    match spec_encoded_response(encoded) {
        Err((q, k)) => Err(EvaluationErrorView::Parse(grammar_failure(encoded, q, k))),
        Ok(parts) => spec_response_check(parts, sum_min_len(parts) as int, hex_encoding(data)),
    }
}

/// Whether a step passed, the TPM having answered `response` if it is a
/// command: the step is well-formed, and a command's input decodes and its
/// expected response matches what came back.
pub open spec fn step_passes(s: TestStep, response: Seq<u8>) -> bool {
    &&& spec_step_check(s) is Ok
    &&& s matches TestStep::SendCommand(cmd) ==> input_bytes(cmd.input@) is Ok && evaluation_spec(
        cmd.response@,
        response,
    ) is Ok
}

/// Whether each step passed, the TPM having answered the response of the
/// same index.
pub open spec fn all_steps_pass(steps: Seq<TestStep>, responses: Seq<Seq<u8>>) -> bool {
    responses.len() == steps.len() && forall|i: int|
        0 <= i < steps.len() ==> #[trigger] step_passes(steps[i], responses[i])
}

/// Whether a step stopped with the error `kind` for a reason of its own: it
/// is ill-formed, its input does not decode, its expected response fails on
/// some response of the TPM, or (the step being well-formed and its input
/// decoding) the harness failed.
pub open spec fn failure_explained(s: TestStep, kind: TestErrorKind) -> bool {
    match kind {
        TestErrorKind::TestStepError(e) => spec_step_check(s) == Err::<(), _>(e@),
        TestErrorKind::InputEvaluationError(e) => spec_step_check(s) is Ok && (s matches TestStep::SendCommand(cmd)
            && input_bytes(cmd.input@) == Err::<Seq<u8>, _>(e@)),
        TestErrorKind::ResponseEvaluationError(e) => spec_step_check(s) is Ok && (s matches TestStep::SendCommand(cmd)
            && input_bytes(cmd.input@) is Ok && exists|data: Seq<u8>| #[trigger] evaluation_spec(cmd.response@, data) == Err::<(), _>(e@)),
        TestErrorKind::HarnessError(_) => spec_step_check(s) is Ok && (s matches TestStep::SendCommand(cmd)
            ==> input_bytes(cmd.input@) is Ok),
        TestErrorKind::ParseError(_) => false,
    }
}

/// Whether the run stopped at step `i` with the error `e`, the steps before
/// it having passed with the TPM's `responses`.
pub open spec fn stopped_at(steps: Seq<TestStep>, i: int, responses: Seq<Seq<u8>>, e: TestError) -> bool {
    &&& 0 <= i < steps.len()
    &&& all_steps_pass(steps.take(i), responses)
    &&& e.step matches Some(name) && name@ == spec_step_name(steps[i])
    &&& failure_explained(steps[i], e.kind)
}

/// What a step asks of the harness.
pub enum HarnessCall {
    /// Send `command` to the TPM, with a zeroed buffer of `buffer_len` bytes
    /// for its response, then reach the value store.
    Transact { command: Vec<u8>, buffer_len: usize },
    /// Put the TPM in failure mode.
    EnterFailureMode,
    /// Set the locality for subsequent commands.
    SetLocality(u8),
}

/// What the harness answered a [`HarnessCall`].
pub enum HarnessReply<'a> {
    /// The TPM's response to a command (the store being reachable too).
    Response(&'a [u8]),
    /// The call succeeded and gives back nothing.
    Done,
    /// The harness failed.
    Failed(HarnessError),
}

/// The call that the check of step `s` and the decoding of its input lead
/// to: `None` where they fail.
pub open spec fn spec_step_call(s: TestStep, call: HarnessCall) -> bool {
    match s {
        TestStep::SendCommand(cmd) => call matches HarnessCall::Transact { command, buffer_len }
            && input_bytes(cmd.input@) == Ok::<Seq<u8>, InputErrorView>(command@) && buffer_len
            == RESPONSE_BUFFER_SIZE,
        TestStep::EnterFailureMode => call is EnterFailureMode,
        TestStep::SetLocality(locality) => call matches HarnessCall::SetLocality(n) && n == locality.0,
    }
}

/// Decides what step `step` asks of the harness: its check comes first,
/// then the decoding of a command's input; a command is sent with a zeroed
/// buffer of [`RESPONSE_BUFFER_SIZE`] bytes.
pub fn step_call(step: &TestStep) -> (r: Result<HarnessCall, TestErrorKind>)
    ensures
        match spec_step_check(*step) {
            Err(v) => r matches Err(TestErrorKind::TestStepError(e)) && e@ == v,
            Ok(()) => match *step {
                TestStep::SendCommand(cmd) => match input_bytes(cmd.input@) {
                    Err(v) => r matches Err(TestErrorKind::InputEvaluationError(e)) && e@ == v,
                    Ok(_) => r matches Ok(call) && spec_step_call(*step, call),
                },
                _ => r matches Ok(call) && spec_step_call(*step, call),
            },
        },
{
    match step.check() {
        Ok(()) => {},
        Err(e) => return Err(TestErrorKind::TestStepError(e)),
    }
    match step {
        TestStep::SendCommand(command) => {
            match Input::to_tpm_bytes(&command.input) {
                Ok(bytes) => Ok(HarnessCall::Transact { command: bytes, buffer_len: RESPONSE_BUFFER_SIZE }),
                Err(e) => Err(TestErrorKind::InputEvaluationError(e)),
            }
        },
        TestStep::EnterFailureMode => Ok(HarnessCall::EnterFailureMode),
        TestStep::SetLocality(locality) => Ok(HarnessCall::SetLocality(locality.0)),
    }
}

/// Decides how step `step` ends once the harness gave `reply`: a harness
/// failure is the step's error; a command's response is evaluated against
/// its expected response; anything else passes.
pub fn finish_step(step: &TestStep, reply: HarnessReply) -> (r: Result<(), TestErrorKind>)
    ensures
        match reply {
            HarnessReply::Failed(e) => r == Err::<(), TestErrorKind>(TestErrorKind::HarnessError(e)),
            HarnessReply::Response(data) => match *step {
                TestStep::SendCommand(cmd) => match evaluation_spec(cmd.response@, data@) {
                    Ok(()) => r is Ok,
                    Err(v) => r matches Err(TestErrorKind::ResponseEvaluationError(e)) && e@ == v,
                },
                _ => r is Ok,
            },
            HarnessReply::Done => r is Ok,
        },
{
    match reply {
        HarnessReply::Failed(e) => Err(TestErrorKind::HarnessError(e)),
        HarnessReply::Response(data) => match step {
            TestStep::SendCommand(command) => match Response::evaluate(&command.response, data) {
                Ok(()) => Ok(()),
                Err(e) => Err(TestErrorKind::ResponseEvaluationError(e)),
            },
            _ => Ok(()),
        },
        HarnessReply::Done => Ok(()),
    }
}

/// The buffer a call's response is written into: `buffer_len` zero bytes
/// for a command, nothing otherwise.
pub open spec fn spec_response_buffer(call: HarnessCall) -> Seq<u8> {
    match call {
        HarnessCall::Transact { buffer_len, .. } => Seq::new(buffer_len as nat, |_i: int| 0u8),
        _ => Seq::empty(),
    }
}

/// A command step asks the harness to send exactly the bytes its input
/// stands for, with a response buffer of 4096 zero bytes; the other steps
/// ask for their own call and get no buffer.
pub proof fn law_step_call_sends_input(s: TestStep, call: HarnessCall)
    requires
        spec_step_call(s, call),
    ensures
        s matches TestStep::SendCommand(cmd) ==> {
            &&& call matches HarnessCall::Transact { command, .. } && input_bytes(cmd.input@) == Ok::<
                Seq<u8>,
                InputErrorView,
            >(command@)
            &&& spec_response_buffer(call).len() == 4096
            &&& forall|i: int| 0 <= i < 4096 ==> #[trigger] spec_response_buffer(call)[i] == 0
        },
        s is EnterFailureMode ==> call is EnterFailureMode && spec_response_buffer(call).len() == 0,
        s matches TestStep::SetLocality(l) ==> call == HarnessCall::SetLocality(l.0) && spec_response_buffer(
            call,
        ).len() == 0,
{
}

/// Makes the buffer a call's response is written into.
fn response_buffer(call: &HarnessCall) -> (r: Vec<u8>)
    ensures
        r@ == spec_response_buffer(*call),
{
    match call {
        HarnessCall::Transact { buffer_len, .. } => {
            let mut buf: Vec<u8> = Vec::new();
            let mut i: usize = 0;
            while i < *buffer_len
                invariant
                    i <= *buffer_len,
                    buf@ == Seq::new(i as nat, |_j: int| 0u8),
                decreases *buffer_len - i,
            {
                buf.push(0u8);
                i = i + 1;
                assert(buf@ =~= Seq::new(i as nat, |_j: int| 0u8));
            }
            buf
        },
        _ => Vec::new(),
    }
}

/// Performs `call` on the harness and hands back its reply: a command goes
/// to `transact` with `rsp`, the zeroed buffer made for it, then the value
/// store is reached; failure mode and locality go to their own methods. This
/// is the only place the harness is called. What the harness receives and
/// returns is not stated: its methods are implemented by its users and carry
/// no contract, so only the shape of the reply is.
fn perform<'b, H: Harness>(harness: &mut H, call: HarnessCall, rsp: &'b mut [u8]) -> (r: HarnessReply<'b>)
    requires
        old(rsp)@ == spec_response_buffer(call),
    ensures
        call is Transact ==> !(r is Done),
        !(call is Transact) ==> !(r is Response),
{
    match call {
        HarnessCall::Transact { command, .. } => match harness.transact(command.as_slice(), rsp) {
            Ok(resp) => match harness.store_mut() {
                Ok(_) => HarnessReply::Response(resp),
                Err(e) => HarnessReply::Failed(e),
            },
            Err(e) => HarnessReply::Failed(e),
        },
        HarnessCall::EnterFailureMode => match harness.set_failure_mode() {
            Ok(()) => HarnessReply::Done,
            Err(e) => HarnessReply::Failed(e),
        },
        HarnessCall::SetLocality(n) => match harness.set_locality(n) {
            Ok(()) => HarnessReply::Done,
            Err(e) => HarnessReply::Failed(e),
        },
    }
}

/// Runs one step against the harness; on success yields what the TPM
/// answered (nothing for steps that are no commands).
fn run_step<H: Harness>(step: &TestStep, harness: &mut H) -> (r: Result<Ghost<Seq<u8>>, TestErrorKind>)
    ensures
        match r {
            Ok(response) => step_passes(*step, response@),
            Err(kind) => failure_explained(*step, kind),
        },
{
    let call = match step_call(step) {
        Ok(call) => call,
        Err(kind) => return Err(kind),
    };
    let mut buf = response_buffer(&call);
    let reply = perform(harness, call, buf.as_mut_slice());
    let ghost seen = match reply {
        HarnessReply::Response(data) => data@,
        _ => Seq::empty(),
    };
    match finish_step(step, reply) {
        Ok(()) => Ok(Ghost(seen)),
        Err(kind) => Err(kind),
    }
}

/// run_test_vector applies the test vector `test_case` to the TPM using the
/// `harness` that implements the [`Harness`] trait, step by step: [`step_call`]
/// decides what a step asks of the harness, one private function hands that
/// call to the harness (plumbing whose effect on the harness is not stated),
/// and [`finish_step`] decides from its reply how the step ends; the first
/// error stops the run. It succeeds only when every step passed, for some
/// responses of the TPM; otherwise the error names the test, and the step it
/// stopped at, which failed for a reason of its own after all steps before it
/// passed.
pub fn run_test_vector<H: Harness>(test_case: &TpmTestVector, harness: &mut H) -> (r: Result<(), Box<TestError>>)
    ensures
        r is Ok ==> exists|responses: Seq<Seq<u8>>| #[trigger]
            all_steps_pass(test_case.test_sequence@, responses),
        r matches Err(e) ==> e.name@ == test_case.name@ && exists|i: int, responses: Seq<Seq<u8>>| #[trigger]
            stopped_at(test_case.test_sequence@, i, responses, *e),
{
    let steps = &test_case.test_sequence;
    let ghost mut responses: Seq<Seq<u8>> = Seq::empty();
    let mut i: usize = 0;
    while i < steps.len()
        invariant
            steps == &test_case.test_sequence,
            i <= steps@.len(),
            all_steps_pass(steps@.take(i as int), responses),
        decreases steps@.len() - i,
    {
        let step = &steps[i];
        match run_step(step, harness) {
            Ok(response) => {
                proof {
                    let before = responses;
                    responses = responses.push(response@);
                    assert(steps@.take(i + 1).drop_last() =~= steps@.take(i as int));
                    assert forall|j: int| 0 <= j < i + 1 implies #[trigger] step_passes(
                        steps@.take(i + 1)[j],
                        responses[j],
                    ) by {
                        if j < i {
                            assert(steps@.take(i + 1)[j] == steps@.take(i as int)[j]);
                            assert(step_passes(steps@.take(i as int)[j], before[j]));
                        }
                    }
                }
            },
            Err(kind) => {
                let e = Box::new(TestError::new(test_case.name.clone(), Some(step.name()), kind));
                assert(stopped_at(steps@, i as int, responses, *e));
                return Err(e);
            },
        }
        i = i + 1;
    }
    assert(steps@.take(steps@.len() as int) =~= steps@);
    Ok(())
}

} // verus!
