use tpm2_test_vectors::connection_harness;
use tpm2_test_vectors::harness::store::{InMemoryStore, Store};
use tpm2_test_vectors::harness::{Harness, HarnessError, HarnessErrorKind};
use tpm2_test_vectors::input::EncodedInput;
use tpm2_test_vectors::response::EncodedResponse;
use tpm2_test_vectors::runner::{
    finish_step, run_test_vector, step_call, HarnessCall, HarnessReply, TestError, TestErrorKind,
    RESPONSE_BUFFER_SIZE,
};
use tpm2_test_vectors::step::{CommandResponsePair, Locality, TestStep};
use tpm2_test_vectors::TpmTestVector;

#[test]
fn default_store_is_empty() {
    let store = InMemoryStore::default();
    assert_eq!(store.get(""), None);
}

#[test]
fn store_get_after_insert() {
    let mut store = InMemoryStore::new();
    assert_eq!(store.get("handle"), None);
    assert_eq!(store.insert("handle", "80000001"), None);
    assert_eq!(store.get("handle"), Some("80000001"));
    assert_eq!(store.insert("handle", "80000002"), Some("80000001".to_string()));
    assert_eq!(store.get("handle"), Some("80000002"));
    assert_eq!(store.get("other"), None);
}

struct Unsupported;
impl Harness for Unsupported {}

#[test]
fn default_harness_methods_fail() {
    let mut h = Unsupported;
    let mut buf = [0u8; 4];
    assert!(matches!(
        h.transact(&[1], &mut buf).unwrap_err().kind(),
        HarnessErrorKind::TransactUnsupported
    ));
    assert!(matches!(h.set_failure_mode().unwrap_err().kind(), HarnessErrorKind::FailureModeUnsupported));
    assert!(matches!(h.set_locality(1).unwrap_err().kind(), HarnessErrorKind::LocalityUnsupported));
    assert!(matches!(h.store_mut().err().unwrap().kind(), HarnessErrorKind::StoreUnsupported));
    let e = HarnessError::from(std::io::Error::other("down"));
    assert!(matches!(e.kind(), HarnessErrorKind::Io(_)));
    assert_eq!(e.kind().message(), "I/O error");
    assert_eq!(e.message(), "error in the test harness");
}

/// A TPM that answers every command with a fixed response.
struct Canned {
    response: Vec<u8>,
    sent: Vec<Vec<u8>>,
    store: InMemoryStore,
    locality: u8,
    failure_mode: bool,
}

impl Harness for Canned {
    fn transact<'a>(&mut self, cmd: &[u8], rsp: &'a mut [u8]) -> Result<&'a mut [u8], HarnessError> {
        self.sent.push(cmd.to_vec());
        let n = self.response.len();
        rsp[..n].copy_from_slice(&self.response);
        Ok(&mut rsp[..n])
    }

    fn set_failure_mode(&mut self) -> Result<(), HarnessError> {
        self.failure_mode = true;
        Ok(())
    }

    fn set_locality(&mut self, locality: u8) -> Result<(), HarnessError> {
        self.locality = locality;
        Ok(())
    }

    fn store_mut(&mut self) -> Result<&mut dyn Store, HarnessError> {
        Ok(&mut self.store)
    }
}

fn canned(response: &[u8]) -> Canned {
    Canned {
        response: response.to_vec(),
        sent: Vec::new(),
        store: InMemoryStore::new(),
        locality: 0,
        failure_mode: false,
    }
}

fn vector(response: &str) -> TpmTestVector {
    TpmTestVector {
        name: "startup".to_string(),
        spec_versions: vec![184],
        test_sequence: vec![
            TestStep::SetLocality(Locality(3)),
            TestStep::SendCommand(CommandResponsePair {
                step: "Startup".to_string(),
                input: EncodedInput::from("80_01_00_00_00_0c_00_00_01_44_00_00"),
                response: EncodedResponse::from(response),
            }),
            TestStep::EnterFailureMode,
        ],
    }
}

#[test]
fn run_test_vector_passes() {
    let mut tpm = canned(&[0x80, 0x01, 0, 0, 0, 0x0a, 0, 0, 0, 0]);
    run_test_vector(&vector("8001_0000000a_00000000"), &mut tpm).unwrap();
    assert_eq!(tpm.sent, vec![vec![0x80, 0x01, 0, 0, 0, 0x0c, 0, 0, 0x01, 0x44, 0, 0]]);
    assert_eq!(tpm.locality, 3);
    assert!(tpm.failure_mode);
}

#[test]
fn run_test_vector_reports_failing_step() {
    let mut tpm = canned(&[0x80, 0x01, 0, 0, 0, 0x0a, 0, 0, 0x01, 0x00]);
    let e = run_test_vector(&vector("8001_0000000a_00000000"), &mut tpm).unwrap_err();
    assert_eq!(e.name, "startup");
    assert_eq!(e.step.as_deref(), Some("Startup"));
    assert!(matches!(e.kind, TestErrorKind::ResponseEvaluationError(_)));
    assert!(!tpm.failure_mode);
    assert_eq!(e.message(), "\nError in test \"startup\"\n      in step \"Startup\"");
}

#[test]
fn run_test_vector_checks_steps_first() {
    let mut tpm = canned(&[]);
    let mut v = vector("8001_0000000a_00000000");
    v.test_sequence.insert(0, TestStep::SetLocality(Locality(9)));
    let e = run_test_vector(&v, &mut tpm).unwrap_err();
    assert_eq!(e.step.as_deref(), Some("SetLocality 9"));
    assert!(matches!(e.kind, TestErrorKind::TestStepError(_)));
    assert!(tpm.sent.is_empty());
}

#[test]
fn run_test_vector_with_unsupported_harness() {
    let e = run_test_vector(&vector("8001_0000000a_00000000"), &mut Unsupported).unwrap_err();
    assert!(matches!(e.kind, TestErrorKind::HarnessError(_)));
    assert_eq!(e.step.as_deref(), Some("SetLocality 3"));
}

#[test]
fn test_error_from_kinds() {
    let kind = TestErrorKind::from(HarnessError::new(HarnessErrorKind::LocalityUnsupported));
    let e = TestError::new("t".to_string(), Some("s".to_string()), kind);
    assert!(matches!(e.kind, TestErrorKind::HarnessError(ref h) if matches!(h.kind(), HarnessErrorKind::LocalityUnsupported)));
    assert_eq!(e.message(), "\nError in test \"t\"\n      in step \"s\"");
    let unnamed = TestError::new(String::new(), None, kind_of_step_error());
    assert_eq!(unnamed.message(), "\nError in test \"unknown\"");
}

fn kind_of_step_error() -> TestErrorKind {
    let pair = CommandResponsePair {
        step: "short".to_string(),
        input: EncodedInput::from("8001"),
        response: EncodedResponse::from("8001_0000000a_00000000"),
    };
    TestErrorKind::from(pair.check().unwrap_err())
}

struct Conn;
impl connection_harness::Harness<String> for Conn {}

#[test]
fn connection_harness_defaults() {
    let mut c = Conn;
    let mut buf = [0u8; 2];
    let e = connection_harness::Harness::transact(&mut c, &[0], &mut buf).unwrap_err();
    assert!(matches!(e.kind(), connection_harness::HarnessErrorKind::TransactUnsupported));
    assert_eq!(e.kind().message(), "transact fn unsupported");
    let e = connection_harness::Harness::set_failure_mode(&mut c).unwrap_err();
    assert!(matches!(e.kind(), connection_harness::HarnessErrorKind::FailureModeUnsupported));
    let e = connection_harness::HarnessError::from("refused".to_string());
    match e.kind() {
        connection_harness::HarnessErrorKind::Connection(s) => assert_eq!(s, "refused"),
        _ => panic!("expected a connection error"),
    }
    assert_eq!(e.kind().message(), "connection error");
}

#[test]
fn default_failure_mode_stops_the_run() {
    let v = TpmTestVector {
        name: "t".to_string(),
        spec_versions: vec![184],
        test_sequence: vec![TestStep::EnterFailureMode],
    };
    let e = run_test_vector(&v, &mut Unsupported).unwrap_err();
    assert_eq!(e.name, "t");
    assert_eq!(e.step.as_deref(), Some("EnterFailureMode"));
    assert!(matches!(e.kind, TestErrorKind::HarnessError(ref h) if matches!(h.kind(), HarnessErrorKind::FailureModeUnsupported)));
}

#[test]
fn empty_sequence_passes_without_harness_calls() {
    let v = TpmTestVector { name: "empty".to_string(), spec_versions: vec![], test_sequence: vec![] };
    let mut tpm = canned(&[]);
    run_test_vector(&v, &mut tpm).unwrap();
    assert!(tpm.sent.is_empty());
    assert!(!tpm.failure_mode);
}

#[test]
fn step_calls() {
    let v = vector("8001_0000000a_00000000");
    match step_call(&v.test_sequence[1]).unwrap() {
        HarnessCall::Transact { command, buffer_len } => {
            assert_eq!(command, vec![0x80, 0x01, 0, 0, 0, 0x0c, 0, 0, 0x01, 0x44, 0, 0]);
            assert_eq!(buffer_len, RESPONSE_BUFFER_SIZE);
            assert_eq!(buffer_len, 4096);
        }
        _ => panic!("a command is sent"),
    }
    assert!(matches!(step_call(&v.test_sequence[0]).unwrap(), HarnessCall::SetLocality(3)));
    assert!(matches!(step_call(&v.test_sequence[2]).unwrap(), HarnessCall::EnterFailureMode));
    assert!(matches!(
        step_call(&TestStep::SetLocality(Locality(9))),
        Err(TestErrorKind::TestStepError(_))
    ));
    let odd = TestStep::SendCommand(CommandResponsePair {
        step: "odd".to_string(),
        input: EncodedInput::from("80_01_00_00_00_0c_00_00_01_44_00_00_0"),
        response: EncodedResponse::from("8001_0000000a_00000000"),
    });
    assert!(matches!(step_call(&odd), Err(TestErrorKind::InputEvaluationError(_))));
}

#[test]
fn finishing_steps() {
    let v = vector("8001_0000000a_00000000");
    let good = [0x80, 0x01, 0, 0, 0, 0x0a, 0, 0, 0, 0];
    let bad = [0x80, 0x01, 0, 0, 0, 0x0a, 0, 0, 0x01, 0x00];
    assert!(finish_step(&v.test_sequence[1], HarnessReply::Response(&good)).is_ok());
    assert!(matches!(
        finish_step(&v.test_sequence[1], HarnessReply::Response(&bad)),
        Err(TestErrorKind::ResponseEvaluationError(_))
    ));
    assert!(finish_step(&v.test_sequence[2], HarnessReply::Done).is_ok());
    let failed = HarnessReply::Failed(HarnessError::new(HarnessErrorKind::FailureModeUnsupported));
    assert!(matches!(
        finish_step(&v.test_sequence[2], failed),
        Err(TestErrorKind::HarnessError(ref h)) if matches!(h.kind(), HarnessErrorKind::FailureModeUnsupported)
    ));
}
