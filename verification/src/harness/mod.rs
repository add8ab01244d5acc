//! The harness module provides type definitions and default implementations for
//! running the test vectors.
use vstd::prelude::*;

pub mod store;

use crate::harness::store::Store;

verus! {

#[verifier::external_type_specification]
#[verifier::external_body]
pub struct ExIoError(std::io::Error);

/// Types of errors the [`Harness`] can return. Some harness errors come from
/// the connection to the TPM.
#[derive(Debug)]
pub enum HarnessErrorKind {
    TransactUnsupported,
    FailureModeUnsupported,
    LocalityUnsupported,
    StoreUnsupported,
    /// Used by connections over TCP.
    Io(std::io::Error),
}

impl HarnessErrorKind {
    /// The description of the error kind.
    pub fn message(&self) -> (r: &'static str)
        ensures
            r@ == match *self {
                HarnessErrorKind::TransactUnsupported => "transact fn unsupported"@,
                HarnessErrorKind::FailureModeUnsupported => "failure mode fn unsupported"@,
                HarnessErrorKind::LocalityUnsupported => "locality fn unsupported"@,
                HarnessErrorKind::StoreUnsupported => "store fn unsupported"@,
                HarnessErrorKind::Io(_) => "I/O error"@,
            },
    {
        match self {
            Self::TransactUnsupported => "transact fn unsupported",
            Self::FailureModeUnsupported => "failure mode fn unsupported",
            Self::LocalityUnsupported => "locality fn unsupported",
            Self::StoreUnsupported => "store fn unsupported",
            Self::Io(_) => "I/O error",
        }
    }
}

/// The error type returned by functions in the [`Harness`].
#[derive(Debug)]
pub struct HarnessError {
    kind: HarnessErrorKind,
}

impl HarnessError {
    /// The kind of the error.
    pub closed spec fn spec_kind(&self) -> HarnessErrorKind {
        self.kind
    }

    pub fn new(kind: HarnessErrorKind) -> (r: Self)
        ensures
            r.spec_kind() == kind,
    {
        Self { kind }
    }

    /// The kind of the error.
    pub fn kind(&self) -> (r: &HarnessErrorKind)
        ensures
            *r == self.spec_kind(),
    {
        &self.kind
    }

    /// The description of the error.
    pub fn message(&self) -> (r: &'static str)
        ensures
            r@ == "error in the test harness"@,
    {
        "error in the test harness"
    }
}

impl From<std::io::Error> for HarnessError {
    fn from(err: std::io::Error) -> (r: Self)
        ensures
            r.spec_kind() == HarnessErrorKind::Io(err),
    {
        Self::new(HarnessErrorKind::Io(err))
    }
}

impl vstd::std_specs::convert::FromSpecImpl<std::io::Error> for HarnessError {
    open spec fn obeys_from_spec() -> bool {
        true
    }

    closed spec fn from_spec(v: std::io::Error) -> Self {
        HarnessError { kind: HarnessErrorKind::Io(v) }
    }
}

/// The Harness trait describes the implementation necessary to run all of the
/// test vectors.
pub trait Harness {
    /// Perform a command/response transaction with the TPM.
    ///
    /// Note that even if the response contains a `TPM_RC` error, this method
    /// still returns `Ok`. `Err` is only returned when we are unable to get
    /// a response at all.
    fn transact<'a>(&mut self, _cmd: &[u8], rsp: &'a mut [u8]) -> (r: Result<&'a mut [u8], HarnessError>)
        default_ensures
            r matches Err(e) && e.spec_kind() == HarnessErrorKind::TransactUnsupported,
            final(rsp)@ == old(rsp)@,
    {
        Err(HarnessError::new(HarnessErrorKind::TransactUnsupported))
    }

    /// Set the TPM in failure mode.
    fn set_failure_mode(&mut self) -> (r: Result<(), HarnessError>)
        default_ensures
            r matches Err(e) && e.spec_kind() == HarnessErrorKind::FailureModeUnsupported,
    {
        Err(HarnessError::new(HarnessErrorKind::FailureModeUnsupported))
    }

    /// Set the locality for subsequent commands.
    fn set_locality(&mut self, _locality: u8) -> (r: Result<(), HarnessError>)
        default_ensures
            r matches Err(e) && e.spec_kind() == HarnessErrorKind::LocalityUnsupported,
    {
        Err(HarnessError::new(HarnessErrorKind::LocalityUnsupported))
    }

    /// Provides mutable access to the test's value store.
    fn store_mut(&mut self) -> (r: Result<&mut dyn Store, HarnessError>)
        default_ensures
            r matches Err(e) && e.spec_kind() == HarnessErrorKind::StoreUnsupported,
    {
        Err(HarnessError::new(HarnessErrorKind::StoreUnsupported))
    }
}

} // verus!
