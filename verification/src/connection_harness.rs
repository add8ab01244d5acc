//! A harness whose connection errors are of a type `T` chosen by its user.
use vstd::prelude::*;

verus! {

/// Types of errors the [`Harness`] can return.
#[derive(Debug)]
pub enum HarnessErrorKind<T> {
    TransactUnsupported,
    FailureModeUnsupported,
    Connection(T),
}

impl<T> HarnessErrorKind<T> {
    /// The description of the error kind.
    pub fn message(&self) -> (r: &'static str)
        ensures
            r@ == match *self {
                HarnessErrorKind::TransactUnsupported => "transact fn unsupported"@,
                HarnessErrorKind::FailureModeUnsupported => "failure mode fn unsupported"@,
                HarnessErrorKind::Connection(_) => "connection error"@,
            },
    {
        match self {
            Self::TransactUnsupported => "transact fn unsupported",
            Self::FailureModeUnsupported => "failure mode fn unsupported",
            Self::Connection(_) => "connection error",
        }
    }
}

/// The error type returned by functions in the [`Harness`].
#[derive(Debug)]
pub struct HarnessError<T> {
    kind: HarnessErrorKind<T>,
}

impl<T> HarnessError<T> {
    /// The kind of the error.
    pub closed spec fn spec_kind(&self) -> HarnessErrorKind<T> {
        self.kind
    }

    pub fn new(kind: HarnessErrorKind<T>) -> (r: Self)
        ensures
            r.spec_kind() == kind,
    {
        Self { kind }
    }

    /// The kind of the error.
    pub fn kind(&self) -> (r: &HarnessErrorKind<T>)
        ensures
            *r == self.spec_kind(),
    {
        &self.kind
    }

    /// The description of the error.
    pub fn message(&self) -> (r: &'static str)
        ensures
            r@ == "error in the test harness"@,
    {
        "error in the test harness"
    }
}

impl<T> From<T> for HarnessError<T> {
    fn from(err: T) -> (r: Self)
        ensures
            r.spec_kind() == HarnessErrorKind::Connection(err),
    {
        Self::new(HarnessErrorKind::Connection(err))
    }
}

impl<T> vstd::std_specs::convert::FromSpecImpl<T> for HarnessError<T> {
    open spec fn obeys_from_spec() -> bool {
        true
    }

    closed spec fn from_spec(v: T) -> Self {
        HarnessError { kind: HarnessErrorKind::Connection(v) }
    }
}

/// The Harness trait describes the implementation necessary to run all of the
/// test vectors, with connection errors of type `T`.
pub trait Harness<T> {
    /// Perform a command/response transaction with the TPM.
    ///
    /// Note that even if the response contains a `TPM_RC` error, this method
    /// still returns `Ok(())`. `Err` is only returned when we are unable to get
    /// a response at all.
    fn transact(&mut self, _cmd: &[u8], _rsp: &mut [u8]) -> (r: Result<(), HarnessError<T>>)
        default_ensures
            r matches Err(e) && e.spec_kind() == HarnessErrorKind::<T>::TransactUnsupported,
            final(_rsp)@ == old(_rsp)@,
    {
        Err(HarnessError::new(HarnessErrorKind::TransactUnsupported))
    }

    /// Set the TPM in failure mode.
    fn set_failure_mode(&mut self) -> (r: Result<(), HarnessError<T>>)
        default_ensures
            r matches Err(e) && e.spec_kind() == HarnessErrorKind::<T>::FailureModeUnsupported,
    {
        Err(HarnessError::new(HarnessErrorKind::FailureModeUnsupported))
    }
}

} // verus!
