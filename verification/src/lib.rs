//! Tools for reading and checking TPM test vectors: the compact hexadecimal
//! encodings of commands sent to a TPM and of the responses expected back,
//! the steps of a test sequence, and the harness that runs them.
use vstd::prelude::*;

pub mod cmd_rsp;
pub mod connection_harness;
pub mod harness;
pub mod input;
pub mod parse;
pub mod raw_step;
pub mod response;
pub mod runner;
pub mod step;
pub mod text;

use crate::step::TestStep;

verus! {

/// A TpmTestVector is a single test case run against a TPM.
#[derive(Debug)]
pub struct TpmTestVector {
    /// The name of the test vector, effectively the name of the test case.
    pub name: String,
    /// The TPM specification versions that the vector applies to.
    pub spec_versions: Vec<u32>,
    /// The sequence of commands to check in the test case.
    pub test_sequence: Vec<TestStep>,
}

} // verus!
