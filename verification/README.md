# tpm2_test_vectors

Reading and checking TPM test vectors, verified with Verus.

A test vector is a named sequence of steps run against a TPM: commands with
their expected responses, entering failure mode, and setting the locality.
Commands and responses are written in compact hexadecimal encodings.

- `src/parse/` — the grammars of encoded inputs and responses, as functions on
  text with exact contracts (`fields`), and the strict variants (`input_fields`,
  `response_fields`).
- `src/response.rs` — matching an expected response against the bytes a TPM
  returned, part by part, and the messages of its errors.
- `src/input.rs` — the bytes an encoded input stands for.
- `src/step.rs`, `src/raw_step.rs`, `src/cmd_rsp.rs` — the steps of a test and
  the checks that they are well-formed.
- `src/harness/`, `src/connection_harness.rs` — the harness traits a user
  implements to reach a TPM, and an in-memory value store.
- `src/runner.rs` — running a test vector against a harness.
- `app/` — reading test vectors from Rusty Object Notation (serde), outside the
  verified library.
