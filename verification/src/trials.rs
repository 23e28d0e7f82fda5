//! Declarations of the execution engine's descriptor and failure types.
//!
//! The engine consumes an ordered list of named, runnable test cases and
//! reports pass/fail. Its descriptor type carries a name, a runnable body and
//! an optional ignore marker; the harness never looks inside one — it only
//! collects descriptors into the execution plan and hands them over.

use vstd::prelude::*;

verus! {

/// `libtest_mimic::Trial`: one named, runnable test case. Opaque to the
/// harness; descriptors are produced by contributed entries and moved, never
/// inspected.
#[verifier::external_type_specification]
#[verifier::external_body]
pub struct ExTrial(libtest_mimic::Trial);

/// `libtest_mimic::Failed`: the engine's failure value, optionally carrying a
/// message. The test-body adapter's result uses it as the error type.
#[verifier::external_type_specification]
#[verifier::external_body]
pub struct ExFailed(libtest_mimic::Failed);

} // verus!
