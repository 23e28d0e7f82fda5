//! The test-body adapter.
//!
//! Test bodies are written as plain, zero-argument procedures with no return
//! value, while the execution engine expects each case's runner to yield a
//! binary result: success, or a failure carrying a message. The adapter
//! bridges the two shapes.

use vstd::prelude::*;

use libtest_mimic::Failed;

verus! {

/// Runs the given test body and normalizes its completion into the engine's
/// binary result: a body that completes normally yields success. A body
/// signals failure by panicking; the panic propagates past this adapter
/// unswallowed, and the execution engine reports it, message included, as
/// that one case's failure.
pub fn run<F: FnOnce()>(test: F) -> (r: Result<(), Failed>)
    requires
        call_requires(test, ()),
    ensures
        r is Ok,
        call_ensures(test, (), ()),
{
    test();
    Ok(())
}

} // verus!
