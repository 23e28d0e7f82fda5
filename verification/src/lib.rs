//! A minimal test harness built around a distributed test-registration and
//! aggregation core.
//!
//! Test cases are contributed from arbitrary places in a program into two
//! append-only registries (one for single-case tests, one for parameterized
//! tests that expand into many cases). At start-up the aggregator invokes
//! every registered entry and concatenates the produced descriptors into one
//! ordered execution plan, which is handed, together with a sanitized copy of
//! the command-line arguments, to the `libtest_mimic` execution engine.

pub mod adapter;
pub mod args;
pub mod plan;
pub mod registry;
pub mod trials;
