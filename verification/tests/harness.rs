use libtest_mimic::{Arguments, Failed, Trial};
use rdroidtest::adapter::run;
use rdroidtest::args::sanitize_args;
use rdroidtest::plan::aggregate;
use rdroidtest::registry::Registry;

fn strings(tokens: &[&str]) -> Vec<String> {
    tokens.iter().map(|t| t.to_string()).collect()
}

#[test]
fn sanitize_drops_both_denied_tokens() {
    let raw = strings(&["--filter", "x", "-Zunstable-options", "--report-time"]);
    let sanitized = sanitize_args(raw);
    assert_eq!(sanitized, strings(&["--filter", "x"]));
}

#[test]
fn sanitize_is_identity_without_denied_tokens() {
    let raw = strings(&["--filter", "x", "--exact", "alpha", ""]);
    let sanitized = sanitize_args(raw.clone());
    assert_eq!(sanitized, raw);
}

#[test]
fn sanitize_removes_every_occurrence() {
    let raw = strings(&[
        "-Zunstable-options",
        "a",
        "--report-time",
        "-Zunstable-options",
        "b",
        "--report-time",
    ]);
    let sanitized = sanitize_args(raw);
    assert_eq!(sanitized, strings(&["a", "b"]));
}

#[test]
fn sanitize_matches_whole_tokens_only() {
    let raw = strings(&[
        "-Zunstable-options2",
        "--report-time=plain",
        "-Zunstable",
        "--report",
    ]);
    let sanitized = sanitize_args(raw.clone());
    assert_eq!(sanitized, raw);
}

#[test]
fn sanitize_of_empty_list_is_empty() {
    let sanitized = sanitize_args(Vec::new());
    assert!(sanitized.is_empty());
}

#[test]
fn adapter_reports_success_for_a_body_that_completes() {
    let outcome = run(|| ());
    assert!(outcome.is_ok());
}

fn descriptor_a() -> Trial {
    Trial::test("a", || Ok(()))
}

fn descriptor_b() -> Trial {
    Trial::test("b", || Ok(()))
}

fn parameterized_pair() -> Vec<Trial> {
    vec![
        Trial::test("p/1", || Err(Failed::from("expected failure"))),
        Trial::test("p/2", || Ok(())),
    ]
}

fn parameterized_single() -> Vec<Trial> {
    vec![Trial::test("q/1", || Ok(()))]
}

fn empty_singular() -> Registry<fn() -> Trial> {
    Registry::new()
}

fn empty_parameterized() -> Registry<fn() -> Vec<Trial>> {
    Registry::new()
}

#[test]
fn plan_length_counts_every_contribution() {
    let mut singular = empty_singular();
    singular.add(descriptor_a);
    singular.add(descriptor_b);
    let mut parameterized = empty_parameterized();
    parameterized.add(parameterized_pair);
    parameterized.add(parameterized_single);

    let plan = aggregate(&singular, &parameterized);
    assert_eq!(plan.len(), 2 + 2 + 1);
    let names: Vec<&str> = plan.iter().map(|t| t.name()).collect();
    assert_eq!(names, vec!["a", "b", "p/1", "p/2", "q/1"]);
}

#[test]
fn registry_reports_its_length() {
    let mut singular = empty_singular();
    assert_eq!(singular.len(), 0);
    singular.add(descriptor_a);
    singular.add(descriptor_a);
    assert_eq!(singular.len(), 2);
}

#[test]
fn aggregation_is_deterministic_across_repeated_reads() {
    let mut singular = empty_singular();
    singular.add(descriptor_b);
    singular.add(descriptor_a);
    let mut parameterized = empty_parameterized();
    parameterized.add(parameterized_pair);

    let first: Vec<String> = aggregate(&singular, &parameterized)
        .iter()
        .map(|t| t.name().to_string())
        .collect();
    let second: Vec<String> = aggregate(&singular, &parameterized)
        .iter()
        .map(|t| t.name().to_string())
        .collect();
    assert_eq!(first, vec!["b", "a", "p/1", "p/2"]);
    assert_eq!(first, second);
}

#[test]
fn empty_registries_yield_an_empty_plan_and_a_non_failing_run() {
    let plan = aggregate(&empty_singular(), &empty_parameterized());
    assert!(plan.is_empty());

    let conclusion = libtest_mimic::run(&Arguments::default(), plan);
    assert!(!conclusion.has_failed());
    assert_eq!(conclusion.num_passed, 0);
    assert_eq!(conclusion.num_failed, 0);
}

#[test]
fn one_passing_singular_contribution_succeeds_end_to_end() {
    let mut singular = empty_singular();
    singular.add(descriptor_a);
    let plan = aggregate(&singular, &empty_parameterized());
    let names: Vec<&str> = plan.iter().map(|t| t.name()).collect();
    assert_eq!(names, vec!["a"]);

    let conclusion = libtest_mimic::run(&Arguments::default(), plan);
    assert!(!conclusion.has_failed());
    assert_eq!(conclusion.num_passed, 1);
    assert_eq!(conclusion.num_failed, 0);
}

#[test]
fn one_failing_parameterized_case_fails_the_run_and_both_are_reported() {
    let mut parameterized = empty_parameterized();
    parameterized.add(parameterized_pair);
    let plan = aggregate(&empty_singular(), &parameterized);
    let names: Vec<&str> = plan.iter().map(|t| t.name()).collect();
    assert_eq!(names, vec!["p/1", "p/2"]);

    let conclusion = libtest_mimic::run(&Arguments::default(), plan);
    assert!(conclusion.has_failed());
    assert_eq!(conclusion.num_passed, 1);
    assert_eq!(conclusion.num_failed, 1);
}

fn panicking_body_through_adapter() -> Trial {
    Trial::test("panics", || run(|| panic!("intentional test failure")))
}

#[test]
fn a_panicking_body_is_reported_as_a_failure_by_the_engine() {
    let mut singular = empty_singular();
    singular.add(panicking_body_through_adapter);
    let plan = aggregate(&singular, &empty_parameterized());

    let conclusion = libtest_mimic::run(&Arguments::default(), plan);
    assert!(conclusion.has_failed());
    assert_eq!(conclusion.num_failed, 1);
    assert_eq!(conclusion.num_passed, 0);
}

#[test]
fn engine_failure_value_carries_the_message() {
    let failure = Failed::from("boom happened");
    assert!(failure.message().unwrap().contains("boom happened"));
}
