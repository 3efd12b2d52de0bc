use overlay_pipeline::outcome::{ExecutionOutcome, DEFAULT_TIMEOUT_SECS, TIMEOUT_EXIT_CODE};

#[test]
fn completion_with_exit_zero_is_success() {
    let r = ExecutionOutcome::from_completion(
        Some(0),
        String::from("frames written"),
        String::from("minor warning"),
    );
    assert!(r.success);
    assert_eq!(r.stdout, "frames written");
    // stderr is carried alongside success, diagnostics sometimes land there
    assert_eq!(r.stderr, "minor warning");
    assert_eq!(r.exit_code, Some(0));
}

#[test]
fn completion_with_nonzero_exit_is_failure() {
    let r = ExecutionOutcome::from_completion(Some(1), String::from("o"), String::from("e"));
    assert!(!r.success);
    assert_eq!(r.exit_code, Some(1));
    assert_eq!(
        r.stderr,
        "Process failed with return code 1\nSTDERR: e\nSTDOUT: o"
    );
}

#[test]
fn completion_without_exit_code_is_failure() {
    let r = ExecutionOutcome::from_completion(None, String::new(), String::from("killed"));
    assert!(!r.success);
    assert_eq!(r.exit_code, None);
    assert_eq!(
        r.stderr,
        "Process failed with return code unknown\nSTDERR: killed\nSTDOUT: "
    );
}

#[test]
fn timeout_yields_sentinel_exit_code() {
    let r = ExecutionOutcome::from_timeout(DEFAULT_TIMEOUT_SECS);
    assert!(!r.success);
    assert_eq!(r.exit_code, Some(TIMEOUT_EXIT_CODE));
    assert_eq!(r.exit_code, Some(-1));
    assert_eq!(r.stderr, "Process timed out after 300 seconds");
    assert_eq!(r.stdout, "");
}

#[test]
fn spawn_failure_has_no_exit_code() {
    let r = ExecutionOutcome::from_spawn_failure("program not found");
    assert!(!r.success);
    assert_eq!(r.exit_code, None);
    assert_eq!(r.stderr, "Failed to execute command: program not found");
}
