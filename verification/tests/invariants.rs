use engram_core::invariants::{invariant_check, soft_invariant_check};

fn hold(holds: bool, cond: &str, detail: Option<&str>) {
    if let Some(text) = invariant_check(holds, cond, detail) {
        panic!("{text}");
    }
}

#[test]
fn invariant_holds_is_a_noop() {
    hold(1 + 1 == 2, "1 + 1 == 2", None);
    hold(1 + 1 == 2, "1 + 1 == 2", Some(&format!("arithmetic still works: {}", 2)));
}

#[test]
#[should_panic(expected = "invariant violated: 1 + 1 == 3")]
fn invariant_violation_panics_with_condition() {
    hold(1 + 1 == 3, "1 + 1 == 3", None);
}

#[test]
#[should_panic(expected = "invariant violated: false: epoch 7 must exceed 9")]
fn invariant_violation_panics_with_message() {
    let (a, b) = (7, 9);
    hold(false, "false", Some(&format!("epoch {a} must exceed {b}")));
}

#[test]
fn soft_invariant_holds_is_a_noop() {
    assert_eq!(soft_invariant_check(true, "test-condition-holds", "should never log"), None);
}

#[test]
fn soft_invariant_violation_does_not_panic() {
    let reached_before = true;
    let report = soft_invariant_check(
        false,
        "test-anomaly-detected",
        &format!("detected an anomaly worth an alert: {}", 42),
    );
    let reached_after = true;
    assert!(
        reached_before && reached_after,
        "a soft invariant must not divert control flow"
    );
    let report = report.expect("a report");
    assert_eq!(report.name, "test-anomaly-detected");
    assert_eq!(
        report.message,
        "soft-invariant violated: detected an anomaly worth an alert: 42"
    );
}
