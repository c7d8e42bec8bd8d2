//! How an invocation ends, fails and reports.

use skillranker::cli::failure::{
    category_failure, diagnostic_line, failure_exit, failure_output, fallback_kind,
    finish_invocation, invalid, observe_roster_timeout, reported_kind, runtime_unavailable,
    storage_failure, store_failure, timely, validate_rank_completion, Decision, ErrorCategory,
    Failure, FailureOutput, FallbackKind, OutputKind, OwnerRefusal, ReportedKind, StoreFault,
    StoreKind,
};

fn timeout() -> Failure {
    (6, "timeout", "Local inspection deadline exceeded".to_owned())
}

#[test]
fn an_observe_roster_deadline_is_a_timeout_not_an_unusable_roster() {
    let (code, kind, message) = observe_roster_timeout();
    assert_eq!((code, kind), (6, "timeout"));
    assert!(!message.contains("Deadline"), "no Debug text: {message}");
}

#[test]
fn work_cutoff_preserves_unavailable_but_never_late_advice_or_artifacts() {
    let timeout = timeout();
    let unavailable = OutputKind::Decision(Decision::Unavailable);
    assert!(validate_rank_completion(Err(timeout.clone()), unavailable).is_ok());
    for document in [
        OutputKind::Decision(Decision::Ranked),
        OutputKind::Decision(Decision::Explicit),
        OutputKind::Decision(Decision::Abstain),
        OutputKind::Preview,
        OutputKind::Artifact,
    ] {
        assert_eq!(
            validate_rank_completion(Err(timeout.clone()), document),
            Err(timeout.clone())
        );
        assert!(validate_rank_completion(Ok(()), document).is_ok());
    }
}

#[test]
fn unfinished_runtime_cannot_publish_success() {
    let outcome = finish_invocation(false, 900, 1_000, Ok("must not be emitted"));
    assert!(matches!(outcome, Err((6, "timeout", _))), "{outcome:?}");
    // Shutting down only once the deadline has passed is as late.
    let outcome = finish_invocation(true, 1_000, 1_000, Ok("must not be emitted"));
    assert_eq!(
        outcome,
        Err((
            6,
            "timeout",
            "Runtime cleanup did not finish within the invocation deadline".to_owned()
        ))
    );
}

#[test]
fn completed_runtime_preserves_success_and_failure() {
    for outcome in [
        Ok("result"),
        Err((7, "malformed-input", "Invalid input".into())),
    ] {
        let expected = outcome.clone();
        assert_eq!(finish_invocation(true, 999, 1_000, outcome), expected);
    }
}

#[test]
fn work_is_refused_once_its_cutoff_has_passed() {
    assert_eq!(timely(true), Ok(()));
    assert_eq!(timely(false), Err(timeout()));
    assert_eq!(
        runtime_unavailable(),
        (6, "timeout", "Local runtime unavailable".to_owned())
    );
    assert_eq!(
        invalid("bad"),
        (2, "invalid-configuration", "bad".to_owned())
    );
    let category = ErrorCategory { code: 5, name: "roster-changed" };
    assert_eq!(
        category_failure(category, "again".to_owned()),
        (5, "roster-changed", "again".to_owned())
    );
}

#[test]
fn a_storage_refusal_names_its_cause_and_remedy_only_for_permissions() {
    let cause = Some(OwnerRefusal {
        description: "/home/x/sr is readable by others".to_owned(),
        remedy: Some("chmod 700 /home/x/sr".to_owned()),
    });
    assert_eq!(
        storage_failure("Failed", "permissions", true, &cause),
        "Failed: permissions. /home/x/sr is readable by others. Fix with: chmod 700 /home/x/sr"
    );
    assert_eq!(storage_failure("Failed", "busy", false, &cause), "Failed: busy");
    assert_eq!(storage_failure("Failed", "permissions", true, &None), "Failed: permissions");
    let unfixed = Some(OwnerRefusal { description: "odd owner".to_owned(), remedy: None });
    assert_eq!(
        storage_failure("Failed", "permissions", true, &unfixed),
        "Failed: permissions. odd owner"
    );
}

#[test]
fn a_refused_ledger_says_what_to_do() {
    let fault = |kind: StoreKind| StoreFault { kind, text: "disk gone".to_owned() };
    assert_eq!(
        store_failure("Failed to open", &fault(StoreKind::Missing)).2,
        "Ledger store is missing; run sr ledger init first"
    );
    assert_eq!(
        store_failure("Failed to open", &fault(StoreKind::Permissions)).2,
        "Ledger store is disabled or read-only"
    );
    assert_eq!(
        store_failure("Failed to open", &fault(StoreKind::Other)),
        (9, "storage-failure", "Failed to open: disk gone".to_owned())
    );
}

#[test]
fn an_error_keeps_its_known_name_or_takes_that_of_its_exit_code() {
    let known = vec!["timeout".to_owned(), "network-denied".to_owned()];
    match reported_kind(8, "network-denied", &known) {
        ReportedKind::Known(name) => assert_eq!(name, "network-denied"),
        ReportedKind::Fallback(_) => panic!("a known name"),
    }
    match reported_kind(8, "odd", &known) {
        ReportedKind::Known(_) => panic!("not a known name"),
        ReportedKind::Fallback(kind) => assert_eq!(kind, FallbackKind::NetworkDenied),
    }
    for (code, kind) in [
        (0, FallbackKind::InvalidUsage),
        (2, FallbackKind::InvalidUsage),
        (3, FallbackKind::MissingSession),
        (4, FallbackKind::ProviderFailure),
        (5, FallbackKind::EmptyRoster),
        (6, FallbackKind::Timeout),
        (7, FallbackKind::MalformedInput),
        (8, FallbackKind::NetworkDenied),
        (9, FallbackKind::StorageFailure),
        (10, FallbackKind::InvalidProviderResponse),
        (11, FallbackKind::CacheMiss),
        (12, FallbackKind::InvalidUsage),
    ] {
        assert_eq!(fallback_kind(code), kind);
    }
}

#[test]
fn a_failure_goes_where_its_reader_looks_and_a_hook_never_fails() {
    assert_eq!(
        failure_output(true, true, "{}", true),
        FailureOutput::HookDiagnostic
    );
    assert_eq!(failure_output(false, true, " \n{\"a\":1}", true), FailureOutput::Document);
    assert_eq!(failure_output(false, true, "{\"a\":1}", false), FailureOutput::ErrorDocument);
    assert_eq!(failure_output(false, true, "plain", true), FailureOutput::ErrorDocument);
    assert_eq!(failure_output(false, false, "{}", true), FailureOutput::Diagnostic);
    assert_eq!(failure_exit(true, 9), 0);
    assert_eq!(failure_exit(false, 9), 9);
    assert_eq!(diagnostic_line("late"), "sr: late\n");
}
