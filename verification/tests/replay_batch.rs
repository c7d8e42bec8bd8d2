//! Bounded offline replay batches.

use serde_json::Value;
use skillranker::evaluation::labels::CaseKey;
use skillranker::evaluation::replay::{
    required_stages, validate_batch_config, validate_replay_config, BatchConfig, EvidenceOrigin,
    LiveIntake, ReplayBatch, ReplayFacts, ReplayIntake, ReplayOutcome, ReplayPolicy,
    MAX_BATCH_RUNTIME_MS,
};
use skillranker::evaluation::report::{
    CaseExecutionStatus, EvaluationError, GateStatus, RunStatus,
};
use skillranker::score::Score;

fn score(x: f64) -> Score {
    Score { bits: x.to_bits() }
}

fn decision(name: &str) -> Value {
    serde_json::from_str(&format!("{{\"decision\":\"{name}\"}}")).unwrap()
}

fn facts(id: &str) -> ReplayFacts {
    ReplayFacts {
        case_id: id.to_owned(),
        historical_decision: decision("ranked"),
        evidence_origin: "recorded".to_owned(),
        gate_threshold: score(0.3),
        wide_gate: Some(score(0.9)),
        has_rerank: true,
    }
}

fn done() -> ReplayOutcome {
    ReplayOutcome::Recomputed {
        complete: true,
        decision: Some("ranked".to_owned()),
        explanation: None,
    }
}

fn message(r: Result<(), EvaluationError>) -> String {
    match r {
        Err(EvaluationError::InvalidField(message)) => message,
        other => panic!("{other:?}"),
    }
}

#[test]
fn evidence_origins_have_names() {
    assert_eq!(EvidenceOrigin::Synthetic.as_str(), "synthetic");
    assert_eq!(EvidenceOrigin::Recorded.as_str(), "recorded");
    assert_eq!(EvidenceOrigin::Live.as_str(), "live");
}

#[test]
fn a_configuration_is_refused_for_its_first_fault() {
    let good = BatchConfig::offline(1_000);
    assert!(validate_batch_config(&good).is_ok());
    assert!(validate_replay_config(&good).is_ok());
    let online = BatchConfig { online: true, ..good };
    assert_eq!(
        message(validate_batch_config(&online)),
        "online live evaluation requires --allow-network or trusted network consent"
    );
    let consented = BatchConfig { allow_network: true, ..online };
    assert_eq!(
        message(validate_batch_config(&consented)),
        "online live evaluation requires an explicit --max-requests cap"
    );
    let capped = BatchConfig { max_requests: Some(4), ..consented };
    assert!(validate_batch_config(&capped).is_ok());
    assert_eq!(
        message(validate_replay_config(&capped)),
        "a live batch ranks labeled cases fresh; replay datasets run offline"
    );
    assert_eq!(
        message(validate_batch_config(&BatchConfig {
            evidence_origin: EvidenceOrigin::Live,
            ..good
        })),
        "offline replay cannot claim fresh live evidence"
    );
    for runtime in [0, MAX_BATCH_RUNTIME_MS + 1] {
        assert_eq!(
            message(validate_batch_config(&BatchConfig { max_runtime_ms: runtime, ..good })),
            "batch_runtime must be positive and at most 86400000 ms"
        );
    }
    assert_eq!(
        message(validate_batch_config(&BatchConfig { per_case_timeout_ms: Some(0), ..good })),
        "per-case timeout must be positive"
    );
}

#[test]
fn a_dataset_holds_each_case_once_and_no_more_than_its_bound() {
    let mut intake = ReplayIntake::new(2);
    assert_eq!(intake.offer_line(" \t\r\n"), Ok(None));
    assert_eq!(intake.offer_line("  {} \n"), Ok(Some("{}".to_owned())));
    assert!(intake.offer_id("a").is_ok());
    assert!(matches!(intake.offer_id("a"), Err(EvaluationError::CardinalityViolation(_))));
    assert!(matches!(intake.offer_id("  "), Err(EvaluationError::CardinalityViolation(_))));
    assert!(intake.offer_id("b").is_ok());
    assert_eq!(
        intake.offer_line("{}"),
        Err(EvaluationError::RecordLimitReached { count: 3, max: 2 })
    );
    // Blank lines are never records.
    assert_eq!(intake.offer_line("\n"), Ok(None));
    assert_eq!(
        intake.malformed_case("line 3"),
        EvaluationError::InvalidField("malformed replay case: line 3".to_owned())
    );
    let key = CaseKey::new("f", "fam", "case", 0, "p");
    let mut live = LiveIntake::new(5);
    assert_eq!(
        live.offer_key(2, &key, false),
        Err(EvaluationError::UnsupportedVersion(2))
    );
    assert!(matches!(
        live.offer_key(1, &key, true),
        Err(EvaluationError::CardinalityViolation(m)) if m == "empty or duplicate live case key"
    ));
    assert!(live.offer_key(1, &key, false).is_ok());
    assert!(live.offer_key(1, &key, false).is_err());
    assert_eq!(live.offer_line("\u{a0}x"), Ok(Some("x".to_owned())));
    assert_eq!(
        live.malformed_case("oops"),
        EvaluationError::InvalidField("malformed live case: oops".to_owned())
    );
}

#[test]
fn a_gate_that_stopped_needs_one_stage_only() {
    let config = BatchConfig::offline(1_000);
    assert_eq!(required_stages(&facts("a"), &config), 2);
    let stopped = ReplayFacts { wide_gate: Some(score(0.2)), ..facts("a") };
    assert_eq!(required_stages(&stopped, &config), 1);
    let explicit = ReplayFacts { historical_decision: decision("explicit"), ..facts("a") };
    assert_eq!(required_stages(&explicit, &config), 0);
    let unknown = ReplayFacts { wide_gate: None, ..facts("a") };
    assert_eq!(required_stages(&unknown, &config), 2);
    // Of two policies the stricter counts.
    let lenient = Some(ReplayPolicy { gate_threshold: Some(score(0.1)) });
    let compared = BatchConfig { compare_policy: lenient, ..config };
    assert_eq!(required_stages(&stopped, &compared), 2);
    let own = BatchConfig { policy: lenient, ..config };
    assert_eq!(required_stages(&stopped, &own), 2);
    let silent = BatchConfig { policy: Some(ReplayPolicy { gate_threshold: None }), ..config };
    assert_eq!(required_stages(&stopped, &silent), 1);
}

#[test]
fn a_batch_reports_what_it_replayed_and_never_passes_a_gate() {
    let cases = vec![facts("a"), ReplayFacts { wide_gate: None, ..facts("b") }, facts("c")];
    let mut batch = ReplayBatch::open(BatchConfig::offline(1_000), &cases, 0);
    assert!(batch.needs_replay(&cases[0], 0));
    batch.settle(&cases[0], 0, done(), 5, 6);
    assert!(!batch.needs_replay(&cases[1], 6));
    batch.settle(&cases[1], 6, done(), 6, 6);
    assert!(!batch.needs_replay(&cases[2], 1_000));
    batch.settle(&cases[2], 1_000, done(), 1_000, 1_000);
    let report = batch.finish();
    assert_eq!(report.gate_status == GateStatus::Passed, false);
    assert_eq!(report.run_status, RunStatus::Partial);
    assert_eq!(report.evidence_origin, "recorded");
    let ids: Vec<&str> = report.cases.iter().map(|case| case.case_id.as_str()).collect();
    assert_eq!(ids, ["a", "b", "c"]);
    assert_eq!(report.completeness.cases_requested, 3);
    assert_eq!(report.completeness.cases_completed, 1);
    assert_eq!(report.completeness.stages_required, 6);
    assert_eq!(report.completeness.stages_completed, 2);
    assert!(!report.completeness.evidence_compatible);
    assert_eq!(report.cases[0].elapsed_ms, 6);
    assert!(matches!(
        &report.cases[1].status,
        CaseExecutionStatus::NotEstimable { reason } if reason == "missing wide recorded response"
    ));
    assert!(matches!(
        &report.cases[2].status,
        CaseExecutionStatus::Unfinished { reason } if reason == "batch runtime deadline expired"
    ));
    assert_eq!(report.error.unwrap().kind, "deadline-expired");
    assert_eq!(report.accounting.http_attempts, 0);
}

#[test]
fn a_slow_or_incomplete_replay_is_no_success() {
    let cases = vec![facts("slow"), facts("partial"), facts("broken")];
    let config = BatchConfig { per_case_timeout_ms: Some(10), ..BatchConfig::offline(1_000) };
    let mut batch = ReplayBatch::open(config, &cases, 0);
    batch.settle(&cases[0], 0, done(), 10, 10);
    let partial = ReplayOutcome::Recomputed {
        complete: false,
        decision: Some("ranked".to_owned()),
        explanation: Some("rerank is missing".to_owned()),
    };
    batch.settle(&cases[1], 10, partial, 11, 11);
    batch.settle(&cases[2], 11, ReplayOutcome::Failed("bad digest".to_owned()), 12, 12);
    let report = batch.finish();
    assert!(matches!(
        &report.cases[0].status,
        CaseExecutionStatus::OperationalFailure { error_kind, loss: 2 }
            if error_kind == "deadline-expired"
    ));
    assert!(matches!(
        &report.cases[1].status,
        CaseExecutionStatus::NotEstimable { reason } if reason == "rerank is missing"
    ));
    assert!(matches!(
        &report.cases[2].status,
        CaseExecutionStatus::NotEstimable { reason } if reason == "bad digest"
    ));
    assert_eq!(report.loss_summary.total_loss, 2);
    assert_eq!(report.loss_summary.operational_failures, 1);
    // A mean over the failures alone would not represent the cohort.
    assert_eq!(report.mean_operands(), None);
}

#[test]
fn one_synthetic_case_makes_a_batch_synthetic() {
    let cases = vec![
        facts("a"),
        ReplayFacts { evidence_origin: "synthetic".to_owned(), ..facts("b") },
    ];
    let batch = ReplayBatch::open(BatchConfig::offline(1_000), &cases, u64::MAX);
    assert!(batch.synthetic);
    assert_eq!(batch.expires_ms, u64::MAX);
}
