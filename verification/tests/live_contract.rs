//! What `sr eval` promises, from its arguments to the report of a live batch.

use serde_json::Value;
use skillranker::cli::eval::{admit_live, plan_eval, EvalArguments, EvalPlan, EvalRefusal};
use skillranker::cli::live_case::read_preview;
use skillranker::cli::roster::{workspace_failure, WorkspaceFault};
use skillranker::cli::routing::{
    help_text, route, CommandName, HelpTopic, ParsedArguments, ParsedCommand, Route,
};
use skillranker::evaluation::explain::ReportNumbers;
use skillranker::evaluation::frame::{
    report_frame, score_cases, EvaluationBatchReport, LabelStatus, RelevanceClass, ResolvedCase,
};
use skillranker::evaluation::labels::{
    acceptable_for, CaseKey, EvaluationCaseRecord, EvaluationSplit, JudgedLabel, RerankCandidate,
    RerankEvidence, StageEvidence, WideEvidence,
};
use skillranker::evaluation::live::{LiveBatch, LiveBatchLimits, LiveBudget, LiveRankOutcome};
use skillranker::evaluation::preflight::{
    freeze_preflight, part_selected, queue_selected, Preview,
};
use skillranker::evaluation::replay::{BatchConfig, ReplayBatch, ReplayFacts, ReplayOutcome};
use skillranker::evaluation::report::{CaseExecutionStatus, GateStatus, RunStatus};
use skillranker::evaluation::variants::LiveEvaluationCase;
use skillranker::score::Score;

const FIRST: &str = "s_first";
const SECOND: &str = "s_second";

fn score(x: f64) -> Score {
    Score { bits: x.to_bits() }
}

fn json(text: &str) -> Value {
    serde_json::from_str(text).unwrap()
}

fn live_case(id: &str) -> LiveEvaluationCase {
    let family = format!("fam-{id}");
    LiveEvaluationCase {
        schema_version: 1,
        key: CaseKey::new("live-frame", &family, id, 0, "deployed"),
        split: EvaluationSplit::Holdout,
        context: json(
            r#"{"schema_version":1,"current_request":{"text":"Our rust test suite started failing; find out why."},"events":[]}"#,
        ),
    }
}

fn label(id: &str, acceptable: &[&str]) -> JudgedLabel {
    JudgedLabel {
        case_id: id.to_owned(),
        revision: 1,
        acceptable_skills: acceptable.iter().map(|s| (*s).to_owned()).collect(),
        explicit_directive: None,
        no_skill_needed: acceptable.is_empty(),
    }
}

fn receipt() -> Preview {
    read_preview(&json(
        r#"{"disclosure":{"disclosed_bytes":5},"provider_request":{"stages":[{"stage":"wide","request":"{}"}]}}"#,
    ))
}

fn evidence() -> StageEvidence {
    let ids = || vec![FIRST.to_owned(), SECOND.to_owned()];
    let candidate = |id: &str, probability: f64, fit: f64| RerankCandidate {
        id: id.to_owned(),
        probability: score(probability),
        fit: score(fit),
    };
    StageEvidence {
        admitted: ids(),
        quill_ranked: false,
        lexical: Some(ids()),
        lexical_elapsed_ms: 0,
        wide: Some(WideEvidence {
            needs_skill: score(0.8),
            low_need: false,
            shortlist: vec![(FIRST.to_owned(), score(0.6)), (SECOND.to_owned(), score(0.3))],
            intrinsic_shortlist: ids(),
        }),
        rerank: Some(RerankEvidence {
            candidates: vec![candidate(FIRST, 0.6, 0.8), candidate(SECOND, 0.3, 0.5)],
        }),
    }
}

/// The provider's favored first option, after a wide and a rerank request.
fn useful() -> LiveRankOutcome {
    LiveRankOutcome {
        decision: "ranked".to_owned(),
        suggested_skills: vec![FIRST.to_owned()],
        requests: 2,
        http_attempts: 2,
        unknown_usage_attempts: 0,
        input_tokens: 100 + 120,
        output_tokens: 25 + 30,
        error_kind: None,
        elapsed_ms: 12,
        evidence: Some(evidence()),
        attempts_unknown: false,
    }
}

fn unauthorized() -> LiveRankOutcome {
    LiveRankOutcome {
        decision: "unavailable".to_owned(),
        suggested_skills: Vec::new(),
        requests: 1,
        http_attempts: 1,
        input_tokens: 0,
        output_tokens: 0,
        error_kind: Some("authentication".to_owned()),
        evidence: None,
        ..useful()
    }
}

fn resolve(record: EvaluationCaseRecord, labels: &[JudgedLabel]) -> ResolvedCase {
    let judged = labels.iter().find(|l| l.case_id == record.key.case_id);
    let (label_status, relevance_class) = match judged {
        _ if record.operational_failure => {
            (LabelStatus::Resolved, RelevanceClass::OperationalFailure)
        }
        None => (LabelStatus::Missing, RelevanceClass::Unjudged),
        Some(label) => match record.suggested_skills.first() {
            Some(top) if acceptable_for(label, top) => {
                (LabelStatus::Resolved, RelevanceClass::CorrectSuggestion)
            }
            Some(_) => (LabelStatus::Resolved, RelevanceClass::WrongSuggestion),
            None => (LabelStatus::Resolved, RelevanceClass::FalseAbstention),
        },
    };
    ResolvedCase { record, label_status, relevance_class }
}

/// Run a live frame over scripted answers: the report, and how many cases were
/// ranked for it.
fn run_live(
    labels: Vec<JudgedLabel>,
    previews: Vec<Preview>,
    cap: usize,
    answers: Vec<LiveRankOutcome>,
) -> (EvaluationBatchReport, usize) {
    let cases: Vec<_> = labels.iter().map(|l| live_case(&l.case_id)).collect();
    let keys: Vec<_> = cases.iter().map(|case| case.key.clone()).collect();
    let roster = vec![FIRST.to_owned(), SECOND.to_owned()];
    let queue = queue_selected(&cases, &keys).unwrap();
    let (pending, mut skipped) = part_selected(queue, &labels, &roster);
    assert_eq!(previews.len(), pending.len());
    let (preflight, admitted, refused) = freeze_preflight(pending, &previews);
    skipped.extend(refused);
    let limits = LiveBatchLimits {
        max_requests: cap,
        max_runtime_ms: 60_000,
        attempts_per_case: 4,
        fit_threshold: score(0.3),
        gate_threshold: score(0.3),
        robustness_variants: false,
    };
    let budget = LiveBudget::open(limits, 0).unwrap();
    let mut batch = LiveBatch::open(admitted, labels.clone(), skipped, budget);
    let mut answers = answers.into_iter();
    let mut ranked = 0;
    while batch.next_case(0).is_some() {
        batch.settle_case(answers.next().expect("an answer for each ranked case"));
        ranked += 1;
    }
    assert_eq!(batch.next_arm(0), None);
    assert_eq!(batch.next_variant(0), None);
    let distances = batch.executed.iter().map(|_| Some(score(0.5))).collect();
    let (records, mut run) = batch.finish(&keys, &distances, preflight);
    let resolved: Vec<_> = records.into_iter().map(|r| resolve(r, &labels)).collect();
    let skipped = std::mem::take(&mut run.skipped);
    let scored = score_cases(&resolved, &run.elapsed, skipped);
    (report_frame(scored, true, None, None, run), ranked)
}

fn no_arguments() -> EvalArguments {
    EvalArguments {
        dataset: None,
        labels: None,
        sample_size: None,
        seed: None,
        online: false,
        robustness: false,
        allow_network: false,
        max_requests: None,
        max_runtime_ms: None,
        timeout_ms: None,
    }
}

fn refusal(args: &EvalArguments) -> (u8, &'static str, String) {
    match plan_eval(args, 60_000) {
        Err(EvalRefusal::Failure(failure)) => failure,
        _ => panic!("a refusal"),
    }
}

#[test]
fn eval_help_flag_succeeds_and_documents_options() {
    let parsed = ParsedArguments {
        help: false,
        version: false,
        command: Some(ParsedCommand {
            name: CommandName::Eval,
            help: true,
            nested: false,
            harness: false,
            harness_help: false,
            planned: None,
        }),
    };
    assert_eq!(route(&parsed, "harness"), Ok(Route::Help(HelpTopic::Eval)));
    let help = help_text(HelpTopic::Eval, "harness");
    assert!(help.contains("sr eval --dataset FILE"));
    assert!(help.contains("--online"));
    assert!(help.contains("--max-requests"));
    assert!(help.contains("--max-runtime-ms"));
}

#[test]
fn eval_without_dataset_fails_with_invalid_usage() {
    let (code, kind, message) = refusal(&no_arguments());
    assert_eq!((code, kind), (2, "invalid-usage"));
    assert!(message.contains("dataset"));
}

#[test]
fn eval_offline_replay_batch_succeeds_with_json_report() {
    let args = EvalArguments { dataset: Some("dataset.jsonl".to_owned()), ..no_arguments() };
    assert!(matches!(plan_eval(&args, 60_000), Ok(EvalPlan::Replay { .. })));
    let cases = vec![ReplayFacts {
        case_id: "case".to_owned(),
        historical_decision: json(r#"{"decision":"ranked"}"#),
        evidence_origin: "recorded".to_owned(),
        gate_threshold: score(0.3),
        wide_gate: Some(score(0.8)),
        has_rerank: true,
    }];
    let mut batch = ReplayBatch::open(BatchConfig::offline(60_000), &cases, 0);
    let recomputed = ReplayOutcome::Recomputed {
        complete: true,
        decision: Some("ranked".to_owned()),
        explanation: None,
    };
    batch.settle(&cases[0], 0, recomputed, 1, 1);
    let report = batch.finish();
    assert_eq!(report.kind, "report");
    assert_eq!(report.run_status, RunStatus::Complete);
    assert_eq!(report.evidence_origin, "recorded");
    assert_eq!(report.completeness.cases_requested, 1);
    assert_eq!(report.completeness.cases_completed, 1);
    assert_eq!(report.accounting.http_attempts, 0);
    assert_eq!(report.accounting.requests, 0);
}

#[test]
fn a_live_batch_needs_labels_consent_a_cap_and_a_key_before_reading_input() {
    let missing = || Some("/missing".to_owned());
    let four = || Some("4".to_owned());
    let dataset = EvalArguments { dataset: missing(), ..no_arguments() };
    let online = EvalArguments {
        online: true,
        allow_network: true,
        max_requests: four(),
        ..dataset.clone()
    };
    assert_eq!((refusal(&online).0, refusal(&online).1), (2, "invalid-usage"));
    let offline =
        EvalArguments { labels: missing(), max_requests: four(), ..dataset.clone() };
    assert_eq!((refusal(&offline).0, refusal(&offline).1), (2, "invalid-usage"));
    let uncapped = EvalArguments { labels: missing(), max_requests: None, ..online.clone() };
    assert_eq!(refusal(&uncapped).0, 2);
    let none = EvalArguments {
        labels: missing(),
        max_requests: Some("0".to_owned()),
        ..online.clone()
    };
    assert_eq!(refusal(&none).0, 2);
    let live = EvalArguments { labels: missing(), ..online };
    assert!(matches!(
        plan_eval(&live, 60_000),
        Ok(EvalPlan::Live { max_requests: 4, max_runtime_ms: 60_000, sampling: None })
    ));
    // Consent, then the key, before any input is opened.
    let (code, kind, _) = admit_live(true, false, false).unwrap_err();
    assert_eq!((code, kind), (8, "network-denied"));
    let (code, kind, _) = admit_live(true, true, false).unwrap_err();
    assert_eq!((code, kind), (4, "credential-absent"));
    // Offline replay of a recorded dataset still runs.
    assert!(matches!(plan_eval(&dataset, 60_000), Ok(EvalPlan::Replay { .. })));
}

#[test]
fn a_live_batch_ranks_each_case_fresh_and_accounts_every_attempt() {
    let labels = vec![label("case-a", &[FIRST]), label("case-b", &[SECOND])];
    let (mut report, ranked) =
        run_live(labels, vec![receipt(), receipt()], 8, vec![useful(), useful()]);
    assert_eq!(ranked, 2);
    assert_eq!(report.evidence_origin, "live");
    assert_eq!(report.run_status, RunStatus::Complete);
    assert_eq!(report.gate_status, GateStatus::NotEstablished);
    assert_eq!(report.completeness.cases_requested, 2);
    assert_eq!(report.completeness.cases_completed, 2);
    assert_eq!(report.accounting.http_attempts, 4);
    assert_eq!(report.accounting.requests, 4);
    assert_eq!(report.accounting.input_tokens, 2 * (100 + 120));
    assert_eq!(report.accounting.output_tokens, 2 * (25 + 30));
    for case in &report.cases {
        assert!(matches!(
            &case.status,
            CaseExecutionStatus::Completed { decision, .. } if decision == "ranked"
        ));
    }
    // One label matches the favored option and the other does not: 0 + 2.
    assert_eq!(report.loss_summary.total_loss, 2);
    let numbers = ReportNumbers {
        mean_loss: None,
        mean_normalized_loss: None,
        loss_unit: "1".to_owned(),
        harm_bound: None,
    };
    report.explain(&numbers);
    let explanation = report.explanation.as_ref().unwrap();
    assert!(explanation.assumptions.iter().any(|a| a.contains("evaluation_policy.v1")));
    let frozen = report.disclosure_preflight.as_ref().unwrap();
    assert_eq!(frozen.cases_checked, 2);
    assert_eq!(frozen.cases_refused, 0);
    assert!(frozen.disclosed_bytes > 0);
    assert_eq!(frozen.receipts_digest.len(), 64);
    let baselines = report.baselines.as_ref().unwrap();
    let names: Vec<&str> = baselines.policies.iter().map(|p| p.policy.as_str()).collect();
    assert_eq!(names, ["quill-only", "choice-only", "fit-only", "cookbook-approx", "blend"]);
    assert_eq!(baselines.policies[0].not_evaluated_cases, 0);
    assert_eq!(baselines.coverage.admitted.denominator, 2);
    assert_eq!(baselines.coverage.admitted.successes, 2);
    assert_eq!(baselines.cases_without_evidence, 0);
}

#[test]
fn a_preview_that_ends_locally_is_counted_as_sending_nothing() {
    let labels = vec![label("local", &[FIRST]), label("sent", &[FIRST])];
    // Its preview's null disclosure is not a receipt.
    let local = read_preview(&json(
        r#"{"disclosure":null,"local_decision":{"decision":"explicit"}}"#,
    ));
    let explicit = LiveRankOutcome {
        decision: "explicit".to_owned(),
        requests: 0,
        http_attempts: 0,
        input_tokens: 0,
        output_tokens: 0,
        evidence: None,
        ..useful()
    };
    let (report, _) = run_live(labels, vec![local, receipt()], 8, vec![explicit, useful()]);
    // Only the advisory case reached the provider.
    assert_eq!(report.accounting.http_attempts, 2);
    let frozen = report.disclosure_preflight.unwrap();
    assert_eq!(frozen.cases_checked, 2);
    assert_eq!(frozen.cases_refused, 0);
    assert_eq!(frozen.cases_without_request, 1);
}

#[test]
fn the_request_cap_admits_a_case_only_while_its_worst_case_fits() {
    let labels =
        vec![label("case-a", &[FIRST]), label("case-b", &[FIRST]), label("case-c", &[FIRST])];
    let previews = vec![receipt(), receipt(), receipt()];
    // Four attempts cover exactly one ranking's worst case.
    let (report, ranked) = run_live(labels, previews, 4, vec![useful()]);
    assert_eq!(ranked, 1);
    assert_eq!(report.accounting.http_attempts, 2);
    assert_eq!(report.run_status, RunStatus::Partial);
    assert_eq!(report.completeness.cases_requested, 3);
    assert_eq!(report.completeness.cases_completed, 1);
    assert_eq!(report.loss_summary.unfinished_cases, 2);
    assert_eq!(report.error.as_ref().unwrap().kind, "request-budget");
    let unfinished = report
        .cases
        .iter()
        .filter(|case| matches!(case.status, CaseExecutionStatus::Unfinished { .. }))
        .count();
    assert_eq!(unfinished, 2);
    // Never-ranked cases carry no loss and are not counted as successes.
    assert_eq!(report.loss_summary.attempted_cases, 1);
}

#[test]
fn a_fatal_authentication_error_stops_the_batch_after_partial_work() {
    let labels = vec![label("case-a", &[FIRST]), label("case-b", &[FIRST])];
    let (report, ranked) =
        run_live(labels, vec![receipt(), receipt()], 20, vec![unauthorized()]);
    // The second case is never sent.
    assert_eq!(ranked, 1);
    assert_eq!(report.accounting.http_attempts, 1);
    assert_eq!(report.run_status, RunStatus::Partial);
    assert_eq!(report.error.as_ref().unwrap().kind, "authentication");
    assert_eq!(report.loss_summary.operational_failures, 1);
    assert_eq!(report.loss_summary.unfinished_cases, 1);
}

#[test]
fn a_label_naming_a_skill_off_the_current_roster_is_never_sent() {
    let gone = "s_0000000000000000000000000000000000000000000000000000000000000000";
    let labels = vec![label("case-a", &[FIRST]), label("case-gone", &[gone])];
    let (report, ranked) = run_live(labels, vec![receipt()], 8, vec![useful()]);
    assert_eq!(ranked, 1);
    assert_eq!(report.run_status, RunStatus::Partial);
    let case = report.cases.iter().find(|case| case.case_id == "case-gone").unwrap();
    assert!(matches!(
        &case.status,
        CaseExecutionStatus::NotEstimable { reason } if reason.contains("current roster")
    ));
    assert_eq!(report.loss_summary.not_estimable_cases, 1);
}

#[test]
fn expired_roster_runtime_is_a_timeout_not_an_invalid_roster() {
    let result = workspace_failure(WorkspaceFault::Deadline);
    assert!(matches!(result, (6, "timeout", _)), "{result:?}");
}
