//! Live batches: previews, caps, stops, arms and variants.

use serde_json::Value;
use skillranker::cli::live_case::{
    bind_preview, expected_digest, failed_outcome, read_outcome, read_preview, wide_request,
};
use skillranker::evaluation::labels::{
    CaseKey, EvaluationSplit, JudgedLabel, RerankCandidate, RerankEvidence, StageEvidence,
    WideEvidence,
};
use skillranker::evaluation::live::{
    charged_attempts, find_fatal, AblationArm, LiveBatch, LiveBatchLimits, LiveBudget,
    LiveRankOutcome, QueuedCase,
};
use skillranker::evaluation::preflight::{
    freeze_preflight, part_selected, pending_case, queue_selected, receipt_total, Preview,
    PREFLIGHT_SCOPE,
};
use skillranker::evaluation::report::{EvaluationError, SkipStatus};
use skillranker::evaluation::settled::order_skipped;
use skillranker::evaluation::variants::{
    latest_request_only, request_variant, vary, LiveEvaluationCase, RobustnessReport, VariantKind,
};
use skillranker::score::Score;
use skillranker::text::split_words;

fn score(x: f64) -> Score {
    Score { bits: x.to_bits() }
}

fn json(text: &str) -> Value {
    serde_json::from_str(text).unwrap()
}

fn key(id: &str) -> CaseKey {
    CaseKey::new("frame", id, id, 0, "policy")
}

fn case(id: &str, context: &str) -> LiveEvaluationCase {
    LiveEvaluationCase {
        schema_version: 1,
        key: key(id),
        split: EvaluationSplit::Holdout,
        context: json(context),
    }
}

fn plain_case(id: &str) -> LiveEvaluationCase {
    case(id, r#"{"current_request":{"event_id":"e1","text":"fix the test"},"events":[]}"#)
}

fn label(id: &str, acceptable: &[&str]) -> JudgedLabel {
    JudgedLabel {
        case_id: id.to_owned(),
        revision: 1,
        acceptable_skills: acceptable.iter().map(|s| (*s).to_owned()).collect(),
        explicit_directive: None,
        no_skill_needed: acceptable.is_empty(),
    }
}

fn evidence() -> StageEvidence {
    StageEvidence {
        admitted: vec!["a".to_owned()],
        quill_ranked: false,
        lexical: Some(vec!["a".to_owned()]),
        lexical_elapsed_ms: 4,
        wide: Some(WideEvidence {
            needs_skill: score(0.9),
            low_need: false,
            shortlist: vec![("a".to_owned(), score(0.7))],
            intrinsic_shortlist: vec!["a".to_owned()],
        }),
        rerank: Some(RerankEvidence {
            candidates: vec![RerankCandidate {
                id: "a".to_owned(),
                probability: score(0.8),
                fit: score(0.9),
            }],
        }),
    }
}

fn answered(skills: &[&str], attempts: usize) -> LiveRankOutcome {
    LiveRankOutcome {
        decision: "ranked".to_owned(),
        suggested_skills: skills.iter().map(|s| (*s).to_owned()).collect(),
        requests: 2,
        http_attempts: attempts,
        unknown_usage_attempts: 0,
        input_tokens: 100,
        output_tokens: 20,
        error_kind: None,
        elapsed_ms: 30,
        evidence: Some(evidence()),
        attempts_unknown: false,
    }
}

fn failed(kind: &str) -> LiveRankOutcome {
    LiveRankOutcome {
        decision: "unavailable".to_owned(),
        suggested_skills: Vec::new(),
        requests: 1,
        http_attempts: 1,
        unknown_usage_attempts: 0,
        input_tokens: 0,
        output_tokens: 0,
        error_kind: Some(kind.to_owned()),
        elapsed_ms: 5,
        evidence: None,
        attempts_unknown: false,
    }
}

fn limits(max_requests: usize) -> LiveBatchLimits {
    LiveBatchLimits {
        max_requests,
        max_runtime_ms: 1_000,
        attempts_per_case: 4,
        fit_threshold: score(0.5),
        gate_threshold: score(0.3),
        robustness_variants: true,
    }
}

fn batch(cases: Vec<LiveEvaluationCase>, judgments: Vec<JudgedLabel>, cap: usize) -> LiveBatch {
    let queue: Vec<QueuedCase> = cases.into_iter().map(pending_case).collect();
    LiveBatch::open(queue, judgments, Vec::new(), LiveBudget::open(limits(cap), 0).unwrap())
}

#[test]
fn the_request_cap_lets_a_case_in_only_while_its_worst_case_fits() {
    let cases = vec![plain_case("a"), plain_case("b"), plain_case("c")];
    let labels = vec![label("a", &["a"]), label("b", &["a"]), label("c", &["a"])];
    let mut batch = batch(cases, labels, 8);
    assert_eq!(batch.next_case(0), Some(0));
    batch.settle_case(answered(&["a"], 2));
    assert_eq!(batch.next_case(0), Some(1));
    batch.settle_case(answered(&["b"], 3));
    // 5 spent of 8: a third case might need 4.
    assert_eq!(batch.next_case(0), None);
    let stopped = batch.budget.stopped.clone().unwrap();
    assert_eq!(stopped.reason, "request cap reached before this case");
    assert_eq!((stopped.error.code, stopped.error.kind.as_str()), (4, "request-budget"));
    assert_eq!(batch.budget.accounting.http_attempts, 5);
    assert_eq!(batch.budget.accounting.requests, 4);
    assert_eq!(batch.budget.accounting.input_tokens, 200);
    assert_eq!(batch.executed.len(), 2);
    assert_eq!(batch.skipped.len(), 1);
    assert_eq!(batch.skipped[0].key, key("c"));
    assert!(matches!(batch.skipped[0].status, SkipStatus::Unfinished { .. }));
}

#[test]
fn a_fatal_error_stops_the_batch_after_partial_work() {
    let cases = vec![plain_case("a"), plain_case("b")];
    let mut batch = batch(cases, vec![label("a", &["a"]), label("b", &["a"])], 100);
    assert_eq!(batch.next_case(0), Some(0));
    batch.settle_case(failed("authentication"));
    assert_eq!(batch.next_case(0), None);
    let stopped = batch.budget.stopped.clone().unwrap();
    assert_eq!(stopped.reason, "stopped after a fatal authentication error");
    assert_eq!(stopped.error.code, 4);
    assert!(batch.executed[0].record.operational_failure);
    assert_eq!(batch.skipped[0].key, key("b"));
    assert_eq!(find_fatal("network-denied"), Some(8));
    assert_eq!(find_fatal("credential-absent"), Some(4));
    assert_eq!(find_fatal("timeout"), None);
}

#[test]
fn a_batch_past_its_deadline_sends_nothing_more() {
    let mut batch = batch(vec![plain_case("a"), plain_case("b")], vec![label("a", &["a"])], 100);
    assert_eq!(batch.next_case(999), Some(0));
    batch.settle_case(answered(&["a"], 1));
    assert_eq!(batch.next_case(1_000), None);
    assert_eq!(
        batch.budget.stopped.as_ref().unwrap().reason,
        "batch runtime deadline expired"
    );
    // No later time lifts the stop.
    assert!(!batch.budget.fits(0));
}

#[test]
fn unknown_attempts_are_charged_at_their_worst() {
    let mut unknown = answered(&[], 1);
    unknown.attempts_unknown = true;
    assert_eq!(charged_attempts(&unknown, 4), (4, 4));
    unknown.http_attempts = 6;
    assert_eq!(charged_attempts(&unknown, 4), (6, 4));
    assert_eq!(charged_attempts(&answered(&[], 1), 4), (1, 0));
    let mut batch = batch(vec![plain_case("a"), plain_case("b")], vec![label("a", &["a"])], 7);
    assert_eq!(batch.next_case(0), Some(0));
    let mut lost = failed("timeout");
    lost.attempts_unknown = true;
    batch.settle_case(lost);
    assert_eq!(batch.budget.accounting.http_attempts, 4);
    // 4 of 7 may be gone: the next worst case does not fit.
    assert_eq!(batch.next_case(0), None);
}

#[test]
fn caps_must_be_positive() {
    for bad in [
        LiveBatchLimits { max_requests: 0, ..limits(1) },
        LiveBatchLimits { attempts_per_case: 0, ..limits(1) },
        LiveBatchLimits { max_runtime_ms: 0, ..limits(1) },
    ] {
        assert!(matches!(
            LiveBudget::open(bad, 0),
            Err(EvaluationError::InvalidField(m))
                if m == "live batches need positive request, attempt and runtime caps"
        ));
    }
    assert_eq!(LiveBudget::open(limits(1), u64::MAX).unwrap().expires_ms, u64::MAX);
}

#[test]
fn arms_and_variants_run_on_what_budget_remains() {
    let history = case(
        "a",
        r#"{"current_request":{"event_id":"e2","text":"fix it"},"events":[{"event_id":"e1"},{"event_id":"e2"}]}"#,
    );
    let mut batch = batch(
        vec![history, plain_case("b")],
        vec![label("a", &["a"]), label("b", &["a"])],
        1_000,
    );
    assert_eq!(batch.next_case(0), Some(0));
    batch.settle_case(answered(&["a"], 2));
    assert_eq!(batch.next_case(0), Some(1));
    batch.settle_case(answered(&["b"], 2));
    assert_eq!(batch.next_case(0), None);
    assert!(batch.budget.stopped.is_none());
    // Only the case with history has a second arm.
    assert_eq!(batch.next_arm(0), Some(0));
    let arm = batch.ablated_case(0).unwrap();
    assert_eq!(arm.context["events"], Value::Array(Vec::new()));
    assert_eq!(arm.context["current_request"]["text"], "fix it");
    batch.settle_arm(answered(&["c"], 2));
    assert_eq!(batch.arms[0], AblationArm::Answered(vec!["c".to_owned()]));
    assert_eq!(batch.next_arm(0), None);
    assert_eq!(batch.arms[1], AblationArm::Absent);
    let mut ranked = Vec::new();
    while let Some((i, kind)) = batch.next_variant(0) {
        ranked.push((i, kind));
        assert!(batch.varied_case(i, kind).is_some());
        // The hostile variant of the first case loses the acceptable skill.
        if i == 0 && kind == VariantKind::HostileInstruction {
            batch.settle_variant(answered(&["sr-decoy-skill"], 2));
        } else if i == 1 && kind == VariantKind::LongDistraction {
            batch.settle_variant(failed("timeout"));
        } else {
            batch.settle_variant(answered(&["a"], 2));
        }
    }
    assert_eq!(ranked.len(), 6);
    let by_kind = |kind: VariantKind| {
        *batch.robustness.variants.iter().find(|v| v.kind == Some(kind)).unwrap()
    };
    let whitespace = by_kind(VariantKind::EquivalentWhitespace);
    assert_eq!((whitespace.cases, whitespace.top1_changed, whitespace.hit_gained), (2, 1, 1));
    let hostile = by_kind(VariantKind::HostileInstruction);
    assert_eq!((hostile.cases, hostile.hit_lost, hostile.hit_gained), (2, 1, 1));
    let long = by_kind(VariantKind::LongDistraction);
    assert_eq!((long.cases, long.failures, long.not_run), (1, 1, 0));
    let (frozen, _, _) = freeze_preflight(Vec::new(), &Vec::new());
    let (records, run) = batch.finish(&vec![key("a"), key("b")], &vec![None, None], frozen);
    assert_eq!(records.len(), 2);
    assert_eq!(run.evidence_origin, "live");
    assert_eq!(run.elapsed[0].1, 30);
    let baselines = run.baselines.unwrap();
    // Wall time without the evaluation-only lexical pass.
    assert_eq!(baselines.latency_ms.unwrap().p50, 26);
    let ablation = baselines.context_ablation.unwrap();
    assert_eq!((ablation.cases, ablation.arm_failures, ablation.skipped_for_budget), (1, 0, 0));
    assert_eq!(ablation.recent_context.top1_precision.successes, 1);
    assert_eq!(ablation.latest_request_only.top1_precision.successes, 0);
    // Every policy shares one cohort.
    for policy in &baselines.policies {
        assert_eq!(policy.evaluated_cases, baselines.shared_cohort_cases);
        assert_eq!(policy.not_evaluated_cases, baselines.excluded_unscorable);
    }
    assert_eq!(run.review_queue.unwrap().selection, "diagnostic-outcome-selected");
}

#[test]
fn each_varying_case_counts_once_under_each_kind() {
    let mut batch = batch(
        vec![plain_case("a"), plain_case("b"), plain_case("open")],
        vec![label("a", &["a"]), label("b", &["a"])],
        30,
    );
    for skills in [["a"], ["b"], ["a"]] {
        assert!(batch.next_case(0).is_some());
        batch.settle_case(answered(&skills, 2));
    }
    assert_eq!(batch.next_case(0), None);
    assert_eq!(batch.next_arm(0), None);
    let mut sent = 0;
    while batch.next_variant(0).is_some() {
        sent += 1;
        if sent == 2 {
            batch.settle_variant(failed("timeout"));
        } else {
            batch.settle_variant(answered(&["c"], 10));
        }
    }
    // The unjudged case has no variants; the last ones no longer fit.
    assert!(sent < 6);
    let kinds: Vec<_> = batch.robustness.variants.iter().map(|v| v.kind.unwrap()).collect();
    assert_eq!(
        kinds,
        [
            VariantKind::EquivalentWhitespace,
            VariantKind::LongDistraction,
            VariantKind::HostileInstruction,
        ]
    );
    for v in &batch.robustness.variants {
        assert_eq!(v.cases + v.failures + v.not_run, 2);
        assert!(v.hit_lost + v.hit_gained <= v.top1_changed && v.top1_changed <= v.cases);
    }
}

#[test]
fn skipped_cases_come_in_the_order_they_were_selected() {
    let cases = vec![plain_case("a"), plain_case("late"), plain_case("refused")];
    let keys = vec![key("a"), key("late"), key("refused")];
    let queue = queue_selected(&cases, &keys).unwrap();
    let previews = vec![Preview::Local, Preview::Local, Preview::Refused("no context".to_owned())];
    let (frozen, admitted, refused) = freeze_preflight(queue, &previews);
    assert_eq!(refused.len(), 1);
    let budget = LiveBudget::open(limits(5), 0).unwrap();
    let mut batch = LiveBatch::open(admitted, vec![label("a", &["a"])], refused, budget);
    assert_eq!(batch.next_case(0), Some(0));
    batch.settle_case(answered(&["a"], 2));
    assert_eq!(batch.next_case(0), None);
    assert_eq!(batch.skipped[0].key, key("refused"));
    let (_, run) = batch.finish(&keys, &vec![None], frozen);
    let order: Vec<_> = run.skipped.iter().map(|s| s.key.clone()).collect();
    assert_eq!(order, [key("late"), key("refused")]);
    assert!(matches!(run.skipped[0].status, SkipStatus::Unfinished { .. }));
    let reversed = order_skipped(&vec![key("refused")], run.skipped);
    assert_eq!(reversed[0].key, key("refused"));
    assert_eq!(reversed[1].key, key("late"));
}

#[test]
fn arms_beyond_the_cap_are_skipped_not_failed() {
    let history = case(
        "a",
        r#"{"current_request":{"event_id":"e2","text":"fix it"},"events":[{"event_id":"e1"}]}"#,
    );
    let mut batch = batch(vec![history], vec![label("a", &["a"])], 5);
    assert_eq!(batch.next_case(0), Some(0));
    batch.settle_case(answered(&["a"], 2));
    assert_eq!(batch.next_arm(0), None);
    assert_eq!(batch.arms[0], AblationArm::Skipped);
    assert_eq!(batch.next_variant(0), None);
    assert_eq!(batch.robustness.variants[0].not_run, 1);
}

#[test]
fn a_case_without_judgment_or_off_the_roster_is_never_sent() {
    let cases = vec![plain_case("a"), plain_case("gone"), plain_case("open")];
    let queue =
        queue_selected(&cases, &vec![key("a"), key("gone"), key("open")]).expect("all named");
    for queued in &queue {
        assert!(queued.record.suggested_skills.is_empty());
        assert!(!queued.record.relevance_abstention && !queued.record.operational_failure);
    }
    let judgments = vec![label("a", &["a"]), label("gone", &["missing-skill"])];
    let (pending, skipped) = part_selected(queue, &judgments, &vec!["a".to_owned()]);
    assert_eq!(pending.len(), 1);
    assert_eq!(pending[0].record.decision, "pending");
    let reason = |i: usize| match &skipped[i].status {
        SkipStatus::NotEstimable { reason } => reason.clone(),
        other => panic!("{other:?}"),
    };
    assert_eq!(reason(0), "a judged skill is absent from the current roster; not sent");
    assert_eq!(reason(1), "no independent judgment for this case; not sent");
    assert!(queue_selected(&cases, &vec![key("absent")]).is_none());
}

#[test]
fn a_preflight_freezes_what_will_be_disclosed() {
    let pending: Vec<QueuedCase> =
        ["local", "sent", "bad"].iter().map(|id| pending_case(plain_case(id))).collect();
    let receipt = json(
        r#"{"disclosed_bytes":10,"total_redactions":1,"total_truncated":2,"total_omitted":3,"wide_request_bytes":40}"#,
    );
    let previews = vec![
        Preview::Local,
        Preview::Receipt(receipt),
        Preview::Refused("context-too-large".to_owned()),
    ];
    assert_eq!(receipt_total(&previews, "disclosed_bytes"), Some(10));
    let (frozen, cleared, refused) = freeze_preflight(pending, &previews);
    assert_eq!(frozen.scope, PREFLIGHT_SCOPE);
    assert_eq!(frozen.cases_checked, 3);
    assert_eq!(frozen.cases_refused, 1);
    assert_eq!(frozen.cases_without_request, 1);
    assert_eq!(frozen.wide_request_bytes, 40);
    assert_eq!((frozen.total_redactions, frozen.total_truncated, frozen.total_omitted), (1, 2, 3));
    assert_eq!(frozen.receipts_digest.len(), 64);
    assert_eq!(cleared.len() + refused.len(), 3);
    assert_eq!(refused[0].key, key("bad"));
    assert!(matches!(
        &refused[0].status,
        SkipStatus::NotEstimable { reason }
            if reason == "disclosure preflight refused (context-too-large); not sent"
    ));
}

#[test]
fn an_empty_preflight_digests_its_name_alone() {
    let (frozen, _, _) = freeze_preflight(Vec::new(), &Vec::new());
    let digest = blake3::hash(b"skillranker:live_disclosure_preflight:v1\n");
    assert_eq!(frozen.receipts_digest, digest.to_hex().to_string());
}

#[test]
fn the_digest_frames_each_case_and_receipt() {
    let receipt = json(r#"{"b":1,"a":2}"#);
    let previews = vec![Preview::Receipt(receipt), Preview::Refused("k".to_owned())];
    let pending = vec![pending_case(plain_case("x")), pending_case(plain_case("yy"))];
    let (frozen, _, _) = freeze_preflight(pending, &previews);
    let mut bytes = b"skillranker:live_disclosure_preflight:v1\n".to_vec();
    bytes.extend(1u64.to_le_bytes());
    bytes.extend(b"x");
    let wire = br#"{"a":2,"b":1}"#;
    bytes.extend((wire.len() as u64).to_le_bytes());
    bytes.extend(wire);
    bytes.extend(2u64.to_le_bytes());
    bytes.extend(b"yy");
    bytes.extend(b"refused\0k");
    assert_eq!(frozen.receipts_digest, blake3::hash(&bytes).to_hex().to_string());
}

#[test]
fn a_preview_says_what_a_live_run_would_send() {
    let sent = json(
        r#"{"disclosure":{"disclosed_bytes":5},"provider_request":{"stages":[{"stage":"rerank","request":"no"},{"stage":"wide","request":"h\u00e9"}]}}"#,
    );
    match read_preview(&sent) {
        Preview::Receipt(receipt) => {
            assert_eq!(receipt["disclosed_bytes"], 5);
            // In bytes, as sent.
            assert_eq!(receipt["wide_request_bytes"], 3);
        }
        _ => panic!("a receipt"),
    }
    let local = json(r#"{"disclosure":null,"local_decision":{"decision":"explicit"}}"#);
    assert!(matches!(read_preview(&local), Preview::Local));
    let refused = json(
        r#"{"disclosure":null,"decision":"unavailable","error":{"kind":"empty-roster"}}"#,
    );
    assert!(matches!(read_preview(&refused), Preview::Refused(kind) if kind == "empty-roster"));
    let odd = json(r#"{"disclosure":null}"#);
    assert!(matches!(read_preview(&odd), Preview::Refused(kind) if kind == "unavailable"));
}

#[test]
fn a_send_is_held_to_the_digest_of_its_preview() {
    let context = json(r#"{"text":"a"}"#);
    let other = json(r#"{"text":"b"}"#);
    let nothing = json("{}");
    assert!(wide_request(&nothing).is_none());
    assert!(bind_preview("x", &context, &nothing).is_none());
    let document = json(
        r#"{"provider_request":{"stages":[{"stage":"wide","request":"wide bytes"}]}}"#,
    );
    assert_eq!(wide_request(&document), Some("wide bytes"));
    let bound = bind_preview("x", &context, &document).unwrap();
    let digest = *blake3::hash(b"wide bytes").as_bytes();
    assert_eq!(bound.digest, digest);
    let previews = vec![bound];
    assert_eq!(expected_digest(&previews, "x", &context), Some(digest));
    assert_eq!(expected_digest(&previews, "x", &other), None);
    assert_eq!(expected_digest(&previews, "y", &context), None);
}

#[test]
fn an_outcome_reads_its_own_usage() {
    let document = json(
        r#"{"decision":"ranked","skills":[{"skill_id":"a"},{"x":1},{"skill_id":"b"}],"usage":{"requests":2,"http_attempts":3,"unknown_usage_attempts":1,"input_tokens":120,"output_tokens":25}}"#,
    );
    let outcome = read_outcome(&document, 9, evidence());
    assert_eq!(outcome.decision, "ranked");
    assert_eq!(outcome.suggested_skills, ["a", "b"]);
    assert_eq!((outcome.requests, outcome.http_attempts), (2, 3));
    assert_eq!(outcome.unknown_usage_attempts, 1);
    assert_eq!((outcome.input_tokens, outcome.output_tokens), (120, 25));
    assert_eq!(outcome.elapsed_ms, 9);
    assert_eq!(outcome.error_kind, None);
    assert!(!outcome.attempts_unknown);
    // A run that admitted candidates may have sent requests: unknown, never zero.
    let lost = failed_outcome("timeout", 7, &evidence());
    assert!(lost.attempts_unknown);
    assert_eq!(lost.error_kind.as_deref(), Some("timeout"));
    let early = StageEvidence { admitted: Vec::new(), ..evidence() };
    assert!(!failed_outcome("timeout", 7, &early).attempts_unknown);
}

#[test]
fn a_single_turn_case_has_no_second_arm() {
    assert!(latest_request_only(&plain_case("a")).is_none());
    let own = case("a", r#"{"current_request":{"event_id":"e"},"events":[{"event_id":"e"}]}"#);
    assert!(latest_request_only(&own).is_none());
    let anonymous = case("a", r#"{"current_request":{},"events":[{"text":"x"}]}"#);
    assert!(latest_request_only(&anonymous).is_some());
}

#[test]
fn variants_change_the_request_text_alone() {
    let words = |s: &str| split_words(s);
    let request = "  fix \t the\nfailing   test ";
    let spaced = vary(VariantKind::EquivalentWhitespace, request);
    assert_eq!(words(&spaced), words(request));
    assert_eq!(words(&spaced), ["fix", "the", "failing", "test"]);
    assert_eq!(spaced, "  fix  \n the  \n failing  \n test\n");
    for kind in [VariantKind::LongDistraction, VariantKind::HostileInstruction] {
        assert!(vary(kind, request).starts_with(request));
    }
    let varied = request_variant(&plain_case("a"), VariantKind::HostileInstruction).unwrap();
    assert_eq!(varied.key, key("a"));
    assert_eq!(varied.context["current_request"]["event_id"], "e1");
    assert!(varied.context["current_request"]["text"]
        .as_str()
        .unwrap()
        .contains("sr-decoy-skill"));
    assert!(request_variant(&case("a", "{}"), VariantKind::LongDistraction).is_none());
    let mut report = RobustnessReport::new(&vec![VariantKind::LongDistraction]);
    report.score_mut(VariantKind::LongDistraction).cases += 1;
    assert_eq!(report.variants[0].cases, 1);
}
