//! What an evaluation command accepts, and how a labeled frame is scored.

use skillranker::cli::eval::{
    case_budget, input_failure, live_authorized, plan_eval, EvalArguments, EvalPlan, EvalRefusal,
};
use skillranker::cli::grammar::{arguments, is_coherent, CommandPath};
use skillranker::cli::routing::{help_text, route, CommandName, HelpTopic, ParsedArguments, ParsedCommand, Route};
use skillranker::evaluation::explain::{
    harmful_count, harmful_outcome_card, DesignLoss, HarmBound, Number, ReportNumbers,
    SampleSummary, StratumLoss,
};
use skillranker::evaluation::frame::{
    report_frame, refused_report, score_cases, weighs_design, DesignStatus, EvaluationBatchReport,
    FrameRun, LabelStatus, RelevanceClass, ResolvedCase,
};
use skillranker::evaluation::labels::{CaseKey, EvaluationCaseRecord, EvaluationSplit};
use skillranker::evaluation::replay::BatchConfig;
use skillranker::evaluation::report::{
    BatchLossSummary, CaseExecutionStatus, EvaluationError, GateStatus, RunStatus, SkipStatus,
    SkippedCase,
};
use skillranker::evaluation::sampling::{
    frame_scope, plan_draw, sampled, seed_source, FrameSampling, SeedSource,
};
use skillranker::score::Score;

const DAY_MS: u64 = 86_400_000;

fn score(x: f64) -> Score {
    Score { bits: x.to_bits() }
}

fn bare() -> EvalArguments {
    EvalArguments {
        dataset: Some("missing-dataset".to_owned()),
        labels: None,
        sample_size: None,
        seed: None,
        online: false,
        robustness: false,
        allow_network: false,
        max_requests: None,
        max_runtime_ms: None,
        timeout_ms: None,
    }
}

fn text(s: &str) -> Option<String> {
    Some(s.to_owned())
}

fn refused(args: &EvalArguments) -> (u8, String) {
    match plan_eval(args, 60_000) {
        Err(EvalRefusal::Failure((code, _, message))) => (code, message),
        Err(EvalRefusal::Config(EvaluationError::InvalidField(message))) => (2, message),
        other => panic!("must be refused: {}", other.is_ok()),
    }
}

#[test]
fn eval_validates_mode_and_bounds_before_opening_any_input() {
    for (args, expected) in [
        (EvalArguments { online: true, ..bare() }, 2),
        (EvalArguments { online: true, allow_network: true, ..bare() }, 2),
        (EvalArguments { max_runtime_ms: text("0"), ..bare() }, 2),
        (EvalArguments { max_runtime_ms: text("86400001"), ..bare() }, 2),
        (EvalArguments { timeout_ms: text("0"), ..bare() }, 2),
        (EvalArguments { max_requests: text("nonsense"), ..bare() }, 2),
        (EvalArguments { max_requests: text("5"), ..bare() }, 2),
    ] {
        let (code, message) = refused(&args);
        assert_eq!(code, expected);
        assert!(!message.contains("missing-dataset") && !message.contains("missing-policy"));
        assert!(!message.contains("No such file"), "{message}");
    }
}

#[test]
fn a_live_batch_needs_labels_consent_a_cap_and_a_key() {
    let live = EvalArguments {
        labels: text("/missing"),
        online: true,
        allow_network: true,
        max_requests: text("4"),
        ..bare()
    };
    assert!(matches!(
        plan_eval(&live, 60_000),
        Ok(EvalPlan::Live { sampling: None, max_requests: 4, max_runtime_ms: 60_000 })
    ));
    assert_eq!(
        refused(&EvalArguments { labels: None, ..live.clone() }).1,
        "--online and --max-requests evaluate labeled cases; pass --labels"
    );
    assert_eq!(
        refused(&EvalArguments { online: false, ..live.clone() }).1,
        "--max-requests and --robustness apply to a live batch; add --online"
    );
    assert_eq!(
        refused(&EvalArguments { max_requests: None, ..live.clone() }).1,
        "A live batch requires an explicit --max-requests cap"
    );
    assert_eq!(
        refused(&EvalArguments { max_requests: text("0"), ..live.clone() }).1,
        "Invalid --max-requests: must be a positive integer"
    );
    assert_eq!(
        refused(&EvalArguments { max_runtime_ms: text("86400001"), ..live }).1,
        "Invalid --max-runtime-ms: must be 1 to 86400000"
    );
    let denied = live_authorized(false, true).unwrap_err();
    assert_eq!((denied.0, denied.1), (8, "network-denied"));
    let absent = live_authorized(true, false).unwrap_err();
    assert_eq!((absent.0, absent.1), (4, "credential-absent"));
    assert!(live_authorized(true, true).is_ok());
}

#[test]
fn frame_flags_reject_incoherent_combinations_before_reading_inputs() {
    let framed = EvalArguments { labels: text("/missing"), ..bare() };
    // What argument parsing refuses: a sample without labels, a seed without a
    // sample, labels with a policy.
    let rules = arguments(CommandPath::Eval);
    let rule = |name: &str| rules.iter().find(|rule| rule.name == name).unwrap();
    assert_eq!(rule("sample-size").requires, Some("labels"));
    assert_eq!(rule("seed").requires, Some("sample-size"));
    assert!(rule("labels").conflicts.contains(&"policy"));
    for size in ["0", "x"] {
        let (code, _) = refused(&EvalArguments { sample_size: text(size), ..framed.clone() });
        assert_eq!(code, 2);
    }
    let record = |family: &str, split: EvaluationSplit| record_of(family, split, "ranked");
    let mixed = vec![
        record("fam-a", EvaluationSplit::Holdout),
        record("fam-b", EvaluationSplit::Validation),
    ];
    let request = FrameSampling { sample_size: 1, seed: None };
    match frame_scope(&mixed, request) {
        Err(EvaluationError::SamplingFailure(message)) => {
            assert!(message.contains("one split"), "{message}")
        }
        other => panic!("{other:?}"),
    }
}

#[test]
fn a_command_without_a_dataset_or_with_stray_bounds_is_refused() {
    assert_eq!(
        refused(&EvalArguments { dataset: None, ..bare() }),
        (2, "Missing required argument --dataset".to_owned())
    );
    assert_eq!(
        refused(&EvalArguments { timeout_ms: text("-1"), ..bare() }).1,
        "Invalid --timeout-ms: must be a positive integer"
    );
    assert_eq!(
        refused(&EvalArguments { max_runtime_ms: text("1s"), ..bare() }).1,
        "Invalid --max-runtime-ms: must be a positive integer"
    );
    assert_eq!(
        refused(&EvalArguments { labels: text("l"), max_runtime_ms: text("5"), ..bare() }).1,
        "--max-runtime-ms bounds a live or replay batch; scoring recorded decisions takes none"
    );
    assert_eq!(
        refused(&EvalArguments { labels: text("l"), seed: text("x"), ..bare() }).1,
        "Invalid --seed: must be a non-negative integer"
    );
    assert!(matches!(plan_eval(&bare(), DAY_MS + 1), Err(EvalRefusal::Config(_))));
    match plan_eval(&EvalArguments { timeout_ms: text("250"), ..bare() }, 60_000) {
        Ok(EvalPlan::Replay { config }) => assert_eq!(
            config,
            BatchConfig { per_case_timeout_ms: Some(250), ..BatchConfig::offline(60_000) }
        ),
        _ => panic!("a replay"),
    }
    let failure = input_failure("dataset");
    assert_eq!((failure.0, failure.1), (7, "malformed-input"));
}

#[test]
fn a_sample_keeps_its_size_and_seed() {
    let args = EvalArguments {
        labels: text("l"),
        sample_size: text("4"),
        seed: text("42"),
        ..bare()
    };
    match plan_eval(&args, 1) {
        Ok(EvalPlan::Frame { sampling }) => {
            assert_eq!(sampling, Some(FrameSampling { sample_size: 4, seed: Some(42) }))
        }
        _ => panic!("a frame"),
    }
}

#[test]
fn a_case_gets_what_the_batch_has_left() {
    // No case outlasts its batch.
    let (total, _) = case_budget(8_000, 3_000, 200);
    assert!(total <= 3_000);
    let (total, _) = case_budget(3_000, 8_000, 200);
    assert_eq!(total, 3_000);
}

#[test]
fn eval_help_documents_its_options() {
    let parsed = ParsedArguments {
        help: false,
        version: false,
        command: Some(ParsedCommand {
            name: CommandName::Eval,
            help: true,
            nested: false,
            harness: false,
            harness_help: false,
            planned: None,
        }),
    };
    assert_eq!(route(&parsed, "harness-x"), Ok(Route::Help(HelpTopic::Eval)));
    let help = help_text(HelpTopic::Eval, "harness-x");
    for option in ["sr eval --dataset FILE", "--online", "--max-requests", "--max-runtime-ms"] {
        assert!(help.contains(option), "{option}");
    }
    assert!(is_coherent(&arguments(CommandPath::Eval)));
}

fn record_of(family: &str, split: EvaluationSplit, decision: &str) -> EvaluationCaseRecord {
    EvaluationCaseRecord {
        key: CaseKey::new("frame-1", family, &format!("{family}-case"), 0, "baseline"),
        split,
        decision: decision.to_owned(),
        suggested_skills: Vec::new(),
        relevance_abstention: decision == "abstain",
        operational_failure: false,
    }
}

fn resolved(family: &str, decision: &str, class: RelevanceClass) -> ResolvedCase {
    ResolvedCase {
        record: record_of(family, EvaluationSplit::Holdout, decision),
        label_status: if class == RelevanceClass::Unjudged {
            LabelStatus::Missing
        } else {
            LabelStatus::Resolved
        },
        relevance_class: class,
    }
}

fn loss_of(report: &EvaluationBatchReport, family: &str) -> Option<u32> {
    let case = report.cases.iter().find(|c| c.family_id.as_deref() == Some(family)).unwrap();
    match &case.status {
        CaseExecutionStatus::Completed { loss, .. } => *loss,
        CaseExecutionStatus::OperationalFailure { loss, .. } => Some(*loss),
        _ => None,
    }
}

#[test]
fn labeled_frame_scores_the_frozen_loss_and_keeps_unjudged_cases_visible() {
    let cases = vec![
        resolved("fam-hit", "ranked", RelevanceClass::CorrectSuggestion),
        resolved("fam-miss", "abstain", RelevanceClass::FalseAbstention),
        resolved("fam-needless", "ranked", RelevanceClass::NeedlessSuggestion),
        resolved("fam-unjudged", "ranked", RelevanceClass::Unjudged),
    ];
    let score = score_cases(&cases, &Vec::new(), Vec::new());
    let report = report_frame(score, true, None, None, FrameRun::recorded());
    assert_eq!(report.kind, "report");
    assert!(!report.actionable);
    assert_eq!(report.gate_status, GateStatus::NotEstablished);
    // The unjudged case is neither dropped nor scored as a success.
    assert_eq!(report.run_status, RunStatus::Partial);
    assert_eq!(report.completeness.cases_requested, 4);
    assert_eq!(report.completeness.cases_completed, 3);
    assert!(report.completeness.evidence_compatible);
    // Hit 0, false abstention 1, needless suggestion 2.
    assert_eq!(report.loss_summary.attempted_cases, 3);
    assert_eq!(report.loss_summary.total_loss, 3);
    assert_eq!(report.mean_operands(), Some((3, 3)));
    assert_eq!(report.loss_summary.not_estimable_cases, 1);
    assert_eq!(loss_of(&report, "fam-hit"), Some(0));
    assert_eq!(loss_of(&report, "fam-miss"), Some(1));
    assert_eq!(loss_of(&report, "fam-needless"), Some(2));
    assert_eq!(loss_of(&report, "fam-unjudged"), None);
    assert!(report.sample.is_none());
}

#[test]
fn a_report_loses_what_its_cases_carry() {
    // Without a judgment only a failed ranking has a loss.
    let unmatched = |family: &str, class: RelevanceClass| ResolvedCase {
        label_status: LabelStatus::Missing,
        ..resolved(family, "ranked", class)
    };
    let cases = vec![
        resolved("hit", "ranked", RelevanceClass::CorrectSuggestion),
        resolved("wrong", "ranked", RelevanceClass::WrongSuggestion),
        resolved("explicit", "explicit", RelevanceClass::Explicit),
        unmatched("lost", RelevanceClass::OperationalFailure),
        unmatched("open", RelevanceClass::WrongSuggestion),
    ];
    let skipped = vec![SkippedCase {
        key: CaseKey::new("frame-1", "late", "late", 0, "baseline"),
        status: SkipStatus::Unfinished { reason: "cap".to_owned() },
    }];
    let score = score_cases(&cases, &Vec::new(), skipped);
    let report = report_frame(score, true, None, None, FrameRun::recorded());
    let carried: Vec<u32> = ["hit", "wrong", "explicit", "lost", "open", "late"]
        .iter()
        .filter_map(|family| loss_of(&report, family))
        .collect();
    assert_eq!(carried, [0, 2, 2]);
    assert_eq!(report.loss_summary.attempted_cases, 3);
    assert_eq!(report.loss_summary.total_loss, 4);
    assert_eq!(report.mean_operands(), Some((4, 3)));
    assert_eq!(report.completeness.cases_completed, 4);
    let nothing = score_cases(&Vec::new(), &Vec::new(), Vec::new());
    let empty = report_frame(nothing, true, None, None, FrameRun::recorded());
    assert_eq!(empty.mean_operands(), None);
}

#[test]
fn every_class_carries_its_policy_loss() {
    for (class, loss) in [
        (RelevanceClass::CorrectSuggestion, Some(0)),
        (RelevanceClass::CorrectAbstention, Some(0)),
        (RelevanceClass::FalseAbstention, Some(1)),
        (RelevanceClass::WrongSuggestion, Some(2)),
        (RelevanceClass::NeedlessSuggestion, Some(2)),
        (RelevanceClass::OperationalFailure, Some(2)),
        (RelevanceClass::Explicit, None),
        (RelevanceClass::Unjudged, None),
    ] {
        assert_eq!(class.policy_loss(), loss);
    }
}

#[test]
fn never_ranked_cases_stay_in_the_denominator() {
    let skipped = |family: &str, status: SkipStatus| SkippedCase {
        key: CaseKey::new("frame-1", family, family, 0, "baseline"),
        status,
    };
    let cases = vec![
        resolved("a", "ranked", RelevanceClass::CorrectSuggestion),
        resolved("b", "unavailable", RelevanceClass::OperationalFailure),
        ResolvedCase {
            label_status: LabelStatus::NullKey,
            ..resolved("c", "ranked", RelevanceClass::Unjudged)
        },
    ];
    let elapsed = vec![(cases[0].record.key.clone(), 7), (cases[0].record.key.clone(), 9)];
    let score = score_cases(
        &cases,
        &elapsed,
        vec![
            skipped("d", SkipStatus::Unfinished { reason: "cap".to_owned() }),
            skipped("e", SkipStatus::NotEstimable { reason: "gone".to_owned() }),
        ],
    );
    // The time recorded last counts.
    assert_eq!(score.reports[0].elapsed_ms, 9);
    assert_eq!(score.reports.len(), 5);
    assert_eq!(
        score.loss_summary,
        BatchLossSummary {
            attempted_cases: 2,
            total_loss: 2,
            not_estimable_cases: 2,
            unfinished_cases: 1,
            operational_failures: 1,
        }
    );
    // Each requested case is counted once: one is reported as completed.
    let completions = score
        .reports
        .iter()
        .filter(|r| matches!(r.status, CaseExecutionStatus::Completed { .. }))
        .count();
    assert_eq!(completions + 1 + 2 + 1, 5);
    assert_eq!(score.losses.len(), 2);
    let report = report_frame(score, false, None, None, FrameRun::recorded());
    assert_eq!(report.run_status, RunStatus::Partial);
    assert!(!report.completeness.evidence_compatible);
}

#[test]
fn a_supplied_seed_reproduces_a_diagnostic_selection_without_design_weights() {
    let request = FrameSampling { sample_size: 4, seed: Some(42) };
    assert_eq!(seed_source(request, 12), SeedSource::Supplied(42));
    let plan = plan_draw(EvaluationSplit::Holdout, "baseline".to_owned(), request, 12);
    assert_eq!((plan.sample_size, plan.source), (4, SeedSource::Supplied(42)));
    assert_eq!((plan.split, plan.policy_id.as_str()), (EvaluationSplit::Holdout, "baseline"));
    let records: Vec<EvaluationCaseRecord> = (0..12)
        .map(|i| record_of(&format!("fam-{i:02}"), EvaluationSplit::Holdout, "ranked"))
        .collect();
    assert_eq!(
        frame_scope(&records, request),
        Ok((EvaluationSplit::Holdout, "baseline".to_owned()))
    );
    let selected: Vec<CaseKey> =
        [9usize, 2, 5, 7].iter().map(|i| records[*i].key.clone()).collect();
    let first = sampled(records.clone(), &selected);
    let second = sampled(records, &selected);
    let ids = |list: &[EvaluationCaseRecord]| -> Vec<String> {
        list.iter().map(|r| r.key.family_id.clone()).collect()
    };
    assert_eq!(ids(&first), ["fam-02", "fam-05", "fam-07", "fam-09"]);
    assert_eq!(ids(&first), ids(&second));
    let cases: Vec<ResolvedCase> = first
        .into_iter()
        .map(|record| ResolvedCase {
            record,
            label_status: LabelStatus::Resolved,
            relevance_class: RelevanceClass::NeedlessSuggestion,
        })
        .collect();
    let sample = SampleSummary {
        representative_rule: "first".to_owned(),
        design_status: DesignStatus::DiagnosticFixed,
    };
    let scored = score_cases(&cases, &Vec::new(), Vec::new());
    let report = report_frame(scored, true, Some(sample), Some(design()), FrameRun::recorded());
    assert!(report.design_weighted_loss.is_none());
    assert_eq!(report.completeness.cases_requested, 4);
    assert_eq!(report.run_status, RunStatus::Complete);
    assert_eq!(report.loss_summary.total_loss, 8);
}

#[test]
fn a_fresh_seed_or_a_census_supports_design_weighted_loss() {
    let request = FrameSampling { sample_size: 5, seed: None };
    assert_eq!(seed_source(request, 12), SeedSource::OsRandom);
    // A budget covering the frame is a census: nothing is drawn.
    let covering = FrameSampling { sample_size: 99, seed: None };
    assert_eq!(seed_source(covering, 12), SeedSource::Census);
    assert!(weighs_design(Some(DesignStatus::StratifiedProbabilitySample)));
    assert!(weighs_design(Some(DesignStatus::FullCensus)));
    assert!(!weighs_design(Some(DesignStatus::DiagnosticFixed)));
    assert!(!weighs_design(None));
    assert!(matches!(
        frame_scope(&Vec::new(), request),
        Err(EvaluationError::SamplingFailure(_))
    ));
    assert!(matches!(
        frame_scope(&Vec::new(), FrameSampling { sample_size: 0, seed: None }),
        Err(EvaluationError::SamplingFailure(message)) if message == "sample size must be positive"
    ));
}

fn number(x: f64) -> Number {
    Number { value: score(x), text: format!("{x:.6}") }
}

fn design() -> DesignLoss {
    DesignLoss {
        strata: vec![StratumLoss {
            weight: number(1.0),
            mean_loss_observed: Some(number(1.0)),
            upper_bound: number(1.0),
        }],
        num_strata: 1,
        alpha: number(0.05),
        r_hat_observed: Some(number(1.0)),
        r_hat_lower: number(1.0),
        r_hat_upper: number(1.0),
        conservative_upper_bound: number(1.0),
        total_missing_labels: 0,
        point_estimate_guaranteed: true,
    }
}

fn needless_report() -> EvaluationBatchReport {
    let cases: Vec<ResolvedCase> = (0..12)
        .map(|i| resolved(&format!("fam-{i:02}"), "ranked", RelevanceClass::NeedlessSuggestion))
        .collect();
    let sample = SampleSummary {
        representative_rule: "first".to_owned(),
        design_status: DesignStatus::FullCensus,
    };
    let scored = score_cases(&cases, &Vec::new(), Vec::new());
    report_frame(scored, true, Some(sample), Some(design()), FrameRun::recorded())
}

#[test]
fn explain_derives_equations_from_the_report_without_changing_it() {
    let plain = needless_report();
    assert!(plain.explanation.is_none());
    let numbers = ReportNumbers {
        mean_loss: Some(Number { value: score(2.0), text: "2".to_owned() }),
        mean_normalized_loss: Some(Number { value: score(1.0), text: "1".to_owned() }),
        loss_unit: "2".to_owned(),
        harm_bound: Some(HarmBound { value: score(1.0), four_decimals: "1.0000".to_owned() }),
    };
    let mut explained = plain.clone();
    explained.explain(&numbers);
    let explanation = explained.explanation.take().expect("explanation");
    assert_eq!(explained, plain);
    let quantity = |name: &str| {
        explanation
            .quantities
            .iter()
            .find(|q| q.name == name)
            .unwrap_or_else(|| panic!("{name} in {explanation:?}"))
            .clone()
    };
    assert_eq!(quantity("mean_loss").substituted, "24 / 12");
    assert_eq!(quantity("mean_loss").value, Some(score(2.0)));
    assert_eq!(quantity("mean_normalized_loss").value, Some(score(1.0)));
    assert_eq!(quantity("design_weighted_mean_loss").value, Some(score(1.0)));
    assert_eq!(quantity("design_weighted_upper_bound").value, Some(score(1.0)));
    let shown = format!("{explanation:?}");
    assert!(shown.contains("evaluation_policy.v1"), "{shown}");
    assert!(shown.contains("Every family in the frame was evaluated"), "{shown}");
    // A weighted design never presents ratio estimators as unbiased means.
    assert!(shown.contains("non-linear ratio estimators"), "{shown}");
    assert!(shown.contains("not a passed quality gate"), "{shown}");
}

#[test]
fn harmful_outcomes_are_those_that_lose_most() {
    let report = needless_report();
    assert_eq!(harmful_count(&report.cases), 12);
    let bound = Some(HarmBound { value: score(1.0), four_decimals: "1.0000".to_owned() });
    let card = harmful_outcome_card(&report.loss_summary, &report.cases, &bound);
    assert!(card.is_some());
    let nothing = score_cases(&Vec::new(), &Vec::new(), Vec::new());
    assert!(harmful_outcome_card(&nothing.loss_summary, &nothing.reports, &None).is_none());
}

#[test]
fn a_report_outside_its_contract_is_refused() {
    assert!(matches!(
        refused_report(true, "too large"),
        EvaluationError::InvalidField(m)
            if m == "evaluation report exceeds or violates output contract: too large"
    ));
    assert!(matches!(
        refused_report(false, "x"),
        EvaluationError::InvalidField(m)
            if m == "batch report exceeds or violates output contract: x"
    ));
}
