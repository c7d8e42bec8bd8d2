//! Selection policies, their scores, calibration and latency.

use skillranker::evaluation::baselines::{score_picks, Pick};
use skillranker::evaluation::comparison::{
    bin_samples, compare_baselines, fit_calibration, latency_summary, stage_coverage,
};
use skillranker::evaluation::labels::{
    acceptable_for, any_acceptable, find_judgment, positive_case, CaseKey, EvaluationCaseRecord,
    EvaluationSplit, JudgedLabel, RerankCandidate, RerankEvidence, StageEvidence, WideEvidence,
};
use skillranker::evaluation::live::ExecutedCase;
use skillranker::evaluation::policies::{all_score, find_leader, pick_under, policy_texts, RankBy};
use skillranker::score::Score;

fn score(x: f64) -> Score {
    Score { bits: x.to_bits() }
}

fn label(id: &str, acceptable: &[&str]) -> JudgedLabel {
    JudgedLabel {
        case_id: id.to_owned(),
        revision: 1,
        acceptable_skills: acceptable.iter().map(|s| (*s).to_owned()).collect(),
        explicit_directive: None,
        no_skill_needed: acceptable.is_empty(),
    }
}

fn candidate(id: &str, probability: f64, fit: f64) -> RerankCandidate {
    RerankCandidate { id: id.to_owned(), probability: score(probability), fit: score(fit) }
}

fn record(id: &str, skills: &[&str]) -> EvaluationCaseRecord {
    EvaluationCaseRecord {
        key: CaseKey::new("frame", id, id, 0, "policy"),
        split: EvaluationSplit::Holdout,
        decision: if skills.is_empty() { "abstain".to_owned() } else { "ranked".to_owned() },
        suggested_skills: skills.iter().map(|s| (*s).to_owned()).collect(),
        relevance_abstention: skills.is_empty(),
        operational_failure: false,
    }
}

fn evidence(low_need: bool) -> StageEvidence {
    StageEvidence {
        admitted: vec!["a".to_owned(), "b".to_owned()],
        quill_ranked: true,
        lexical: Some(vec!["b".to_owned(), "a".to_owned()]),
        lexical_elapsed_ms: 0,
        wide: Some(WideEvidence {
            needs_skill: score(0.9),
            low_need,
            shortlist: vec![("a".to_owned(), score(0.6)), ("b".to_owned(), score(0.3))],
            intrinsic_shortlist: vec!["a".to_owned(), "b".to_owned()],
        }),
        rerank: if low_need {
            None
        } else {
            Some(RerankEvidence {
                candidates: vec![candidate("a", 0.3, 0.4), candidate("b", 0.6, 0.9)],
            })
        },
    }
}

fn executed(id: &str, skills: &[&str], evidence: Option<StageEvidence>) -> ExecutedCase {
    ExecutedCase { source: 0, record: record(id, skills), evidence, elapsed_ms: 1 }
}

#[test]
fn the_leader_is_the_greatest_and_ties_go_to_the_first_name() {
    let list = vec![candidate("b", 0.5, 0.1), candidate("a", 0.5, 0.9), candidate("c", 0.4, 0.9)];
    assert_eq!(find_leader(RankBy::Probability, &list, None, None), Some(1));
    assert_eq!(find_leader(RankBy::Fit, &list, None, None), Some(1));
    assert_eq!(find_leader(RankBy::Probability, &list, Some(score(0.95)), None), None);
    let among = vec!["c".to_owned(), "b".to_owned()];
    assert_eq!(find_leader(RankBy::Probability, &list, None, Some(&among)), Some(0));
    assert_eq!(find_leader(RankBy::Fit, &list, Some(score(0.5)), Some(&among)), Some(2));
    assert_eq!(find_leader(RankBy::Fit, &Vec::new(), None, None), None);
}

#[test]
fn each_policy_picks_by_its_own_rule() {
    let stages = evidence(false);
    let own = record("x", &["b", "a"]);
    let pick = |k: usize| pick_under(k, &stages, &own, score(0.5)).unwrap();
    assert_eq!(pick(0).as_deref(), Some("b"));
    assert_eq!(pick(1).as_deref(), Some("a"));
    assert_eq!(pick(2).as_deref(), Some("b"));
    assert_eq!(pick(4).as_deref(), Some("b"));
    assert!(all_score(&stages, &own, score(0.5)));
    // Below its gate every gated policy abstains.
    let gated = evidence(true);
    let abstained = record("x", &[]);
    for k in 1..5 {
        assert_eq!(pick_under(k, &gated, &abstained, score(0.5)), Ok(None));
    }
    // Without a lexical pass the lexical policy cannot be scored.
    let blind = StageEvidence { lexical: None, ..evidence(false) };
    assert_eq!(pick_under(0, &blind, &own, score(0.5)), Err(()));
    assert!(!all_score(&blind, &own, score(0.5)));
    for k in 0..5 {
        let (name, definition) = policy_texts(k);
        assert!(!name.is_empty() && !definition.is_empty());
    }
}

#[test]
fn picks_are_scored_with_exact_denominators() {
    let positive = label("p", &["a"]);
    let none = label("n", &[]);
    let list = vec!["b".to_owned(), "a".to_owned()];
    let pick = |label, top: Option<&str>, published, failed| Pick {
        label,
        top: Ok(top.map(str::to_owned)),
        published,
        failed,
    };
    let picks = vec![
        pick(&positive, Some("a"), None, false),
        pick(&positive, Some("b"), Some(&list), false),
        pick(&positive, None, None, false),
        pick(&none, Some("a"), None, false),
        pick(&none, None, None, false),
        pick(&positive, None, None, true),
        Pick { label: &positive, top: Err(()), published: None, failed: false },
    ];
    let r = score_picks("policy", "definition", &picks);
    assert_eq!((r.policy.as_str(), r.definition.as_str()), ("policy", "definition"));
    assert_eq!((r.evaluated_cases, r.not_evaluated_cases, r.operational_failures), (6, 1, 1));
    assert_eq!((r.top1_precision.successes, r.top1_precision.denominator), (1, 3));
    assert_eq!(
        (r.positive_suggestion_rate.successes, r.positive_suggestion_rate.denominator),
        (1, 4)
    );
    assert_eq!(
        (r.needless_suggestion_rate.successes, r.needless_suggestion_rate.denominator),
        (1, 2)
    );
    assert_eq!((r.false_abstention_rate.successes, r.false_abstention_rate.denominator), (1, 4));
    let coverage = r.top_k_coverage.unwrap();
    assert_eq!((coverage.successes, coverage.denominator), (1, 4));
    let mean = r.mean_loss.unwrap();
    // 0 + 2 + 1 + 2 + 0 + 2.
    assert_eq!((mean.total_loss, mean.cases), (7, 6));
    let empty = score_picks("policy", "definition", &Vec::new());
    assert!(empty.mean_loss.is_none() && empty.top_k_coverage.is_none());
}

#[test]
fn baselines_share_one_cohort_and_count_what_they_leave_out() {
    let mut explicit = label("e", &["a"]);
    explicit.explicit_directive = Some("a".to_owned());
    let judgments = vec![label("x", &["b"]), label("f", &["a"]), label("w", &["a"]), explicit];
    let mut failing = executed("f", &[], None);
    failing.record.operational_failure = true;
    let cases = vec![
        executed("x", &["b"], Some(evidence(false))),
        failing,
        executed("w", &["a"], None),
        executed("e", &["a"], Some(evidence(false))),
        executed("unjudged", &["a"], Some(evidence(false))),
    ];
    let r = compare_baselines(&cases, &judgments, score(0.5));
    assert_eq!(r.policies.len(), 5);
    assert_eq!(r.shared_cohort_cases, 2);
    assert_eq!(r.excluded_unscorable, 0);
    // A judged advisory case without evidence was left out.
    assert!(!r.complete);
    assert_eq!((r.cases_without_evidence, r.operational_failures), (1, 1));
    assert_eq!(r.explicit_cases_excluded, 1);
    // Every judged case counts once.
    assert_eq!(1 + 1 + r.excluded_unscorable + r.shared_cohort_cases, 4);
    for policy in &r.policies {
        assert_eq!(policy.evaluated_cases, 2);
        assert_eq!(policy.operational_failures, 1);
    }
    let calibration = r.fit_calibration.unwrap();
    assert_eq!(calibration.samples, [(score(0.4), false), (score(0.9), true)]);
    let coverage = stage_coverage(&cases, &judgments);
    assert_eq!((coverage.admitted.successes, coverage.admitted.denominator), (1, 1));
    assert_eq!(coverage.quill_ranked_cases, 1);
    assert_eq!((coverage.shortlist_gated_out, coverage.no_wide_answer), (0, 0));
    // One unscorable case leaves every policy.
    let blind = StageEvidence { lexical: None, ..evidence(false) };
    let lost = compare_baselines(
        &vec![executed("x", &["b"], Some(blind))],
        &judgments,
        score(0.5),
    );
    assert!(!lost.complete);
    assert_eq!(lost.excluded_unscorable, 1);
    assert_eq!(lost.shared_cohort_cases, 0);
    assert!(lost.policies.iter().all(|p| p.evaluated_cases == 0 && p.not_evaluated_cases == 1));
}

#[test]
fn a_comparison_is_complete_where_no_advisory_case_was_left_out() {
    let judgments = vec![label("x", &["b"])];
    let bare = compare_baselines(&vec![executed("x", &["b"], None)], &judgments, score(0.5));
    assert_eq!((bare.cases_without_evidence, bare.shared_cohort_cases), (1, 0));
    assert_eq!(bare.excluded_unscorable, 0);
    assert!(!bare.complete);
    let ranked = vec![executed("x", &["b"], Some(evidence(false)))];
    assert!(compare_baselines(&ranked, &judgments, score(0.5)).complete);
    assert!(compare_baselines(&Vec::new(), &judgments, score(0.5)).complete);
}

#[test]
fn coverage_stages_split_the_positive_cases() {
    let judgments: Vec<_> = ["x", "g", "n"].iter().map(|id| label(id, &["b"])).collect();
    let unanswered = StageEvidence { wide: None, rerank: None, ..evidence(false) };
    let cases = vec![
        executed("x", &["b"], Some(evidence(false))),
        executed("g", &[], Some(evidence(true))),
        executed("n", &[], Some(unanswered)),
    ];
    let coverage = stage_coverage(&cases, &judgments);
    assert_eq!(coverage.admitted.denominator, 3);
    assert_eq!(coverage.shortlist.denominator, 1);
    assert_eq!((coverage.shortlist_gated_out, coverage.no_wide_answer), (1, 1));
    assert_eq!(coverage.intrinsic_shortlist.denominator, 2);
}

#[test]
fn a_gate_stops_the_fit_policy_even_beside_rerank_scores() {
    let mut gated = evidence(true);
    gated.rerank = Some(RerankEvidence { candidates: vec![candidate("b", 0.6, 0.9)] });
    for k in 1..4 {
        assert_eq!(pick_under(k, &gated, &record("x", &[]), score(0.5)), Ok(None));
    }
    let mut open = evidence(false);
    open.rerank = None;
    assert_eq!(pick_under(2, &open, &record("x", &[]), score(0.5)), Err(()));
}

#[test]
fn fits_fall_into_five_bins() {
    let samples: Vec<(Score, bool)> = [(0.0, false), (0.2, true), (0.39, false), (0.8, true), (1.0, true)]
        .iter()
        .map(|(x, hit)| (score(*x), *hit))
        .collect();
    let r = fit_calibration(samples.clone()).unwrap();
    assert_eq!(r.bins.len(), 5);
    assert_eq!(bin_samples(&samples, 1), [(score(0.2), true), (score(0.39), false)]);
    assert_eq!(bin_samples(&samples, 4), [(score(0.8), true), (score(1.0), true)]);
    assert!(bin_samples(&samples, 2).is_empty());
    for (b, bin) in r.bins.iter().enumerate() {
        assert_eq!(bin.lower, score(b as f64 / 5.0));
        assert_eq!(bin.upper, score((b + 1) as f64 / 5.0));
    }
    let pairs: Vec<usize> = r.bins.iter().map(|bin| bin.pairs).collect();
    assert_eq!(pairs, [1, 2, 0, 0, 2]);
    assert_eq!(r.bins[1].acceptable.successes, 1);
    assert_eq!(r.bins[1].acceptable.denominator, 2);
    assert!(fit_calibration(Vec::new()).is_none());
}

#[test]
fn latency_is_read_at_the_nearest_rank() {
    let r = latency_summary((1..=100).rev().collect()).unwrap();
    assert_eq!((r.cases, r.p50, r.p95, r.p99, r.max), (100, 50, 95, 99, 100));
    let r = latency_summary(vec![30, 10, 20]).unwrap();
    assert_eq!((r.p50, r.p95, r.max), (20, 30, 30));
    assert!(latency_summary(Vec::new()).is_none());
}

#[test]
fn judgments_accept_what_they_name() {
    let labels = vec![label("a", &["x", "y"]), label("b", &[])];
    assert!(acceptable_for(&labels[0], "y"));
    assert!(!acceptable_for(&labels[0], "z"));
    assert!(positive_case(&labels[0]) && !positive_case(&labels[1]));
    assert!(any_acceptable(&labels[0], &vec!["z".to_owned(), "x".to_owned()]));
    assert!(!any_acceptable(&labels[1], &vec!["x".to_owned()]));
    assert_eq!(find_judgment(&labels, "b").map(|l| l.no_skill_needed), Some(true));
    assert!(find_judgment(&labels, "c").is_none());
}

#[test]
fn bit_patterns_compare_as_their_numbers() {
    assert!(score(0.5).at_least(score(0.5)) && score(0.6).at_least(score(-0.7)));
    assert!(!score(f64::NAN).at_least(score(0.0)) && !score(f64::NAN).below(score(1.0)));
    assert!(score(-1.0).below(score(0.0)) && !score(0.0).below(score(-0.0)));
    assert!(score(0.0).same(score(-0.0)) && !score(f64::NAN).same(score(f64::NAN)));
    assert!(score(0.0).total_above(score(-0.0)) && score(2.0).total_above(score(1.0)));
    assert!(score(-1.0).total_above(score(-2.0)));
}
