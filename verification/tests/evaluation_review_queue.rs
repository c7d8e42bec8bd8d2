//! Diagnostic review queues stay out of representative estimates.

use skillranker::evaluation::labels::{
    CaseKey, EvaluationSplit, JudgedLabel, RerankCandidate, RerankEvidence, StageEvidence,
    WideEvidence,
};
use skillranker::evaluation::review::{
    review_queue, stratum_size, ReviewInput, ReviewPolicy, ReviewQueue, ReviewReason,
};
use skillranker::score::Score;

fn score(x: f64) -> Score {
    Score { bits: x.to_bits() }
}

fn key(id: &str) -> CaseKey {
    CaseKey::new("frame", &format!("fam-{id}"), id, 0, "policy")
}

fn label(case: &str, acceptable: &[&str]) -> JudgedLabel {
    JudgedLabel {
        case_id: case.into(),
        revision: 1,
        acceptable_skills: acceptable.iter().map(|s| (*s).to_owned()).collect(),
        explicit_directive: None,
        no_skill_needed: acceptable.is_empty(),
    }
}

fn stages(
    needs_skill: f64,
    shortlist: &[&str],
    rerank: &[(&str, f64)],
    admitted: &[&str],
    quill_ranked: bool,
) -> StageEvidence {
    StageEvidence {
        admitted: admitted.iter().map(|s| (*s).to_owned()).collect(),
        quill_ranked,
        lexical: None,
        lexical_elapsed_ms: 0,
        wide: Some(WideEvidence {
            needs_skill: score(needs_skill),
            low_need: needs_skill < 0.3,
            shortlist: shortlist.iter().map(|s| ((*s).to_owned(), score(0.5))).collect(),
            intrinsic_shortlist: shortlist.iter().map(|s| (*s).to_owned()).collect(),
        }),
        rerank: if rerank.is_empty() {
            None
        } else {
            Some(RerankEvidence {
                candidates: rerank
                    .iter()
                    .map(|(id, p)| RerankCandidate {
                        id: (*id).to_owned(),
                        probability: score(*p),
                        fit: score(0.8),
                    })
                    .collect(),
            })
        },
    }
}

fn bare<'a>(key: &'a CaseKey, stratum: Option<&'a str>) -> ReviewInput<'a> {
    ReviewInput {
        key,
        split: EvaluationSplit::Holdout,
        stratum,
        evidence: None,
        gate_distance: None,
        judgment: None,
    }
}

/// How far a gate mean lies from the production gate.
fn distance(needs_skill: f64) -> Option<Score> {
    Some(score((needs_skill - 0.30).abs()))
}

fn reasons(queue: &ReviewQueue, id: &str) -> Vec<&'static str> {
    queue
        .entries
        .iter()
        .find(|entry| entry.key.case_id == id)
        .map(|entry| {
            entry
                .reasons
                .iter()
                .map(|reason| match reason {
                    ReviewReason::NearGate { .. } => "near-gate",
                    ReviewReason::StageDisagreement { .. } => "stage-disagreement",
                    ReviewReason::OverflowMiss => "overflow-miss",
                    ReviewReason::SparseStratum { .. } => "sparse-stratum",
                    ReviewReason::UnresolvedJudgment => "unresolved-judgment",
                })
                .collect()
        })
        .unwrap_or_default()
}

#[test]
fn each_diagnostic_reason_selects_only_its_cases() {
    let keys: Vec<CaseKey> = [
        "near", "clear", "disagree", "agree", "miss", "found", "open",
    ]
    .iter()
    .map(|id| key(id))
    .collect();
    let gate = [0.33, 0.9, 0.9, 0.9, 0.9, 0.9, 0.9];
    let evidence = [
        stages(0.33, &["a"], &[("a", 0.6)], &["a"], false),
        stages(0.9, &["a"], &[("a", 0.6)], &["a"], false),
        stages(
            0.9,
            &["a", "b"],
            &[("a", 0.2), ("b", 0.7)],
            &["a", "b"],
            false,
        ),
        stages(
            0.9,
            &["a", "b"],
            &[("a", 0.7), ("b", 0.2)],
            &["a", "b"],
            false,
        ),
        stages(0.9, &["x"], &[("x", 0.6)], &["x"], true),
        stages(0.9, &["a"], &[("a", 0.6)], &["a"], true),
        stages(0.9, &["a"], &[("a", 0.6)], &["a"], false),
    ];
    let labels: Vec<JudgedLabel> = ["near", "clear", "disagree", "agree", "miss", "found"]
        .iter()
        .map(|id| label(id, &["a"]))
        .collect();
    let inputs: Vec<ReviewInput<'_>> = keys
        .iter()
        .enumerate()
        .map(|(i, key)| ReviewInput {
            key,
            split: EvaluationSplit::Holdout,
            stratum: Some("normal:complete"),
            evidence: Some(&evidence[i]),
            gate_distance: distance(gate[i]),
            judgment: labels.get(i),
        })
        .collect();
    let queue = review_queue(&inputs, ReviewPolicy::default());
    assert_eq!(queue.selection, "diagnostic-outcome-selected");
    assert_eq!(queue.denominator_effect, "none");
    assert_eq!(reasons(&queue, "near"), ["near-gate"]);
    assert_eq!(reasons(&queue, "disagree"), ["stage-disagreement"]);
    assert_eq!(reasons(&queue, "miss"), ["overflow-miss"]);
    assert_eq!(reasons(&queue, "open"), ["unresolved-judgment"]);
    // Honest counterparts: far from a gate, agreeing stages, an overflow
    // that admitted an acceptable skill.
    for quiet in ["clear", "agree", "found"] {
        assert!(reasons(&queue, quiet).is_empty(), "{quiet}");
    }
}

#[test]
fn a_case_is_queued_once_with_merged_reasons_in_its_original_split() {
    let near = key("near");
    let sparse_and_near = stages(0.28, &["a"], &[("a", 0.6)], &["a"], false);
    let judgment = label("near", &["a"]);
    let input = || ReviewInput {
        key: &near,
        split: EvaluationSplit::Validation,
        stratum: Some("overflow:degraded"),
        evidence: Some(&sparse_and_near),
        gate_distance: distance(0.28),
        judgment: Some(&judgment),
    };
    // The same case delivered twice cannot become two queue entries.
    let queue = review_queue(&vec![input(), input()], ReviewPolicy::default());
    assert_eq!(queue.entries.len(), 1);
    let entry = &queue.entries[0];
    assert_eq!(entry.split, EvaluationSplit::Validation);
    assert!(entry.reasons.contains(&ReviewReason::NearGate {
        needs_skill: score(0.28),
        gate: score(0.30)
    }));
    // The stratum's size counts the case once, however often it arrives.
    assert!(entry.reasons.contains(&ReviewReason::SparseStratum {
        stratum: "overflow:degraded".into(),
        cases: 1
    }));
    assert_eq!(entry.reasons.len(), 2);
    // No inclusion probability is invented for an outcome-selected entry.
    let shown = format!("{queue:?}");
    assert!(!shown.contains("inclusion_probability"), "{shown}");
    assert!(!shown.contains("weight"), "{shown}");
}

#[test]
fn building_a_queue_leaves_the_population_estimate_unchanged() {
    // What an estimate is made from: the sampled losses and their strata.
    let population = [("routine", 900u32), ("overflow", 100)];
    let losses: Vec<(&str, f64)> = (0..20)
        .map(|i| {
            (
                if i < 10 { "routine" } else { "overflow" },
                if i % 5 == 0 { 1.0 } else { 0.0 },
            )
        })
        .collect();
    let estimate = |losses: &[(&str, f64)]| -> f64 {
        population
            .iter()
            .map(|(stratum, size)| {
                let own: Vec<f64> =
                    losses.iter().filter(|l| l.0 == *stratum).map(|l| l.1).collect();
                f64::from(*size) / 1000.0 * own.iter().sum::<f64>() / own.len() as f64
            })
            .sum()
    };
    let before = estimate(&losses);
    // A queue over the same sampled cases, most of them selected.
    let keys: Vec<CaseKey> = (0..20).map(|i| key(&format!("c{i}"))).collect();
    let near = stages(0.31, &["a"], &[("b", 0.9)], &["a"], true);
    let inputs: Vec<ReviewInput<'_>> = keys
        .iter()
        .map(|key| ReviewInput {
            key,
            split: EvaluationSplit::Holdout,
            stratum: Some("overflow"),
            evidence: Some(&near),
            gate_distance: distance(0.31),
            judgment: None,
        })
        .collect();
    let queue = review_queue(&inputs, ReviewPolicy::default());
    assert_eq!(queue.entries.len(), 20);
    // A queue is given no loss and says that it moves no denominator.
    assert_eq!(queue.denominator_effect, "none");
    assert_eq!(inputs.len(), losses.len());
    let after = estimate(&losses);
    assert_eq!(before, after);
}

#[test]
fn the_default_policy_is_the_production_gate() {
    let policy = ReviewPolicy::default();
    assert_eq!(policy.gate, score(0.30));
    assert_eq!(policy.near_gate_margin, score(0.05));
}

#[test]
fn a_stratum_counts_each_case_once_and_only_its_own() {
    let (a, b, c) = (key("a"), key("b"), key("c"));
    let inputs = vec![
        bare(&a, Some("s")),
        bare(&a, Some("s")),
        bare(&b, Some("s")),
        bare(&c, Some("t")),
        bare(&c, None),
    ];
    assert_eq!(stratum_size(&inputs, "s"), 2);
    assert_eq!(stratum_size(&inputs, "t"), 1);
    assert_eq!(stratum_size(&inputs, "u"), 0);
}

#[test]
fn a_case_in_two_splits_keeps_the_first() {
    let one = key("one");
    let input = |split: EvaluationSplit| ReviewInput {
        key: &one,
        split,
        stratum: None,
        evidence: None,
        gate_distance: None,
        judgment: None,
    };
    let queue = review_queue(
        &vec![input(EvaluationSplit::Development), input(EvaluationSplit::Holdout)],
        ReviewPolicy::default(),
    );
    assert_eq!(queue.entries.len(), 1);
    assert_eq!(queue.entries[0].split, EvaluationSplit::Development);
    assert_eq!(queue.entries[0].reasons, [ReviewReason::UnresolvedJudgment]);
}

#[test]
fn entries_stand_in_the_order_cases_are_first_named() {
    let (a, b) = (key("a"), key("b"));
    let judgment = label("a", &["a"]);
    // The first input of `a` is quiet; it still names the case first.
    let quiet = ReviewInput { judgment: Some(&judgment), ..bare(&a, None) };
    let inputs = vec![quiet, bare(&b, None), bare(&a, None)];
    let queue = review_queue(&inputs, ReviewPolicy::default());
    let ids: Vec<&str> = queue.entries.iter().map(|e| e.key.case_id.as_str()).collect();
    assert_eq!(ids, ["a", "b"]);
    for entry in &queue.entries {
        assert_eq!(entry.reasons, [ReviewReason::UnresolvedJudgment]);
    }
}

#[test]
fn a_second_delivery_of_every_case_changes_no_entry() {
    let (a, b) = (key("a"), key("b"));
    let near = stages(0.28, &["a"], &[("b", 0.6)], &["a"], false);
    let once = vec![
        ReviewInput { evidence: Some(&near), gate_distance: distance(0.28), ..bare(&a, Some("s")) },
        bare(&b, Some("s")),
    ];
    let twice: Vec<ReviewInput<'_>> = once.iter().chain(&once).copied().collect();
    let queue = review_queue(&once, ReviewPolicy::default());
    assert_eq!(queue.entries[0].reasons.len(), 4);
    assert_eq!(review_queue(&twice, ReviewPolicy::default()), queue);
}
