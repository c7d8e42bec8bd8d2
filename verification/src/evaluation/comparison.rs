//! Baselines computed from one run's stage answers: no extra request, and the
//! same judged cohort for every policy.

use crate::evaluation::baselines::{
    pick_evaluated, pick_failed, pick_unscored, pick_views, score_picks, scores, Pick, PickView, PolicyScore, Ratio,
};
use crate::evaluation::labels::{
    acceptable_for, accepts_some, any_acceptable, find_judgment, judgment_of, positive_case,
    JudgedLabel, StageEvidence,
};
use crate::evaluation::live::{AblationArm, ExecutedCase};
use crate::evaluation::policies::{
    all_score, lemma_unscorable_exactly_without_evidence, pick_under, pick_view, policy_definition, policy_name, policy_pick, policy_texts,
    scorable, POLICY_COUNT,
};
use crate::evaluation::variants::RobustnessReport;
use crate::score::Score;
use crate::tally::{
    lemma_filter_step, lemma_tally_bound, lemma_tally_concat, lemma_tally_full,
    lemma_tally_monotone, lemma_tally_split, lemma_tally_step, lemma_tally_zero, tally,
};
use crate::text;
use vstd::prelude::*;
use vstd::string::*;

verus! {

/// Whether the stages kept an acceptable skill in play, before any decision.
#[derive(Clone, Copy, Debug, PartialEq, Eq, Structural)]
pub struct StageCoverage {
    /// Judged positive cases whose admitted wide candidates hold an
    /// acceptable skill.
    pub admitted: Ratio,
    /// Judged positive cases that passed its gate and whose shortlist holds
    /// an acceptable skill.
    pub shortlist: Ratio,
    /// Judged positive cases a gate stopped before a shortlist.
    pub shortlist_gated_out: usize,
    /// Judged positive cases that ended before any wide answer; neither gated
    /// out nor shortlisted.
    pub no_wide_answer: usize,
    /// Judged positive cases with a wide answer whose top candidates by raw
    /// probability hold an acceptable skill, irrespective of any gate.
    pub intrinsic_shortlist: Ratio,
    /// Cases whose admitted set the lexical index ranked (roster overflow).
    pub quill_ranked_cases: usize,
}

/// The production decision with recent context against the latest request
/// alone, on the same cases.
#[derive(Clone, Debug, PartialEq, Eq)]
pub struct ContextAblation {
    /// Cases whose second arm ran, answered or failed: the shared cohort.
    pub cases: usize,
    pub recent_context: PolicyScore,
    /// A failed second arm scores loss 2 here, like any operational failure.
    pub latest_request_only: PolicyScore,
    /// Cases whose second arm was unavailable.
    pub arm_failures: usize,
    /// Cases whose second arm was not sent.
    pub skipped_for_budget: usize,
}

/// Nearest-rank percentiles of per-case ranking time; every executed case
/// counts, failures and timeouts too.
#[derive(Clone, Copy, Debug, PartialEq, Eq, Structural)]
pub struct LatencySummary {
    pub cases: usize,
    pub p50: u64,
    pub p95: u64,
    pub p99: u64,
    pub max: u64,
}

/// One range of fit estimates.
#[derive(Clone, Copy, Debug, PartialEq, Eq, Structural)]
pub struct CalibrationBin {
    pub lower: Score,
    pub upper: Score,
    pub pairs: usize,
    pub acceptable: Ratio,
}

/// Fit estimates held against judgments. The sampling frame is every reranked
/// (case, skill) pair of the judged advisory cohort; it says nothing about
/// calibration over the whole roster.
#[derive(Clone, Debug, PartialEq, Eq)]
pub struct FitCalibration {
    pub frame: String,
    /// Each pair's fit, and whether its skill is acceptable for its case.
    pub samples: Vec<(Score, bool)>,
    pub bins: Vec<CalibrationBin>,
}

/// Baselines computed from one run's stage answers.
#[derive(Clone, Debug, PartialEq, Eq)]
pub struct BaselineComparison {
    pub coverage: StageCoverage,
    pub policies: Vec<PolicyScore>,
    /// Judged advisory cases that ranked without stage evidence; excluded
    /// from every policy alike.
    pub cases_without_evidence: usize,
    /// Judged advisory cases whose ranking failed operationally. They stay in
    /// every policy's cohort at loss 2, and are left out of stage coverage,
    /// which needs stage answers.
    pub operational_failures: usize,
    /// Judged explicit requests, checked separately from advisory quality.
    pub explicit_cases_excluded: usize,
    /// Baselines this run's answers cannot support, and why.
    pub not_computed: Vec<String>,
    /// Judged advisory cases every policy scored, operational failures too.
    pub shared_cohort_cases: usize,
    /// Cases left out of every policy because at least one could not score them.
    pub excluded_unscorable: usize,
    /// True when no judged advisory case had to be left out of the shared
    /// cohort: none without stage evidence and none unscorable.
    pub complete: bool,
    pub fit_calibration: Option<FitCalibration>,
    pub latency_ms: Option<LatencySummary>,
    pub context_ablation: Option<ContextAblation>,
    pub robustness: Option<RobustnessReport>,
}

/// The judgment of an executed case.
pub open spec fn label_of(judgments: Seq<JudgedLabel>, e: ExecutedCase) -> Option<JudgedLabel> {
    judgment_of(judgments, e.record.key.case_id@)
}

/// Judged cases with an explicit directive.
pub open spec fn explicit_case(judgments: Seq<JudgedLabel>) -> spec_fn(ExecutedCase) -> bool {
    |e: ExecutedCase| label_of(judgments, e) is Some && !label_of(judgments, e)->0.advisory()
}

/// Judged advisory cases whose ranking failed.
pub open spec fn failed_case(judgments: Seq<JudgedLabel>) -> spec_fn(ExecutedCase) -> bool {
    |e: ExecutedCase|
        label_of(judgments, e) is Some && label_of(judgments, e)->0.advisory()
            && e.record.operational_failure
}

/// Judged advisory cases that ranked without stage evidence.
pub open spec fn bare_case(judgments: Seq<JudgedLabel>) -> spec_fn(ExecutedCase) -> bool {
    |e: ExecutedCase|
        label_of(judgments, e) is Some && label_of(judgments, e)->0.advisory()
            && !e.record.operational_failure && e.evidence is None
}

/// Judged advisory cases that ranked with stage evidence.
pub open spec fn cohort_case(judgments: Seq<JudgedLabel>) -> spec_fn(ExecutedCase) -> bool {
    |e: ExecutedCase|
        label_of(judgments, e) is Some && label_of(judgments, e)->0.advisory()
            && !e.record.operational_failure && e.evidence is Some
}

/// Cohort cases that need a skill.
pub open spec fn positive_cohort(judgments: Seq<JudgedLabel>) -> spec_fn(ExecutedCase) -> bool {
    |e: ExecutedCase| cohort_case(judgments)(e) && label_of(judgments, e)->0.positive()
}

pub open spec fn quill_case(judgments: Seq<JudgedLabel>) -> spec_fn(ExecutedCase) -> bool {
    |e: ExecutedCase| cohort_case(judgments)(e) && e.evidence->0.quill_ranked
}

pub open spec fn admitted_hit(judgments: Seq<JudgedLabel>) -> spec_fn(ExecutedCase) -> bool {
    |e: ExecutedCase|
        positive_cohort(judgments)(e) && accepts_some(
            &label_of(judgments, e)->0,
            e.evidence->0.admitted@,
        )
}

pub open spec fn wide_case(judgments: Seq<JudgedLabel>) -> spec_fn(ExecutedCase) -> bool {
    |e: ExecutedCase| positive_cohort(judgments)(e) && e.evidence->0.wide is Some
}

pub open spec fn no_wide_case(judgments: Seq<JudgedLabel>) -> spec_fn(ExecutedCase) -> bool {
    |e: ExecutedCase| positive_cohort(judgments)(e) && e.evidence->0.wide is None
}

pub open spec fn intrinsic_hit(judgments: Seq<JudgedLabel>) -> spec_fn(ExecutedCase) -> bool {
    |e: ExecutedCase|
        wide_case(judgments)(e) && accepts_some(
            &label_of(judgments, e)->0,
            e.evidence->0.wide->0.intrinsic_shortlist@,
        )
}

pub open spec fn gated_case(judgments: Seq<JudgedLabel>) -> spec_fn(ExecutedCase) -> bool {
    |e: ExecutedCase| wide_case(judgments)(e) && e.evidence->0.wide->0.low_need
}

pub open spec fn passed_case(judgments: Seq<JudgedLabel>) -> spec_fn(ExecutedCase) -> bool {
    |e: ExecutedCase| wide_case(judgments)(e) && !e.evidence->0.wide->0.low_need
}

/// Whether a judgment accepts any skill of a shortlist.
pub open spec fn accepts_shortlisted(label: JudgedLabel, shortlist: Seq<(String, Score)>) -> bool {
    exists|i: int| 0 <= i < shortlist.len() && label.accepts((#[trigger] shortlist[i]).0@)
}

pub open spec fn shortlist_hit(judgments: Seq<JudgedLabel>) -> spec_fn(ExecutedCase) -> bool {
    |e: ExecutedCase|
        passed_case(judgments)(e) && accepts_shortlisted(
            label_of(judgments, e)->0,
            e.evidence->0.wide->0.shortlist@,
        )
}

/// Cohort cases that at least one policy cannot score.
pub open spec fn unscorable_case(judgments: Seq<JudgedLabel>, threshold: Score) -> spec_fn(
    ExecutedCase,
) -> bool {
    |e: ExecutedCase|
        cohort_case(judgments)(e) && !scorable(e.evidence->0, e.record, threshold)
}

/// The pick of a policy on an executed case, where the case takes part.
pub open spec fn case_pick(
    judgments: Seq<JudgedLabel>,
    k: int,
    threshold: Score,
    e: ExecutedCase,
) -> Option<PickView> {
    if cohort_case(judgments)(e) {
        Some(
            PickView {
                label: label_of(judgments, e)->0,
                top: if scorable(e.evidence->0, e.record, threshold) {
                    policy_pick(k, e.evidence->0, e.record, threshold)
                } else {
                    Err(())
                },
                published: if k == 4 {
                    Some(e.record.suggested_skills@)
                } else {
                    None
                },
                failed: false,
            },
        )
    } else if failed_case(judgments)(e) {
        Some(
            PickView {
                label: label_of(judgments, e)->0,
                top: Ok(None),
                published: None,
                failed: true,
            },
        )
    } else {
        None
    }
}

/// The picks of a policy over executed cases, in order.
pub open spec fn policy_picks(
    judgments: Seq<JudgedLabel>,
    k: int,
    threshold: Score,
    executed: Seq<ExecutedCase>,
) -> Seq<PickView>
    decreases executed.len(),
{
    if executed.len() == 0 {
        Seq::empty()
    } else {
        let rest = policy_picks(judgments, k, threshold, executed.drop_last());
        match case_pick(judgments, k, threshold, executed.last()) {
            Some(pick) => rest.push(pick),
            None => rest,
        }
    }
}

/// The fit and acceptability of each reranked skill of a case.
pub open spec fn case_samples(label: JudgedLabel, evidence: StageEvidence) -> Seq<(Score, bool)> {
    match evidence.rerank {
        Some(rerank) => Seq::new(
            rerank.candidates@.len(),
            |i: int|
                (rerank.candidates@[i].fit, label.accepts(rerank.candidates@[i].id@)),
        ),
        None => Seq::empty(),
    }
}

/// The calibration pairs of executed cases, in order.
pub open spec fn calibration_samples(
    judgments: Seq<JudgedLabel>,
    executed: Seq<ExecutedCase>,
) -> Seq<(Score, bool)>
    decreases executed.len(),
{
    if executed.len() == 0 {
        Seq::empty()
    } else {
        let e = executed.last();
        let rest = calibration_samples(judgments, executed.drop_last());
        if cohort_case(judgments)(e) {
            rest + case_samples(label_of(judgments, e)->0, e.evidence->0)
        } else {
            rest
        }
    }
}

fn any_shortlisted(label: &JudgedLabel, shortlist: &Vec<(String, Score)>) -> (r: bool)
    ensures
        r == accepts_shortlisted(*label, shortlist@),
{
    let mut i: usize = 0;
    while i < shortlist.len()
        invariant
            i <= shortlist@.len(),
            forall|j: int| 0 <= j < i ==> !label.accepts((#[trigger] shortlist@[j]).0@),
        decreases shortlist@.len() - i,
    {
        if acceptable_for(label, shortlist[i].0.as_str()) {
            assert(label.accepts(shortlist@[i as int].0@));
            return true;
        }
        i = i + 1;
    }
    false
}

/// The lower edges of the calibration bins and the upper edge of the last:
/// the binary64 patterns of 0, 0.2, 0.4, 0.6, 0.8 and 1.
pub open spec fn bin_edge(b: int) -> Score {
    if b == 0 {
        Score { bits: 0 }
    } else if b == 1 {
        Score { bits: 0x3fc9_9999_9999_999a }
    } else if b == 2 {
        Score { bits: 0x3fd9_9999_9999_999a }
    } else if b == 3 {
        Score { bits: 0x3fe3_3333_3333_3333 }
    } else if b == 4 {
        Score { bits: 0x3fe9_9999_9999_999a }
    } else {
        Score { bits: 0x3ff0_0000_0000_0000 }
    }
}

/// How many calibration bins there are.
pub const BIN_COUNT: usize = 5;

fn edge(b: usize) -> (r: Score)
    ensures
        r == bin_edge(b as int),
{
    if b == 0 {
        Score { bits: 0 }
    } else if b == 1 {
        Score { bits: 0x3fc9_9999_9999_999a }
    } else if b == 2 {
        Score { bits: 0x3fd9_9999_9999_999a }
    } else if b == 3 {
        Score { bits: 0x3fe3_3333_3333_3333 }
    } else if b == 4 {
        Score { bits: 0x3fe9_9999_9999_999a }
    } else {
        Score { bits: 0x3ff0_0000_0000_0000 }
    }
}

/// Whether a fit falls into a bin: at or above its lower edge and below its
/// upper one, which the last bin holds too.
pub open spec fn in_bin(b: int, fit: Score) -> bool {
    fit.at_least_spec(bin_edge(b)) && (fit.below_spec(bin_edge(b + 1)) || (b == BIN_COUNT - 1
        && bin_edge(b + 1).at_least_spec(fit)))
}

/// Every fit between 0 and 1 falls into exactly one bin.
pub proof fn lemma_bins_partition(fit: Score)
    requires
        fit.at_least_spec(bin_edge(0)),
        bin_edge(5).at_least_spec(fit),
    ensures
        exists|b: int| 0 <= b < BIN_COUNT && #[trigger] in_bin(b, fit),
        forall|a: int, b: int|
            0 <= a < BIN_COUNT && 0 <= b < BIN_COUNT && #[trigger] in_bin(a, fit)
                && #[trigger] in_bin(b, fit) ==> a == b,
{
    let b: int = if fit.below_spec(bin_edge(1)) {
        0
    } else if fit.below_spec(bin_edge(2)) {
        1
    } else if fit.below_spec(bin_edge(3)) {
        2
    } else if fit.below_spec(bin_edge(4)) {
        3
    } else {
        4
    };
    assert(in_bin(b, fit));
}

pub open spec fn sample_in(b: int) -> spec_fn((Score, bool)) -> bool {
    |s: (Score, bool)| in_bin(b, s.0)
}

pub open spec fn sample_accepted_in(b: int) -> spec_fn((Score, bool)) -> bool {
    |s: (Score, bool)| in_bin(b, s.0) && s.1
}

/// A calibration bin over some samples.
pub open spec fn bin_over(samples: Seq<(Score, bool)>, b: int, bin: CalibrationBin) -> bool {
    &&& bin.lower == bin_edge(b)
    &&& bin.upper == bin_edge(b + 1)
    &&& bin.pairs == tally(samples, sample_in(b))
    &&& bin.acceptable.denominator == tally(samples, sample_in(b))
    &&& bin.acceptable.successes == tally(samples, sample_accepted_in(b))
}

/// Whether a fit falls into a bin.
fn falls_in(b: usize, fit: Score) -> (r: bool)
    requires
        b < BIN_COUNT,
    ensures
        r == in_bin(b as int, fit),
{
    let lower: Score = edge(b);
    let upper: Score = edge(b + 1);
    fit.at_least(lower) && (fit.below(upper) || (b == BIN_COUNT - 1 && upper.at_least(fit)))
}

/// The samples that fall into a bin, in order: those whose mean fit the bin
/// reports.
pub fn bin_samples(samples: &Vec<(Score, bool)>, b: usize) -> (r: Vec<(Score, bool)>)
    requires
        b < BIN_COUNT,
    ensures
        r@ == samples@.filter(sample_in(b as int)),
{
    let mut out: Vec<(Score, bool)> = Vec::new();
    let mut i: usize = 0;
    assert(samples@.take(0).filter(sample_in(b as int)) =~= Seq::empty()) by {
        reveal(Seq::filter);
    }
    while i < samples.len()
        invariant
            i <= samples@.len(),
            b < BIN_COUNT,
            out@ == samples@.take(i as int).filter(sample_in(b as int)),
        decreases samples@.len() - i,
    {
        proof {
            lemma_filter_step(samples@, i as int, sample_in(b as int));
        }
        let sample: (Score, bool) = samples[i];
        if falls_in(b, sample.0) {
            out.push(sample);
        }
        i = i + 1;
    }
    assert(samples@.take(i as int) =~= samples@);
    out
}

pub const CALIBRATION_FRAME: &'static str = "every reranked (case, skill) pair of the judged advisory cohort";

/// Hold fit estimates against judgments, in five bins. Nothing where there is
/// no pair.
pub fn fit_calibration(samples: Vec<(Score, bool)>) -> (r: Option<FitCalibration>)
    ensures
        r is None <==> samples@.len() == 0,
        r is Some ==> {
            &&& r->0.frame@ == CALIBRATION_FRAME@
            &&& r->0.samples == samples
            &&& r->0.bins@.len() == BIN_COUNT
            &&& forall|b: int|
                0 <= b < BIN_COUNT ==> bin_over(samples@, b, #[trigger] r->0.bins@[b])
        },
{
    if samples.len() == 0 {
        return None;
    }
    let mut bins: Vec<CalibrationBin> = Vec::new();
    let mut b: usize = 0;
    while b < BIN_COUNT
        invariant
            b <= BIN_COUNT,
            bins@.len() == b,
            forall|j: int| 0 <= j < b ==> bin_over(samples@, j, #[trigger] bins@[j]),
        decreases BIN_COUNT - b,
    {
        let mut pairs: usize = 0;
        let mut accepted: usize = 0;
        let mut i: usize = 0;
        while i < samples.len()
            invariant
                i <= samples@.len(),
                b < BIN_COUNT,
                pairs == tally(samples@.take(i as int), sample_in(b as int)),
                accepted == tally(samples@.take(i as int), sample_accepted_in(b as int)),
                pairs <= i,
                accepted <= i,
            decreases samples@.len() - i,
        {
            proof {
                lemma_tally_step(samples@, i as int, sample_in(b as int));
                lemma_tally_step(samples@, i as int, sample_accepted_in(b as int));
            }
            if falls_in(b, samples[i].0) {
                pairs = pairs + 1;
                if samples[i].1 {
                    accepted = accepted + 1;
                }
            }
            i = i + 1;
        }
        assert(samples@.take(i as int) =~= samples@);
        bins.push(
            CalibrationBin {
                lower: edge(b),
                upper: edge(b + 1),
                pairs,
                acceptable: Ratio::of(accepted, pairs),
            },
        );
        b = b + 1;
    }
    Some(FitCalibration { frame: CALIBRATION_FRAME.to_owned(), samples, bins })
}

/// Whether numbers stand in ascending order.
pub open spec fn ascending(s: Seq<u64>) -> bool {
    forall|i: int, j: int| 0 <= i <= j < s.len() ==> s[i] <= s[j]
}

/// `<[u64]>::sort_unstable`: claimed to put the same numbers in ascending order.
#[verifier::external_body]
fn sort_ascending(v: &mut Vec<u64>)
    ensures
        ascending(final(v)@),
        final(v)@.to_multiset() == old(v)@.to_multiset(),
        final(v)@.len() == old(v)@.len(),
{
    v.sort_unstable();
}

/// The nearest rank of a percentile among a count: the least rank that at
/// least that share of the samples does not exceed.
pub open spec fn nearest_rank(count: int, percent: int) -> int {
    (count * percent + 99) / 100
}

fn rank_of(count: usize, percent: u64) -> (r: usize)
    requires
        count > 0,
        0 < percent <= 100,
    ensures
        r == nearest_rank(count as int, percent as int),
        1 <= r <= count,
{
    assert(count as int * percent as int <= count as int * 100) by (nonlinear_arith)
        requires
            percent <= 100,
    ;
    assert(count as int * percent as int >= count as int) by (nonlinear_arith)
        requires
            percent >= 1,
    ;
    let scaled: u128 = count as u128 * percent as u128;
    ((scaled + 99) / 100) as usize
}

/// Whether a summary holds the nearest-rank percentiles of the samples, read
/// off their ascending order.
pub open spec fn summarizes(summary: LatencySummary, samples: Seq<u64>, order: Seq<u64>) -> bool {
    let n = samples.len() as int;
    &&& ascending(order)
    &&& order.to_multiset() == samples.to_multiset()
    &&& order.len() == n
    &&& summary.cases == n
    &&& summary.p50 == order[nearest_rank(n, 50) - 1]
    &&& summary.p95 == order[nearest_rank(n, 95) - 1]
    &&& summary.p99 == order[nearest_rank(n, 99) - 1]
    &&& summary.max == order[n - 1]
}

/// Whether a summary holds the nearest-rank percentiles of the samples.
pub open spec fn has_percentiles(summary: LatencySummary, samples: Seq<u64>) -> bool {
    exists|order: Seq<u64>| #[trigger] summarizes(summary, samples, order)
}

/// Nearest-rank percentiles of ranking times; nothing where none was taken.
pub fn latency_summary(samples: Vec<u64>) -> (r: Option<LatencySummary>)
    ensures
        r is None <==> samples@.len() == 0,
        r is Some ==> has_percentiles(r->0, samples@),
        r is Some ==> r->0.p50 <= r->0.p95 <= r->0.p99 <= r->0.max,
        r is Some ==> forall|i: int| 0 <= i < samples@.len() ==> #[trigger] samples@[i] <= r->0.max,
{
    if samples.len() == 0 {
        return None;
    }
    let ghost given = samples@;
    let mut order: Vec<u64> = samples;
    sort_ascending(&mut order);
    let n: usize = order.len();
    let a: usize = rank_of(n, 50);
    let b: usize = rank_of(n, 95);
    let c: usize = rank_of(n, 99);
    let summary = LatencySummary {
        cases: n,
        p50: order[a - 1],
        p95: order[b - 1],
        p99: order[c - 1],
        max: order[n - 1],
    };
    proof {
        assert(n * 50 <= n * 95 <= n * 99);
        assert(summarizes(summary, given, order@));
        assert forall|i: int| 0 <= i < given.len() implies #[trigger] given[i] <= summary.max by {
            broadcast use vstd::seq_lib::group_to_multiset_ensures;

            assert(given.contains(given[i]));
            assert(given.to_multiset().count(given[i]) > 0);
            assert(order@.to_multiset().count(given[i]) > 0);
            assert(order@.contains(given[i]));
            let j = choose|j: int| 0 <= j < order@.len() && order@[j] == given[i];
            assert(order@[j] <= order@[n - 1]);
        }
    }
    Some(summary)
}

/// Whether the second arm of an executed case ran on a judged advisory case.
pub open spec fn paired(judgments: Seq<JudgedLabel>, e: ExecutedCase, arm: AblationArm) -> bool {
    label_of(judgments, e) is Some && label_of(judgments, e)->0.advisory() && (arm is Failed || arm
        is Answered)
}

/// What a published list says as a pick; a failed arm published none.
pub open spec fn list_pick(label: JudgedLabel, list: Option<Seq<String>>) -> PickView {
    PickView {
        label,
        top: Ok(
            match list {
                Some(skills) => if skills.len() > 0 {
                    Some(skills[0]@)
                } else {
                    None
                },
                None => None,
            },
        ),
        published: list,
        failed: list is None,
    }
}

/// The picks of one arm over the paired cases: of the full context, or of the
/// latest request alone.
pub open spec fn arm_picks(
    judgments: Seq<JudgedLabel>,
    executed: Seq<ExecutedCase>,
    arms: Seq<AblationArm>,
    second: bool,
) -> Seq<PickView>
    decreases executed.len(),
{
    if executed.len() == 0 {
        Seq::empty()
    } else {
        let rest = arm_picks(judgments, executed.drop_last(), arms, second);
        let e = executed.last();
        let arm = arms[executed.len() - 1];
        if paired(judgments, e, arm) {
            rest.push(
                list_pick(
                    label_of(judgments, e)->0,
                    if !second {
                        Some(e.record.suggested_skills@)
                    } else {
                        match arm {
                            AblationArm::Answered(skills) => Some(skills@),
                            _ => None,
                        }
                    },
                ),
            )
        } else {
            rest
        }
    }
}

pub open spec fn arm_failed() -> spec_fn(AblationArm) -> bool {
    |arm: AblationArm| arm is Failed
}

pub open spec fn arm_skipped() -> spec_fn(AblationArm) -> bool {
    |arm: AblationArm| arm is Skipped
}

fn list_as_pick<'a>(label: &'a JudgedLabel, list: Option<&'a Vec<String>>) -> (r: Pick<'a>)
    ensures
        r@ == list_pick(
            *label,
            match list {
                Some(skills) => Some(skills@),
                None => None,
            },
        ),
{
    let top: Option<String> = match list {
        Some(skills) => if skills.len() > 0 {
            Some(skills[0].clone())
        } else {
            None
        },
        None => None,
    };
    Pick { label, top: Ok(top), published: list, failed: list.is_none() }
}

/// The paired picks of both arms.
fn pair_picks<'a>(
    judgments: &'a Vec<JudgedLabel>,
    executed: &'a Vec<ExecutedCase>,
    arms: &'a Vec<AblationArm>,
    second: bool,
) -> (r: Vec<Pick<'a>>)
    requires
        arms@.len() == executed@.len(),
    ensures
        pick_views(r@) == arm_picks(judgments@, executed@, arms@, second),
        r@.len() <= executed@.len(),
{
    let mut picks: Vec<Pick<'a>> = Vec::new();
    let mut i: usize = 0;
    assert(executed@.take(0) =~= Seq::<ExecutedCase>::empty());
    while i < executed.len()
        invariant
            i <= executed@.len(),
            arms@.len() == executed@.len(),
            picks@.len() <= i,
            pick_views(picks@) =~= arm_picks(judgments@, executed@.take(i as int), arms@, second),
        decreases executed@.len() - i,
    {
        let e: &ExecutedCase = &executed[i];
        let ghost before = picks@;
        proof {
            assert(executed@.take(i + 1).drop_last() =~= executed@.take(i as int));
            assert(executed@.take(i + 1).last() == *e);
        }
        match find_judgment(judgments, e.record.key.case_id.as_str()) {
            Some(label) => {
                if label.explicit_directive.is_none() {
                    let latest: Option<Option<&Vec<String>>> = match &arms[i] {
                        AblationArm::Answered(skills) => Some(Some(skills)),
                        AblationArm::Failed => Some(None),
                        _ => None,
                    };
                    if let Some(latest) = latest {
                        let list: Option<&Vec<String>> = if second {
                            latest
                        } else {
                            Some(&e.record.suggested_skills)
                        };
                        picks.push(list_as_pick(label, list));
                        assert(pick_views(picks@) =~= pick_views(before).push(picks@.last()@));
                    }
                }
            },
            None => {},
        }
        i = i + 1;
    }
    assert(executed@.take(i as int) =~= executed@);
    picks
}

fn count_arms(arms: &Vec<AblationArm>) -> (r: (usize, usize))
    ensures
        r.0 == tally(arms@, arm_failed()),
        r.1 == tally(arms@, arm_skipped()),
{
    let mut failed: usize = 0;
    let mut skipped: usize = 0;
    let mut i: usize = 0;
    while i < arms.len()
        invariant
            i <= arms@.len(),
            failed == tally(arms@.take(i as int), arm_failed()),
            skipped == tally(arms@.take(i as int), arm_skipped()),
            failed <= i,
            skipped <= i,
        decreases arms@.len() - i,
    {
        proof {
            lemma_tally_step(arms@, i as int, arm_failed());
            lemma_tally_step(arms@, i as int, arm_skipped());
        }
        match &arms[i] {
            AblationArm::Failed => {
                failed = failed + 1;
            },
            AblationArm::Skipped => {
                skipped = skipped + 1;
            },
            _ => {},
        }
        i = i + 1;
    }
    assert(arms@.take(i as int) =~= arms@);
    (failed, skipped)
}

/// Whether an ablation says what the two arms of executed cases came to.
pub open spec fn ablates(
    r: ContextAblation,
    executed: Seq<ExecutedCase>,
    judgments: Seq<JudgedLabel>,
    arms: Seq<AblationArm>,
) -> bool {
    &&& r.cases == arm_picks(judgments, executed, arms, false).len()
    &&& scores(
        r.recent_context,
        "blend (recent context)"@,
        "The production decision on the full supplied context."@,
        arm_picks(judgments, executed, arms, false),
    )
    &&& scores(
        r.latest_request_only,
        "blend (latest request only)"@,
        "The production decision with every history event removed."@,
        arm_picks(judgments, executed, arms, true),
    )
    &&& r.arm_failures == tally(arms, arm_failed())
    &&& r.skipped_for_budget == tally(arms, arm_skipped())
}

/// Score the production decision with recent context against the latest
/// request alone, on the cases whose second arm ran.
pub fn context_ablation(
    executed: &Vec<ExecutedCase>,
    judgments: &Vec<JudgedLabel>,
    arms: &Vec<AblationArm>,
) -> (r: ContextAblation)
    requires
        arms@.len() == executed@.len(),
        2 * executed@.len() <= u32::MAX,
    ensures
        ablates(r, executed@, judgments@, arms@),
{
    let recent: Vec<Pick> = pair_picks(judgments, executed, arms, false);
    let latest: Vec<Pick> = pair_picks(judgments, executed, arms, true);
    let (arm_failures, skipped_for_budget): (usize, usize) = count_arms(arms);
    assert(pick_views(recent@).len() == recent@.len());
    ContextAblation {
        cases: recent.len(),
        recent_context: score_picks(
            "blend (recent context)",
            "The production decision on the full supplied context.",
            &recent,
        ),
        latest_request_only: score_picks(
            "blend (latest request only)",
            "The production decision with every history event removed.",
            &latest,
        ),
        arm_failures,
        skipped_for_budget,
    }
}

pub const ABLATION_NOTE: &'static str = "context ablation: needs a second, latest-request-only run of every case";

/// The stage coverage of executed cases.
pub open spec fn covers(
    c: StageCoverage,
    judgments: Seq<JudgedLabel>,
    executed: Seq<ExecutedCase>,
) -> bool {
    &&& c.admitted.successes == tally(executed, admitted_hit(judgments))
    &&& c.admitted.denominator == tally(executed, positive_cohort(judgments))
    &&& c.shortlist.successes == tally(executed, shortlist_hit(judgments))
    &&& c.shortlist.denominator == tally(executed, passed_case(judgments))
    &&& c.shortlist_gated_out == tally(executed, gated_case(judgments))
    &&& c.no_wide_answer == tally(executed, no_wide_case(judgments))
    &&& c.intrinsic_shortlist.successes == tally(executed, intrinsic_hit(judgments))
    &&& c.intrinsic_shortlist.denominator == tally(executed, wide_case(judgments))
    &&& c.quill_ranked_cases == tally(executed, quill_case(judgments))
}

/// The coverage of the stages over the judged cohort.
pub fn stage_coverage(executed: &Vec<ExecutedCase>, judgments: &Vec<JudgedLabel>) -> (r:
    StageCoverage)
    ensures
        covers(r, judgments@, executed@),
{
    let ghost js = judgments@;
    let mut admitted_hits: usize = 0;
    let mut positives: usize = 0;
    let mut shortlist_hits: usize = 0;
    let mut shortlist_cases: usize = 0;
    let mut gated: usize = 0;
    let mut no_wide: usize = 0;
    let mut intrinsic_hits: usize = 0;
    let mut intrinsic_cases: usize = 0;
    let mut quill: usize = 0;
    let mut i: usize = 0;
    while i < executed.len()
        invariant
            i <= executed@.len(),
            js == judgments@,
            admitted_hits == tally(executed@.take(i as int), admitted_hit(js)),
            positives == tally(executed@.take(i as int), positive_cohort(js)),
            shortlist_hits == tally(executed@.take(i as int), shortlist_hit(js)),
            shortlist_cases == tally(executed@.take(i as int), passed_case(js)),
            gated == tally(executed@.take(i as int), gated_case(js)),
            no_wide == tally(executed@.take(i as int), no_wide_case(js)),
            intrinsic_hits == tally(executed@.take(i as int), intrinsic_hit(js)),
            intrinsic_cases == tally(executed@.take(i as int), wide_case(js)),
            quill == tally(executed@.take(i as int), quill_case(js)),
            admitted_hits <= i,
            positives <= i,
            shortlist_hits <= i,
            shortlist_cases <= i,
            gated <= i,
            no_wide <= i,
            intrinsic_hits <= i,
            intrinsic_cases <= i,
            quill <= i,
        decreases executed@.len() - i,
    {
        proof {
            lemma_tally_step(executed@, i as int, admitted_hit(js));
            lemma_tally_step(executed@, i as int, positive_cohort(js));
            lemma_tally_step(executed@, i as int, shortlist_hit(js));
            lemma_tally_step(executed@, i as int, passed_case(js));
            lemma_tally_step(executed@, i as int, gated_case(js));
            lemma_tally_step(executed@, i as int, no_wide_case(js));
            lemma_tally_step(executed@, i as int, intrinsic_hit(js));
            lemma_tally_step(executed@, i as int, wide_case(js));
            lemma_tally_step(executed@, i as int, quill_case(js));
        }
        let e: &ExecutedCase = &executed[i];
        i = i + 1;
        let label: &JudgedLabel = match find_judgment(judgments, e.record.key.case_id.as_str()) {
            Some(label) => label,
            None => {
                continue;
            },
        };
        if label.explicit_directive.is_some() || e.record.operational_failure {
            continue;
        }
        let stages: &StageEvidence = match &e.evidence {
            Some(stages) => stages,
            None => {
                continue;
            },
        };
        if stages.quill_ranked {
            quill = quill + 1;
        }
        if !positive_case(label) {
            continue;
        }
        positives = positives + 1;
        if any_acceptable(label, &stages.admitted) {
            admitted_hits = admitted_hits + 1;
        }
        match &stages.wide {
            Some(wide) => {
                intrinsic_cases = intrinsic_cases + 1;
                if any_acceptable(label, &wide.intrinsic_shortlist) {
                    intrinsic_hits = intrinsic_hits + 1;
                }
                if wide.low_need {
                    gated = gated + 1;
                } else {
                    shortlist_cases = shortlist_cases + 1;
                    if any_shortlisted(label, &wide.shortlist) {
                        shortlist_hits = shortlist_hits + 1;
                    }
                }
            },
            // Ended before the wide stage: not a gate outcome.
            None => {
                no_wide = no_wide + 1;
            },
        }
    }
    assert(executed@.take(i as int) =~= executed@);
    StageCoverage {
        admitted: Ratio::of(admitted_hits, positives),
        shortlist: Ratio::of(shortlist_hits, shortlist_cases),
        shortlist_gated_out: gated,
        no_wide_answer: no_wide,
        intrinsic_shortlist: Ratio::of(intrinsic_hits, intrinsic_cases),
        quill_ranked_cases: quill,
    }
}

/// The picks of a policy over executed cases.
fn picks_under<'a>(
    k: usize,
    executed: &'a Vec<ExecutedCase>,
    judgments: &'a Vec<JudgedLabel>,
    threshold: Score,
) -> (r: Vec<Pick<'a>>)
    requires
        k < POLICY_COUNT,
    ensures
        pick_views(r@) == policy_picks(judgments@, k as int, threshold, executed@),
        r@.len() <= executed@.len(),
{
    let mut picks: Vec<Pick<'a>> = Vec::new();
    let mut i: usize = 0;
    assert(executed@.take(0) =~= Seq::<ExecutedCase>::empty());
    while i < executed.len()
        invariant
            i <= executed@.len(),
            k < POLICY_COUNT,
            picks@.len() <= i,
            pick_views(picks@) =~= policy_picks(
                judgments@,
                k as int,
                threshold,
                executed@.take(i as int),
            ),
        decreases executed@.len() - i,
    {
        let e: &ExecutedCase = &executed[i];
        let ghost before = picks@;
        proof {
            assert(executed@.take(i + 1).drop_last() =~= executed@.take(i as int));
            assert(executed@.take(i + 1).last() == *e);
        }
        i = i + 1;
        let label: &JudgedLabel = match find_judgment(judgments, e.record.key.case_id.as_str()) {
            Some(label) => label,
            None => {
                continue;
            },
        };
        if label.explicit_directive.is_some() {
            continue;
        }
        if e.record.operational_failure {
            // Operational failures stay in every policy's cohort at loss 2.
            picks.push(Pick { label, top: Ok(None), published: None, failed: true });
            assert(pick_views(picks@) =~= pick_views(before).push(picks@.last()@));
            continue;
        }
        let stages: &StageEvidence = match &e.evidence {
            Some(stages) => stages,
            None => {
                continue;
            },
        };
        // Every policy is scored on the same cases: one that any policy cannot
        // score leaves all of them, so no mean loss is taken over a different
        // denominator.
        let top: Result<Option<String>, ()> = if all_score(stages, &e.record, threshold) {
            pick_under(k, stages, &e.record, threshold)
        } else {
            Err(())
        };
        let published: Option<&Vec<String>> = if k == 4 {
            Some(&e.record.suggested_skills)
        } else {
            None
        };
        picks.push(Pick { label, top, published, failed: false });
        assert(picks@.last()@.top == pick_view(top));
        assert(pick_views(picks@) =~= pick_views(before).push(picks@.last()@));
    }
    assert(executed@.take(i as int) =~= executed@);
    picks
}

fn samples_of(executed: &Vec<ExecutedCase>, judgments: &Vec<JudgedLabel>) -> (r: Vec<
    (Score, bool),
>)
    ensures
        r@ == calibration_samples(judgments@, executed@),
{
    let mut samples: Vec<(Score, bool)> = Vec::new();
    let mut i: usize = 0;
    assert(executed@.take(0) =~= Seq::<ExecutedCase>::empty());
    while i < executed.len()
        invariant
            i <= executed@.len(),
            samples@ =~= calibration_samples(judgments@, executed@.take(i as int)),
        decreases executed@.len() - i,
    {
        let e: &ExecutedCase = &executed[i];
        proof {
            assert(executed@.take(i + 1).drop_last() =~= executed@.take(i as int));
            assert(executed@.take(i + 1).last() == *e);
        }
        i = i + 1;
        let label: &JudgedLabel = match find_judgment(judgments, e.record.key.case_id.as_str()) {
            Some(label) => label,
            None => {
                continue;
            },
        };
        if label.explicit_directive.is_some() || e.record.operational_failure {
            continue;
        }
        let stages: &StageEvidence = match &e.evidence {
            Some(stages) => stages,
            None => {
                continue;
            },
        };
        let ghost before = samples@;
        if let Some(rerank) = &stages.rerank {
            let mut j: usize = 0;
            while j < rerank.candidates.len()
                invariant
                    j <= rerank.candidates@.len(),
                    stages.rerank == Some(*rerank),
                    samples@ =~= before + case_samples(*label, *stages).take(j as int),
                decreases rerank.candidates@.len() - j,
            {
                let fit: Score = rerank.candidates[j].fit;
                let accepted: bool = acceptable_for(label, rerank.candidates[j].id.as_str());
                samples.push((fit, accepted));
                j = j + 1;
            }
            assert(case_samples(*label, *stages).take(j as int) =~= case_samples(*label, *stages));
        }
        assert(samples@ =~= before + case_samples(*label, *stages));
    }
    assert(executed@.take(i as int) =~= executed@);
    samples
}

/// The five policies scored on the same judged cases.
pub open spec fn policies_scored(
    policies: Seq<PolicyScore>,
    judgments: Seq<JudgedLabel>,
    executed: Seq<ExecutedCase>,
    threshold: Score,
) -> bool {
    &&& policies.len() == POLICY_COUNT
    &&& forall|k: int|
        0 <= k < POLICY_COUNT ==> scores(
            #[trigger] policies[k],
            policy_name(k),
            policy_definition(k),
            policy_picks(judgments, k, threshold, executed),
        )
}

/// What a comparison says of executed cases, before what only a live batch
/// adds: latency, the context ablation and the robustness variants.
pub open spec fn compares(
    r: BaselineComparison,
    executed: Seq<ExecutedCase>,
    judgments: Seq<JudgedLabel>,
    threshold: Score,
) -> bool {
    let samples = calibration_samples(judgments, executed);
    &&& covers(r.coverage, judgments, executed)
    &&& policies_scored(r.policies@, judgments, executed, threshold)
    &&& r.cases_without_evidence == tally(executed, bare_case(judgments))
    &&& r.operational_failures == tally(executed, failed_case(judgments))
    &&& r.explicit_cases_excluded == tally(executed, explicit_case(judgments))
    &&& r.excluded_unscorable == tally(executed, unscorable_case(judgments, threshold))
    &&& r.shared_cohort_cases == tally(executed, cohort_case(judgments)) - tally(
        executed,
        unscorable_case(judgments, threshold),
    ) + tally(executed, failed_case(judgments))
    &&& r.complete == (tally(executed, unscorable_case(judgments, threshold)) == 0 && tally(
        executed,
        bare_case(judgments),
    ) == 0)
    &&& r.fit_calibration is None <==> samples.len() == 0
    &&& r.fit_calibration is Some ==> {
        &&& r.fit_calibration->0.frame@ == CALIBRATION_FRAME@
        &&& r.fit_calibration->0.samples@ == samples
        &&& r.fit_calibration->0.bins@.len() == BIN_COUNT
        &&& forall|b: int|
            0 <= b < BIN_COUNT ==> bin_over(samples, b, #[trigger] r.fit_calibration->0.bins@[b])
    }
}

/// Compare the baseline policies on the judged advisory cases of one run.
pub fn compare_baselines(
    executed: &Vec<ExecutedCase>,
    judgments: &Vec<JudgedLabel>,
    fit_threshold: Score,
) -> (r: BaselineComparison)
    requires
        2 * executed@.len() <= u32::MAX,
    ensures
        compares(r, executed@, judgments@, fit_threshold),
        text::views(r.not_computed@) == seq![ABLATION_NOTE@],
        r.latency_ms is None,
        r.context_ablation is None,
        r.robustness is None,
{
    let ghost js = judgments@;
    let mut explicit: usize = 0;
    let mut failures: usize = 0;
    let mut bare: usize = 0;
    let mut cohort: usize = 0;
    let mut unscorable: usize = 0;
    let mut i: usize = 0;
    while i < executed.len()
        invariant
            i <= executed@.len(),
            js == judgments@,
            explicit == tally(executed@.take(i as int), explicit_case(js)),
            failures == tally(executed@.take(i as int), failed_case(js)),
            bare == tally(executed@.take(i as int), bare_case(js)),
            cohort == tally(executed@.take(i as int), cohort_case(js)),
            unscorable == tally(executed@.take(i as int), unscorable_case(js, fit_threshold)),
            explicit <= i,
            bare <= i,
            unscorable <= cohort,
            cohort + failures <= i,
        decreases executed@.len() - i,
    {
        proof {
            lemma_tally_step(executed@, i as int, explicit_case(js));
            lemma_tally_step(executed@, i as int, failed_case(js));
            lemma_tally_step(executed@, i as int, bare_case(js));
            lemma_tally_step(executed@, i as int, cohort_case(js));
            lemma_tally_step(executed@, i as int, unscorable_case(js, fit_threshold));
        }
        let e: &ExecutedCase = &executed[i];
        i = i + 1;
        let label: &JudgedLabel = match find_judgment(judgments, e.record.key.case_id.as_str()) {
            Some(label) => label,
            None => {
                continue;
            },
        };
        if label.explicit_directive.is_some() {
            explicit = explicit + 1;
            continue;
        }
        if e.record.operational_failure {
            failures = failures + 1;
            continue;
        }
        match &e.evidence {
            Some(stages) => {
                cohort = cohort + 1;
                if !all_score(stages, &e.record, fit_threshold) {
                    unscorable = unscorable + 1;
                }
            },
            None => {
                bare = bare + 1;
            },
        }
    }
    assert(executed@.take(i as int) =~= executed@);
    let mut policies: Vec<PolicyScore> = Vec::new();
    let mut k: usize = 0;
    while k < POLICY_COUNT
        invariant
            k <= POLICY_COUNT,
            2 * executed@.len() <= u32::MAX,
            policies@.len() == k,
            forall|j: int|
                0 <= j < k ==> scores(
                    #[trigger] policies@[j],
                    policy_name(j),
                    policy_definition(j),
                    policy_picks(judgments@, j, fit_threshold, executed@),
                ),
        decreases POLICY_COUNT - k,
    {
        let picks: Vec<Pick> = picks_under(k, executed, judgments, fit_threshold);
        let (name, definition): (&str, String) = policy_texts(k);
        policies.push(score_picks(name, definition.as_str(), &picks));
        k = k + 1;
    }
    let mut not_computed: Vec<String> = Vec::new();
    not_computed.push(ABLATION_NOTE.to_owned());
    assert(text::views(not_computed@) =~= seq![ABLATION_NOTE@]);
    BaselineComparison {
        coverage: stage_coverage(executed, judgments),
        policies,
        cases_without_evidence: bare,
        operational_failures: failures,
        explicit_cases_excluded: explicit,
        not_computed,
        shared_cohort_cases: cohort - unscorable + failures,
        excluded_unscorable: unscorable,
        complete: unscorable == 0 && bare == 0,
        fit_calibration: fit_calibration(samples_of(executed, judgments)),
        latency_ms: None,
        context_ablation: None,
        robustness: None,
    }
}

proof fn lemma_cohort_counts(
    judgments: Seq<JudgedLabel>,
    k: int,
    threshold: Score,
    executed: Seq<ExecutedCase>,
)
    requires
        0 <= k < POLICY_COUNT,
    ensures
        ({
            let picks = policy_picks(judgments, k, threshold, executed);
            &&& tally(picks, pick_evaluated()) == tally(executed, cohort_case(judgments)) - tally(
                executed,
                unscorable_case(judgments, threshold),
            ) + tally(executed, failed_case(judgments))
            &&& tally(picks, pick_unscored()) == tally(
                executed,
                unscorable_case(judgments, threshold),
            )
            &&& tally(picks, pick_failed()) == tally(executed, failed_case(judgments))
        }),
    decreases executed.len(),
{
    if executed.len() > 0 {
        lemma_cohort_counts(judgments, k, threshold, executed.drop_last());
        let rest = policy_picks(judgments, k, threshold, executed.drop_last());
        let e = executed.last();
        if let Some(pick) = case_pick(judgments, k, threshold, e) {
            assert(rest.push(pick).drop_last() =~= rest);
            assert(rest.push(pick).last() == pick);
            if cohort_case(judgments)(e) && scorable(e.evidence->0, e.record, threshold) {
                assert(policy_pick(k, e.evidence->0, e.record, threshold) is Ok);
            }
        }
    }
}

/// The five policies stand in a fixed order, and every one is scored on the
/// same cohort: as many cases, as many left out, and as many failures.
pub proof fn lemma_policies_share_cohort(
    r: BaselineComparison,
    executed: Seq<ExecutedCase>,
    judgments: Seq<JudgedLabel>,
    threshold: Score,
    k: int,
)
    requires
        compares(r, executed, judgments, threshold),
        0 <= k < POLICY_COUNT,
    ensures
        r.policies@.len() == POLICY_COUNT,
        r.policies@[k].policy@ == policy_name(k),
        r.policies@[k].evaluated_cases == r.shared_cohort_cases,
        r.policies@[k].not_evaluated_cases == r.excluded_unscorable,
        r.policies@[k].operational_failures == r.operational_failures,
{
    assert(scores(
        r.policies@[k],
        policy_name(k),
        policy_definition(k),
        policy_picks(judgments, k, threshold, executed),
    ));
    lemma_cohort_counts(judgments, k, threshold, executed);
}

/// Both arms of a context ablation are scored on the same cases.
pub proof fn lemma_arms_share_cohort(
    judgments: Seq<JudgedLabel>,
    executed: Seq<ExecutedCase>,
    arms: Seq<AblationArm>,
)
    ensures
        arm_picks(judgments, executed, arms, false).len() == arm_picks(
            judgments,
            executed,
            arms,
            true,
        ).len(),
        forall|i: int|
            0 <= i < arm_picks(judgments, executed, arms, false).len() ==> (#[trigger] arm_picks(
                judgments,
                executed,
                arms,
                false,
            )[i]).label == arm_picks(judgments, executed, arms, true)[i].label,
    decreases executed.len(),
{
    if executed.len() > 0 {
        lemma_arms_share_cohort(judgments, executed.drop_last(), arms);
        let n = arm_picks(judgments, executed.drop_last(), arms, false).len();
        assert forall|i: int|
            0 <= i < arm_picks(judgments, executed, arms, false).len() implies (
        #[trigger] arm_picks(judgments, executed, arms, false)[i]).label == arm_picks(
            judgments,
            executed,
            arms,
            true,
        )[i].label by {
            if i < n {
                assert(arm_picks(judgments, executed.drop_last(), arms, false)[i].label
                    == arm_picks(judgments, executed.drop_last(), arms, true)[i].label);
            }
        }
    }
}

/// Cases with a judgment.
pub open spec fn judged_case(judgments: Seq<JudgedLabel>) -> spec_fn(ExecutedCase) -> bool {
    |e: ExecutedCase| label_of(judgments, e) is Some
}

/// Every judged case counts once: as an explicit request, as one without
/// stage evidence, as one that some policy cannot score, or in the shared
/// cohort. The comparison is complete exactly where every judged advisory case
/// is in that cohort.
pub proof fn lemma_judged_cases_partition(
    r: BaselineComparison,
    executed: Seq<ExecutedCase>,
    judgments: Seq<JudgedLabel>,
    threshold: Score,
)
    requires
        compares(r, executed, judgments, threshold),
    ensures
        r.explicit_cases_excluded + r.cases_without_evidence + r.excluded_unscorable
            + r.shared_cohort_cases == tally(executed, judged_case(judgments)),
        r.complete <==> r.explicit_cases_excluded + r.shared_cohort_cases == tally(
            executed,
            judged_case(judgments),
        ),
{
    let advisory = |e: ExecutedCase|
        label_of(judgments, e) is Some && label_of(judgments, e)->0.advisory();
    let ranked = |e: ExecutedCase| advisory(e) && !e.record.operational_failure;
    lemma_tally_split(executed, judged_case(judgments), explicit_case(judgments), advisory);
    lemma_tally_split(executed, advisory, failed_case(judgments), ranked);
    lemma_tally_split(executed, ranked, bare_case(judgments), cohort_case(judgments));
}

/// Every judged positive case that admission is measured on counts once in the
/// shortlist stage: as one that passed its gate, as one a gate stopped, or as
/// one that ended before any wide answer. The intrinsic shortlist is measured
/// on those with a wide answer, gated or not.
pub proof fn lemma_stage_coverage_partition(
    coverage: StageCoverage,
    judgments: Seq<JudgedLabel>,
    executed: Seq<ExecutedCase>,
)
    requires
        covers(coverage, judgments, executed),
    ensures
        coverage.admitted.denominator == coverage.shortlist.denominator
            + coverage.shortlist_gated_out + coverage.no_wide_answer,
        coverage.intrinsic_shortlist.denominator == coverage.shortlist.denominator
            + coverage.shortlist_gated_out,
{
    lemma_tally_split(
        executed,
        positive_cohort(judgments),
        wide_case(judgments),
        no_wide_case(judgments),
    );
    lemma_tally_split(
        executed,
        wide_case(judgments),
        passed_case(judgments),
        gated_case(judgments),
    );
}

proof fn lemma_push<A>(s: Seq<A>, x: A)
    ensures
        s.push(x).drop_last() == s,
        s.push(x).last() == x,
{
    assert(s.push(x).drop_last() =~= s);
}

/// One where a condition holds, else nothing.
pub open spec fn counted(yes: bool) -> int {
    if yes {
        1
    } else {
        0
    }
}

/// Whether a case is judged, asks for advice, ranked and has stage evidence.
pub open spec fn has_stages(judgments: Seq<JudgedLabel>, e: ExecutedCase) -> bool {
    let label = judgment_of(judgments, e.record.key.case_id@);
    label is Some && label->0.explicit_directive is None && !e.record.operational_failure
        && e.evidence is Some
}

/// Without a case the stages cover nothing.
pub proof fn lemma_no_case_covers_nothing(
    c: StageCoverage,
    judgments: Seq<JudgedLabel>,
    executed: Seq<ExecutedCase>,
)
    requires
        executed.len() == 0,
        covers(c, judgments, executed),
    ensures
        c.admitted.denominator == 0 && c.admitted.successes == 0,
        c.shortlist.denominator == 0 && c.shortlist.successes == 0,
        c.intrinsic_shortlist.denominator == 0 && c.intrinsic_shortlist.successes == 0,
        c.shortlist_gated_out == 0 && c.no_wide_answer == 0 && c.quill_ranked_cases == 0,
{
}

/// What one more case adds to the coverage of the stages. A case without a
/// judgment, an explicit request, a failed ranking and a case without stage
/// evidence add nothing, and a case that no skill would have helped only its
/// lexical ranking. Any other is asked at each stage it reached whether some
/// place there holds an acceptable skill: among the admitted skills, in the
/// shortlist where it passed its gate, and in the intrinsic shortlist where the
/// wide stage answered.
pub proof fn lemma_one_more_case_covered(
    c: StageCoverage,
    d: StageCoverage,
    judgments: Seq<JudgedLabel>,
    executed: Seq<ExecutedCase>,
    e: ExecutedCase,
)
    requires
        covers(c, judgments, executed),
        covers(d, judgments, executed.push(e)),
    ensures
        ({
            let label = judgment_of(judgments, e.record.key.case_id@)->0;
            let stages = e.evidence->0;
            let wide = stages.wide->0;
            let asked = has_stages(judgments, e) && label.positive();
            let answered = asked && stages.wide is Some;
            let passed = answered && !wide.low_need;
            &&& d.admitted.denominator - c.admitted.denominator == counted(asked)
            &&& d.admitted.successes - c.admitted.successes == counted(
                asked && (exists|i: int|
                    0 <= i < stages.admitted@.len() && label.accepts(
                        (#[trigger] stages.admitted@[i])@,
                    )),
            )
            &&& d.shortlist.denominator - c.shortlist.denominator == counted(passed)
            &&& d.shortlist.successes - c.shortlist.successes == counted(
                passed && (exists|i: int|
                    0 <= i < wide.shortlist@.len() && label.accepts(
                        (#[trigger] wide.shortlist@[i]).0@,
                    )),
            )
            &&& d.intrinsic_shortlist.denominator - c.intrinsic_shortlist.denominator == counted(
                answered,
            )
            &&& d.intrinsic_shortlist.successes - c.intrinsic_shortlist.successes == counted(
                answered && (exists|i: int|
                    0 <= i < wide.intrinsic_shortlist@.len() && label.accepts(
                        (#[trigger] wide.intrinsic_shortlist@[i])@,
                    )),
            )
            &&& d.shortlist_gated_out - c.shortlist_gated_out == counted(
                answered && wide.low_need,
            )
            &&& d.no_wide_answer - c.no_wide_answer == counted(asked && stages.wide is None)
            &&& d.quill_ranked_cases - c.quill_ranked_cases == counted(
                has_stages(judgments, e) && stages.quill_ranked,
            )
        }),
{
    lemma_push(executed, e);
}

/// Where every shortlist is empty no case is a hit, and where every shortlist
/// begins with an acceptable skill every case that passed its gate is one.
pub proof fn lemma_shortlist_hits_follow_the_shortlists(
    c: StageCoverage,
    judgments: Seq<JudgedLabel>,
    executed: Seq<ExecutedCase>,
)
    requires
        covers(c, judgments, executed),
    ensures
        (forall|i: int|
            0 <= i < executed.len() && has_stages(judgments, executed[i]) && executed[i].evidence->0.wide
                is Some ==> (#[trigger] executed[i]).evidence->0.wide->0.shortlist@.len() == 0)
            ==> c.shortlist.successes == 0,
        (forall|i: int|
            0 <= i < executed.len() && has_stages(judgments, executed[i]) && executed[i].evidence->0.wide
                is Some && judgment_of(judgments, executed[i].record.key.case_id@)->0.positive()
                ==> {
                let wide = (#[trigger] executed[i]).evidence->0.wide->0;
                &&& wide.shortlist@.len() > 0
                &&& judgment_of(judgments, executed[i].record.key.case_id@)->0.accepts(
                    wide.shortlist@[0].0@,
                )
            }) ==> c.shortlist.successes == c.shortlist.denominator,
{
    if forall|i: int|
        0 <= i < executed.len() && has_stages(judgments, executed[i]) && executed[i].evidence->0.wide
            is Some ==> (#[trigger] executed[i]).evidence->0.wide->0.shortlist@.len() == 0 {
        assert forall|i: int| 0 <= i < executed.len() implies !shortlist_hit(judgments)(
            #[trigger] executed[i],
        ) by {
            assert(executed[i].evidence == executed[i].evidence);
        }
        lemma_tally_zero(executed, shortlist_hit(judgments));
    }
    if forall|i: int|
        0 <= i < executed.len() && has_stages(judgments, executed[i]) && executed[i].evidence->0.wide
            is Some && judgment_of(judgments, executed[i].record.key.case_id@)->0.positive() ==> {
            let wide = (#[trigger] executed[i]).evidence->0.wide->0;
            &&& wide.shortlist@.len() > 0
            &&& judgment_of(judgments, executed[i].record.key.case_id@)->0.accepts(
                wide.shortlist@[0].0@,
            )
        } {
        let none = |e: ExecutedCase| false;
        assert forall|i: int| 0 <= i < executed.len() implies passed_case(judgments)(
            #[trigger] executed[i],
        ) == (shortlist_hit(judgments)(executed[i]) || none(executed[i])) && !(shortlist_hit(
            judgments,
        )(executed[i]) && none(executed[i])) by {
            if passed_case(judgments)(executed[i]) {
                let wide = executed[i].evidence->0.wide->0;
                assert(label_of(judgments, executed[i])->0.accepts(wide.shortlist@[0].0@));
            }
        }
        lemma_tally_split(executed, passed_case(judgments), shortlist_hit(judgments), none);
        lemma_tally_zero(executed, none);
    }
}

/// What one more case adds to the counts of a comparison: an unjudged one
/// nothing, any other exactly one of them. It is in the shared cohort where it
/// failed, or where every policy finds the answer it reads.
pub proof fn lemma_one_more_case_compared(
    a: BaselineComparison,
    b: BaselineComparison,
    executed: Seq<ExecutedCase>,
    judgments: Seq<JudgedLabel>,
    threshold: Score,
    e: ExecutedCase,
)
    requires
        compares(a, executed, judgments, threshold),
        compares(b, executed.push(e), judgments, threshold),
    ensures
        ({
            let label = judgment_of(judgments, e.record.key.case_id@);
            let explicit = label is Some && label->0.explicit_directive is Some;
            let advisory = label is Some && label->0.explicit_directive is None;
            let failed = advisory && e.record.operational_failure;
            let bare = advisory && !e.record.operational_failure && e.evidence is None;
            let stages = e.evidence->0;
            let full = stages.lexical is Some && stages.wide is Some && (
            stages.wide->0.low_need || stages.rerank is Some);
            &&& b.explicit_cases_excluded - a.explicit_cases_excluded == counted(explicit)
            &&& b.operational_failures - a.operational_failures == counted(failed)
            &&& b.cases_without_evidence - a.cases_without_evidence == counted(bare)
            &&& b.excluded_unscorable - a.excluded_unscorable == counted(
                has_stages(judgments, e) && !full,
            )
            &&& b.shared_cohort_cases - a.shared_cohort_cases == counted(
                failed || (has_stages(judgments, e) && full),
            )
            &&& b.complete == (a.complete && !bare && !(has_stages(judgments, e) && !full))
        }),
{
    lemma_push(executed, e);
    if e.evidence is Some {
        lemma_unscorable_exactly_without_evidence(e.evidence->0, e.record, threshold);
    }
}

/// The pick that one more case adds under a policy. A failed case is a failed
/// pick under every policy. A case that some policy cannot score is unscored
/// under every one. Any other is picked for by that policy, and only under the
/// production decision with its whole published list.
pub proof fn lemma_one_more_case_picked(
    judgments: Seq<JudgedLabel>,
    k: int,
    threshold: Score,
    executed: Seq<ExecutedCase>,
    e: ExecutedCase,
)
    requires
        0 <= k < POLICY_COUNT,
    ensures
        ({
            let before = policy_picks(judgments, k, threshold, executed);
            let after = policy_picks(judgments, k, threshold, executed.push(e));
            let label = judgment_of(judgments, e.record.key.case_id@);
            let failed = label is Some && label->0.explicit_directive is None
                && e.record.operational_failure;
            let stages = e.evidence->0;
            let full = stages.lexical is Some && stages.wide is Some && (
            stages.wide->0.low_need || stages.rerank is Some);
            let pick = after.last();
            &&& !failed && !has_stages(judgments, e) ==> after == before
            &&& failed || has_stages(judgments, e) ==> {
                &&& after.len() == before.len() + 1
                &&& after.drop_last() == before
                &&& pick.label == label->0
                &&& pick.failed == failed
            }
            &&& has_stages(judgments, e) ==> {
                &&& pick.top is Err == !full
                &&& full ==> pick.top == policy_pick(k, stages, e.record, threshold)
                &&& pick.published == if k == 4 {
                    Some(e.record.suggested_skills@)
                } else {
                    None
                }
            }
        }),
{
    lemma_push(executed, e);
    if e.evidence is Some {
        lemma_unscorable_exactly_without_evidence(e.evidence->0, e.record, threshold);
    }
    if let Some(pick) = case_pick(judgments, k, threshold, e) {
        lemma_push(policy_picks(judgments, k, threshold, executed), pick);
    }
}

/// The calibration pairs that one more case adds: each of its reranked skills
/// in order, by its fit and by whether the judgment accepts it.
pub proof fn lemma_one_more_case_calibrates(
    judgments: Seq<JudgedLabel>,
    executed: Seq<ExecutedCase>,
    e: ExecutedCase,
)
    ensures
        ({
            let before = calibration_samples(judgments, executed);
            let after = calibration_samples(judgments, executed.push(e));
            let label = judgment_of(judgments, e.record.key.case_id@)->0;
            let reranked = has_stages(judgments, e) && e.evidence->0.rerank is Some;
            let candidates = e.evidence->0.rerank->0.candidates@;
            &&& !reranked ==> after == before
            &&& reranked ==> {
                &&& after.len() == before.len() + candidates.len()
                &&& after.take(before.len() as int) == before
                &&& forall|i: int|
                    0 <= i < candidates.len() ==> {
                        &&& (#[trigger] after[before.len() + i]).0 == candidates[i].fit
                        &&& after[before.len() + i].1 == label.accepts(candidates[i].id@)
                    }
            }
        }),
{
    lemma_push(executed, e);
    let before = calibration_samples(judgments, executed);
    let after = calibration_samples(judgments, executed.push(e));
    if cohort_case(judgments)(e) {
        assert(after =~= before + case_samples(
            judgment_of(judgments, e.record.key.case_id@)->0,
            e.evidence->0,
        ));
        assert(after.take(before.len() as int) =~= before);
        if e.evidence->0.rerank is None {
            assert(after =~= before);
        }
    }
}

/// One more pair counts in the bin between whose edges its fit lies, the upper
/// one of the last bin included, and as acceptable there where it is.
pub proof fn lemma_one_more_pair_binned(
    samples: Seq<(Score, bool)>,
    s: (Score, bool),
    b: int,
    x: CalibrationBin,
    y: CalibrationBin,
)
    requires
        0 <= b < BIN_COUNT,
        bin_over(samples, b, x),
        bin_over(samples.push(s), b, y),
    ensures
        x.lower == y.lower && x.upper == y.upper,
        ({
            let inside = s.0.at_least_spec(x.lower) && (s.0.below_spec(x.upper) || (b == BIN_COUNT
                - 1 && x.upper.at_least_spec(s.0)));
            &&& y.pairs - x.pairs == counted(inside)
            &&& y.acceptable.denominator == y.pairs
            &&& y.acceptable.successes - x.acceptable.successes == counted(inside && s.1)
        }),
        samples.len() == 0 ==> x.pairs == 0 && x.acceptable.successes == 0,
{
    lemma_push(samples, s);
}

/// A calibration stands in a comparison exactly where there is a pair to hold
/// against a judgment. It names its frame, keeps every pair in order, and has
/// five bins, of which each counts among the pairs.
pub proof fn lemma_calibration_keeps_its_pairs(
    r: BaselineComparison,
    executed: Seq<ExecutedCase>,
    judgments: Seq<JudgedLabel>,
    threshold: Score,
)
    requires
        compares(r, executed, judgments, threshold),
    ensures
        r.fit_calibration is Some <==> calibration_samples(judgments, executed).len() > 0,
        r.fit_calibration is Some ==> {
            let c = r.fit_calibration->0;
            &&& c.frame@ == "every reranked (case, skill) pair of the judged advisory cohort"@
            &&& c.samples@ == calibration_samples(judgments, executed)
            &&& c.bins@.len() == 5
            &&& forall|b: int|
                0 <= b < 5 ==> {
                    &&& (#[trigger] c.bins@[b]).pairs <= c.samples@.len()
                    &&& c.bins@[b].acceptable.successes <= c.bins@[b].pairs
                    &&& c.bins@[b].acceptable.denominator == c.bins@[b].pairs
                }
        },
{
    if r.fit_calibration is Some {
        let c = r.fit_calibration->0;
        let samples = c.samples@;
        assert forall|b: int| 0 <= b < 5 implies {
            &&& (#[trigger] c.bins@[b]).pairs <= samples.len()
            &&& c.bins@[b].acceptable.successes <= c.bins@[b].pairs
            &&& c.bins@[b].acceptable.denominator == c.bins@[b].pairs
        } by {
            assert(bin_over(samples, b, c.bins@[b]));
            lemma_tally_bound(samples, sample_in(b));
            lemma_tally_monotone(samples, sample_accepted_in(b), sample_in(b));
        }
    }
}

/// The bins are the fifths of the unit interval: they begin at zero and end at
/// one, each begins where the one before it ends, and the edges ascend.
pub proof fn lemma_bins_are_fifths(samples: Seq<(Score, bool)>, bins: Seq<CalibrationBin>)
    requires
        bins.len() == BIN_COUNT,
        forall|b: int| 0 <= b < BIN_COUNT ==> bin_over(samples, b, #[trigger] bins[b]),
    ensures
        bins[0].lower.bits == 0,
        bins[4].upper.bits == 0x3ff0_0000_0000_0000,
        forall|b: int|
            0 <= b < 4 ==> (#[trigger] bins[b]).upper == bins[b + 1].lower,
        forall|b: int|
            0 <= b < BIN_COUNT ==> (#[trigger] bins[b]).lower.bits < bins[b].upper.bits,
        bins[1].lower.bits == 0x3fc9_9999_9999_999a,
        bins[2].lower.bits == 0x3fd9_9999_9999_999a,
        bins[3].lower.bits == 0x3fe3_3333_3333_3333,
        bins[4].lower.bits == 0x3fe9_9999_9999_999a,
{
    assert(bin_over(samples, 0, bins[0]) && bin_over(samples, 1, bins[1]));
    assert(bin_over(samples, 2, bins[2]) && bin_over(samples, 3, bins[3]));
    assert(bin_over(samples, 4, bins[4]));
}

proof fn lemma_tally_of_same_numbers(s: Seq<u64>, t: Seq<u64>, p: spec_fn(u64) -> bool)
    requires
        s.to_multiset() == t.to_multiset(),
    ensures
        tally(s, p) == tally(t, p),
    decreases s.len(),
{
    broadcast use vstd::seq_lib::group_to_multiset_ensures;

    assert(s.len() == s.to_multiset().len() && t.len() == t.to_multiset().len());
    if s.len() > 0 {
        let x = s.last();
        assert(s.contains(x));
        assert(t.to_multiset().contains(x));
        let j = t.index_of(x);
        assert(t.contains(x));
        assert(0 <= j < t.len() && t[j] == x);
        let rest = t.remove(j);
        assert(s.remove(s.len() - 1) =~= s.drop_last());
        assert(s.drop_last().to_multiset() =~= rest.to_multiset());
        lemma_tally_of_same_numbers(s.drop_last(), rest, p);
        let (u, v) = (t.take(j), t.skip(j + 1));
        assert(rest =~= u + v);
        assert(t =~= u + seq![x] + v);
        lemma_tally_concat(u, v, p);
        lemma_tally_concat(u + seq![x], v, p);
        lemma_tally_concat(u, seq![x], p);
        assert(seq![x].drop_last() =~= Seq::<u64>::empty());
        assert(tally(seq![x], p) == tally(Seq::<u64>::empty(), p) + counted(p(x)));
    }
}

proof fn lemma_tally_of_ascending(order: Seq<u64>, r: int)
    requires
        ascending(order),
        1 <= r <= order.len(),
    ensures
        tally(order, |x: u64| x <= order[r - 1]) >= r,
        tally(order, |x: u64| x < order[r - 1]) < r,
{
    let v = order[r - 1];
    let most = |x: u64| x <= v;
    let less = |x: u64| x < v;
    let (head, tail) = (order.take(r), order.skip(r));
    assert(order =~= head + tail);
    lemma_tally_concat(head, tail, most);
    assert forall|i: int| 0 <= i < head.len() implies most(#[trigger] head[i]) by {
        assert(order[i] <= order[r - 1]);
    }
    lemma_tally_full(head, most);
    let (front, back) = (order.take(r - 1), order.skip(r - 1));
    assert(order =~= front + back);
    lemma_tally_concat(front, back, less);
    assert forall|i: int| 0 <= i < back.len() implies !less(#[trigger] back[i]) by {
        assert(order[r - 1] <= order[r - 1 + i]);
    }
    lemma_tally_zero(back, less);
    lemma_tally_bound(front, less);
}

/// Whether a time is the given percentile of some: one of them, with at least
/// that share of them at or below it, and less than that share below it.
pub open spec fn is_percentile(samples: Seq<u64>, percent: int, time: u64) -> bool {
    &&& samples.contains(time)
    &&& 100 * tally(samples, |x: u64| x <= time) >= percent * samples.len()
    &&& 100 * tally(samples, |x: u64| x < time) < percent * samples.len()
}

proof fn lemma_nearest_rank_shares(samples: Seq<u64>, order: Seq<u64>, percent: int)
    requires
        samples.len() > 0,
        0 < percent <= 100,
        ascending(order),
        order.to_multiset() == samples.to_multiset(),
        order.len() == samples.len(),
    ensures
        1 <= nearest_rank(samples.len() as int, percent) <= samples.len(),
        is_percentile(samples, percent, order[nearest_rank(samples.len() as int, percent) - 1]),
{
    broadcast use vstd::seq_lib::group_to_multiset_ensures;

    let n = samples.len() as int;
    let r = nearest_rank(n, percent);
    assert(n * percent <= n * 100) by (nonlinear_arith)
        requires
            n > 0,
            0 < percent <= 100,
    ;
    assert(n * percent >= n) by (nonlinear_arith)
        requires
            n > 0,
            percent >= 1,
    ;
    let v = order[r - 1];
    lemma_tally_of_ascending(order, r);
    lemma_tally_of_same_numbers(samples, order, |x: u64| x <= v);
    lemma_tally_of_same_numbers(samples, order, |x: u64| x < v);
    assert(order.contains(v));
    assert(samples.to_multiset().contains(v));
    assert(percent * n == n * percent) by (nonlinear_arith);
}

/// The percentiles of a latency summary are those of its samples: half of them
/// are at or below the first, nineteen in twenty at or below the second, and so
/// on, and the last is the greatest of them.
pub proof fn lemma_latency_shares(summary: LatencySummary, samples: Seq<u64>)
    requires
        samples.len() > 0,
        has_percentiles(summary, samples),
    ensures
        summary.cases == samples.len(),
        is_percentile(samples, 50, summary.p50),
        is_percentile(samples, 95, summary.p95),
        is_percentile(samples, 99, summary.p99),
        samples.contains(summary.max),
        forall|i: int| 0 <= i < samples.len() ==> #[trigger] samples[i] <= summary.max,
{
    broadcast use vstd::seq_lib::group_to_multiset_ensures;

    let order = choose|order: Seq<u64>| #[trigger] summarizes(summary, samples, order);
    lemma_nearest_rank_shares(samples, order, 50);
    lemma_nearest_rank_shares(samples, order, 95);
    lemma_nearest_rank_shares(samples, order, 99);
    let n = samples.len() as int;
    assert(order.contains(order[n - 1]));
    assert(samples.to_multiset().contains(summary.max));
    assert forall|i: int| 0 <= i < n implies #[trigger] samples[i] <= summary.max by {
        assert(samples.contains(samples[i]));
        assert(order.to_multiset().contains(samples[i]));
        assert(order.contains(samples[i]));
        let j = choose|j: int| 0 <= j < order.len() && order[j] == samples[i];
        assert(order[j] <= order[n - 1]);
    }
}

/// What one more case and its second arm add to an ablation. An arm that
/// answered or failed on a judged advisory case adds a pick to either side: of
/// the production list under the full context, and of the arm's own list, or a
/// failure, under the latest request alone.
pub proof fn lemma_one_more_arm(
    judgments: Seq<JudgedLabel>,
    executed: Seq<ExecutedCase>,
    arms: Seq<AblationArm>,
    e: ExecutedCase,
    arm: AblationArm,
)
    requires
        arms.len() == executed.len(),
    ensures
        ({
            let label = judgment_of(judgments, e.record.key.case_id@);
            let ran = label is Some && label->0.explicit_directive is None && (arm is Answered
                || arm is Failed);
            let recent = arm_picks(judgments, executed.push(e), arms.push(arm), false);
            let latest = arm_picks(judgments, executed.push(e), arms.push(arm), true);
            let own = e.record.suggested_skills@;
            let other = arm->Answered_0@;
            &&& !ran ==> recent == arm_picks(judgments, executed, arms, false) && latest
                == arm_picks(judgments, executed, arms, true)
            &&& ran ==> {
                &&& recent.drop_last() == arm_picks(judgments, executed, arms, false)
                &&& latest.drop_last() == arm_picks(judgments, executed, arms, true)
                &&& recent.len() > 0 && latest.len() > 0
                &&& recent.last().label == label->0 && latest.last().label == label->0
                &&& !recent.last().failed
                &&& recent.last().published == Some(own)
                &&& recent.last().top is Ok
                &&& own.len() > 0 ==> recent.last().top->Ok_0 == Some(own[0]@)
                &&& own.len() == 0 ==> recent.last().top->Ok_0 is None
                &&& latest.last().failed == (arm is Failed)
                &&& arm is Answered ==> latest.last().published == Some(other)
                &&& arm is Answered && other.len() > 0 ==> latest.last().top == Ok::<
                    Option<Seq<char>>,
                    (),
                >(Some(other[0]@))
                &&& arm is Answered && other.len() == 0 ==> latest.last().top == Ok::<
                    Option<Seq<char>>,
                    (),
                >(None)
            }
        }),
{
    lemma_push(executed, e);
    lemma_same_arms(judgments, executed, arms, arm, false);
    lemma_same_arms(judgments, executed, arms, arm, true);
    if paired(judgments, e, arm) {
        let before = arm_picks(judgments, executed, arms, false);
        let other = arm_picks(judgments, executed, arms, true);
        lemma_push(before, arm_picks(judgments, executed.push(e), arms.push(arm), false).last());
        lemma_push(other, arm_picks(judgments, executed.push(e), arms.push(arm), true).last());
    }
}

proof fn lemma_same_arms(
    judgments: Seq<JudgedLabel>,
    executed: Seq<ExecutedCase>,
    arms: Seq<AblationArm>,
    arm: AblationArm,
    second: bool,
)
    requires
        executed.len() <= arms.len(),
    ensures
        arm_picks(judgments, executed, arms.push(arm), second) == arm_picks(
            judgments,
            executed,
            arms,
            second,
        ),
    decreases executed.len(),
{
    if executed.len() > 0 {
        lemma_same_arms(judgments, executed.drop_last(), arms, arm, second);
    }
}

/// The two sides of an ablation: the full context is scored on the production
/// picks, the latest request alone on those of the second arms, over as many
/// cases, and the arms that failed or were not sent are counted as such.
pub proof fn lemma_ablation_scores_both_sides(
    r: ContextAblation,
    executed: Seq<ExecutedCase>,
    judgments: Seq<JudgedLabel>,
    arms: Seq<AblationArm>,
)
    requires
        ablates(r, executed, judgments, arms),
    ensures
        r.recent_context.operational_failures == 0,
        r.recent_context.evaluated_cases == r.cases,
        r.latest_request_only.evaluated_cases == r.cases,
        r.arm_failures + r.skipped_for_budget <= arms.len(),
        (forall|i: int| 0 <= i < arms.len() ==> !(#[trigger] arms[i] is Failed)) ==> r.arm_failures
            == 0 && (executed.len() <= arms.len() ==> r.latest_request_only.operational_failures == 0),
        (forall|i: int| 0 <= i < arms.len() ==> !(#[trigger] arms[i] is Skipped))
            ==> r.skipped_for_budget == 0,
{
    let recent = arm_picks(judgments, executed, arms, false);
    let latest = arm_picks(judgments, executed, arms, true);
    lemma_arm_picks_scored(judgments, executed, arms);
    lemma_arms_share_cohort(judgments, executed, arms);
    lemma_tally_zero(recent, pick_failed());
    lemma_tally_full(recent, pick_evaluated());
    lemma_tally_full(latest, pick_evaluated());
    lemma_tally_zero(arms, arm_failed());
    lemma_tally_zero(arms, arm_skipped());
    let other = |arm: AblationArm| !(arm is Failed);
    let every = |arm: AblationArm| true;
    lemma_tally_split(arms, every, arm_failed(), other);
    lemma_tally_monotone(arms, arm_skipped(), other);
    lemma_tally_full(arms, every);
    if forall|i: int| 0 <= i < arms.len() ==> !(#[trigger] arms[i] is Failed) {
        if executed.len() <= arms.len() {
            lemma_no_failed_arm(judgments, executed, arms);
            lemma_tally_zero(latest, pick_failed());
        }
    }
}

proof fn lemma_arm_picks_scored(
    judgments: Seq<JudgedLabel>,
    executed: Seq<ExecutedCase>,
    arms: Seq<AblationArm>,
)
    ensures
        forall|i: int|
            0 <= i < arm_picks(judgments, executed, arms, false).len() ==> !(
            #[trigger] arm_picks(judgments, executed, arms, false)[i]).failed && arm_picks(
                judgments,
                executed,
                arms,
                false,
            )[i].top is Ok,
        forall|i: int|
            0 <= i < arm_picks(judgments, executed, arms, true).len() ==> (#[trigger] arm_picks(
                judgments,
                executed,
                arms,
                true,
            )[i]).top is Ok,
    decreases executed.len(),
{
    if executed.len() > 0 {
        lemma_arm_picks_scored(judgments, executed.drop_last(), arms);
        let front = executed.drop_last();
        assert forall|i: int|
            0 <= i < arm_picks(judgments, executed, arms, false).len() implies !(
        #[trigger] arm_picks(judgments, executed, arms, false)[i]).failed && arm_picks(
            judgments,
            executed,
            arms,
            false,
        )[i].top is Ok by {
            if i < arm_picks(judgments, front, arms, false).len() {
                assert(arm_picks(judgments, front, arms, false)[i].top is Ok);
            }
        }
        assert forall|i: int|
            0 <= i < arm_picks(judgments, executed, arms, true).len() implies (
        #[trigger] arm_picks(judgments, executed, arms, true)[i]).top is Ok by {
            if i < arm_picks(judgments, front, arms, true).len() {
                assert(arm_picks(judgments, front, arms, true)[i].top is Ok);
            }
        }
    }
}

proof fn lemma_no_failed_arm(
    judgments: Seq<JudgedLabel>,
    executed: Seq<ExecutedCase>,
    arms: Seq<AblationArm>,
)
    requires
        executed.len() <= arms.len(),
        forall|i: int| 0 <= i < arms.len() ==> !(#[trigger] arms[i] is Failed),
    ensures
        forall|i: int|
            0 <= i < arm_picks(judgments, executed, arms, true).len() ==> !(
            #[trigger] arm_picks(judgments, executed, arms, true)[i]).failed,
    decreases executed.len(),
{
    if executed.len() > 0 {
        let front = executed.drop_last();
        lemma_no_failed_arm(judgments, front, arms);
        assert(!(arms[executed.len() - 1] is Failed));
        assert forall|i: int|
            0 <= i < arm_picks(judgments, executed, arms, true).len() implies !(
        #[trigger] arm_picks(judgments, executed, arms, true)[i]).failed by {
            if i < arm_picks(judgments, front, arms, true).len() {
                assert(!arm_picks(judgments, front, arms, true)[i].failed);
            }
        }
    }
}

} // verus!
