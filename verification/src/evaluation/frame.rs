//! Scoring a labeled frame: recorded or live decisions against independent
//! judgments.

use crate::evaluation::comparison::BaselineComparison;
use crate::evaluation::explain::{DesignLoss, ReportExplanation, SampleSummary};
use crate::evaluation::labels::{CaseKey, CaseKeyView, EvaluationCaseRecord};
use crate::evaluation::preflight::DisclosurePreflight;
use crate::evaluation::report::{
    report_views, skipped_views, BatchAccounting, BatchCaseReport,
    BatchLossSummary, CaseExecutionStatus, CaseReportView, CompletenessReport, EvaluationError,
    EvaluationErrorView, GateStatus, ReportError, RunStatus, SkipStatus, SkippedCase, SkippedView,
    StatusView,
    SCHEMA_VERSION,
};
use crate::evaluation::review::ReviewQueue;
use crate::tally::{
    lemma_tally_bound, lemma_tally_concat, lemma_tally_full, lemma_tally_split, lemma_tally_step,
    lemma_total_concat, lemma_total_step, tally, total,
};
use vstd::prelude::*;
use vstd::string::*;

verus! {

/// What came of matching a case with the judgments.
#[derive(Clone, Copy, Debug, PartialEq, Eq, Structural)]
pub enum LabelStatus {
    /// A judgment was found.
    Resolved,
    /// The key of the case is incomplete.
    NullKey,
    /// No judgment was found.
    Missing,
}

/// How a decision stands to its judgment.
#[derive(Clone, Copy, Debug, PartialEq, Eq, Structural)]
pub enum RelevanceClass {
    CorrectSuggestion,
    CorrectAbstention,
    FalseAbstention,
    WrongSuggestion,
    NeedlessSuggestion,
    OperationalFailure,
    /// Explicit requests are checked separately.
    Explicit,
    Unjudged,
}

impl RelevanceClass {
    /// A correct suggestion or abstention loses 0, a false abstention 1, a
    /// wrong or needless suggestion or an operational failure 2; explicit and
    /// unjudged cases carry no loss.
    pub open spec fn loss(self) -> Option<u32> {
        match self {
            RelevanceClass::CorrectSuggestion | RelevanceClass::CorrectAbstention => Some(0),
            RelevanceClass::FalseAbstention => Some(1),
            RelevanceClass::WrongSuggestion
            | RelevanceClass::NeedlessSuggestion
            | RelevanceClass::OperationalFailure => Some(2),
            RelevanceClass::Explicit | RelevanceClass::Unjudged => None,
        }
    }

    /// The loss of a class under the evaluation policy.
    pub fn policy_loss(self) -> (r: Option<u32>)
        ensures
            r == self.loss(),
    {
        match self {
            RelevanceClass::CorrectSuggestion | RelevanceClass::CorrectAbstention => Some(0),
            RelevanceClass::FalseAbstention => Some(1),
            RelevanceClass::WrongSuggestion
            | RelevanceClass::NeedlessSuggestion
            | RelevanceClass::OperationalFailure => Some(2),
            RelevanceClass::Explicit | RelevanceClass::Unjudged => None,
        }
    }
}

/// A case joined with its judgment.
#[derive(Clone, Debug, PartialEq, Eq)]
pub struct ResolvedCase {
    pub record: EvaluationCaseRecord,
    pub label_status: LabelStatus,
    pub relevance_class: RelevanceClass,
}

/// The loss of a joined case: that of its class where it is judged, and of a
/// failed ranking. Explicit requests and unjudged cases carry none.
pub open spec fn loss_of(case: ResolvedCase) -> Option<u32> {
    if case.relevance_class is OperationalFailure || case.label_status is Resolved {
        case.relevance_class.loss()
    } else {
        None
    }
}

/// The execution status of a joined case.
pub open spec fn status_of(case: ResolvedCase) -> StatusView {
    if case.relevance_class is OperationalFailure {
        StatusView::OperationalFailure { error_kind: "operational-failure"@, loss: 2 }
    } else if case.label_status is NullKey {
        StatusView::NotEstimable { reason: "case key is incomplete"@ }
    } else if case.label_status is Missing {
        StatusView::NotEstimable { reason: "no independent judgment for this case"@ }
    } else {
        StatusView::Completed {
            decision: case.record.decision@,
            recomputed: None,
            loss: loss_of(case),
        }
    }
}

/// The time recorded last for a case, or zero.
pub open spec fn elapsed_of(elapsed: Seq<(CaseKey, u64)>, key: CaseKeyView) -> u64
    decreases elapsed.len(),
{
    if elapsed.len() == 0 {
        0
    } else if elapsed.last().0@ == key {
        elapsed.last().1
    } else {
        elapsed_of(elapsed.drop_last(), key)
    }
}

/// The report of a joined case.
pub open spec fn resolved_report(
    case: ResolvedCase,
    elapsed: Seq<(CaseKey, u64)>,
) -> CaseReportView {
    CaseReportView {
        case_id: case.record.key.case_id@,
        family_id: Some(case.record.key.family_id@),
        status: status_of(case),
        elapsed_ms: elapsed_of(elapsed, case.record.key@),
    }
}

/// The report of a case that was never ranked.
pub open spec fn skipped_report(case: SkippedView) -> CaseReportView {
    CaseReportView {
        case_id: case.key.case_id,
        family_id: Some(case.key.family_id),
        status: case.status,
        elapsed_ms: 0,
    }
}

/// The reports of a frame: its joined cases, then those never ranked.
pub open spec fn frame_reports(
    resolved: Seq<ResolvedCase>,
    elapsed: Seq<(CaseKey, u64)>,
    skipped: Seq<SkippedView>,
) -> Seq<CaseReportView> {
    Seq::new(resolved.len(), |i: int| resolved_report(resolved[i], elapsed)) + Seq::new(
        skipped.len(),
        |i: int| skipped_report(skipped[i]),
    )
}

pub open spec fn case_failed() -> spec_fn(ResolvedCase) -> bool {
    |c: ResolvedCase| c.relevance_class is OperationalFailure
}

pub open spec fn case_not_estimable() -> spec_fn(ResolvedCase) -> bool {
    |c: ResolvedCase| !(c.relevance_class is OperationalFailure) && !(c.label_status is Resolved)
}

pub open spec fn case_completed() -> spec_fn(ResolvedCase) -> bool {
    |c: ResolvedCase| c.label_status is Resolved || loss_of(c) is Some
}

pub open spec fn case_attempted() -> spec_fn(ResolvedCase) -> bool {
    |c: ResolvedCase| loss_of(c) is Some
}

pub open spec fn case_loss() -> spec_fn(ResolvedCase) -> nat {
    |c: ResolvedCase|
        match loss_of(c) {
            Some(loss) => loss as nat,
            None => 0,
        }
}

pub open spec fn skip_unfinished() -> spec_fn(SkippedView) -> bool {
    |s: SkippedView| s.status is Unfinished
}

pub open spec fn skip_not_estimable() -> spec_fn(SkippedView) -> bool {
    |s: SkippedView| !(s.status is Unfinished)
}

/// The losses of the attempted cases, in order.
pub open spec fn frame_losses(resolved: Seq<ResolvedCase>) -> Seq<(CaseKeyView, u32)>
    decreases resolved.len(),
{
    if resolved.len() == 0 {
        Seq::empty()
    } else {
        let rest = frame_losses(resolved.drop_last());
        match loss_of(resolved.last()) {
            Some(loss) => rest.push((resolved.last().record.key@, loss)),
            None => rest,
        }
    }
}

/// What keyed losses say.
pub open spec fn loss_views(losses: Seq<(CaseKey, u32)>) -> Seq<(CaseKeyView, u32)> {
    Seq::new(losses.len(), |i: int| (losses[i].0@, losses[i].1))
}

/// A scored frame.
pub struct FrameScore {
    pub reports: Vec<BatchCaseReport>,
    pub loss_summary: BatchLossSummary,
    /// The loss of each attempted case. A case that is not among them is
    /// missing from a design-weighted mean.
    pub losses: Vec<(CaseKey, u32)>,
    pub completed: usize,
}

/// Whether a score holds exactly the reports and counts of a frame.
pub open spec fn frame_scored(
    r: FrameScore,
    resolved: Seq<ResolvedCase>,
    elapsed: Seq<(CaseKey, u64)>,
    skipped: Seq<SkippedView>,
) -> bool {
    &&& report_views(r.reports@) == frame_reports(resolved, elapsed, skipped)
    &&& loss_views(r.losses@) == frame_losses(resolved)
    &&& r.completed == tally(resolved, case_completed())
    &&& r.loss_summary.attempted_cases == tally(resolved, case_attempted())
    &&& r.loss_summary.total_loss == total(resolved, case_loss())
    &&& r.loss_summary.operational_failures == tally(resolved, case_failed())
    &&& r.loss_summary.not_estimable_cases == tally(resolved, case_not_estimable()) + tally(
        skipped,
        skip_not_estimable(),
    )
    &&& r.loss_summary.unfinished_cases == tally(skipped, skip_unfinished())
}

fn elapsed_for(elapsed: &Vec<(CaseKey, u64)>, key: &CaseKey) -> (r: u64)
    ensures
        r == elapsed_of(elapsed@, key@),
{
    let mut i: usize = elapsed.len();
    assert(elapsed@.take(i as int) =~= elapsed@);
    while i > 0
        invariant
            i <= elapsed@.len(),
            elapsed_of(elapsed@, key@) == elapsed_of(elapsed@.take(i as int), key@),
        decreases i,
    {
        proof {
            assert(elapsed@.take(i as int).drop_last() =~= elapsed@.take(i - 1));
            assert(elapsed@.take(i as int).last() == elapsed@[i - 1]);
        }
        if elapsed[i - 1].0.same(key) {
            return elapsed[i - 1].1;
        }
        i = i - 1;
    }
    0
}

fn loss_for(case: &ResolvedCase) -> (r: Option<u32>)
    ensures
        r == loss_of(*case),
{
    match (case.relevance_class, case.label_status) {
        (RelevanceClass::OperationalFailure, _) => case.relevance_class.policy_loss(),
        (_, LabelStatus::Resolved) => case.relevance_class.policy_loss(),
        _ => None,
    }
}

fn status_for(case: &ResolvedCase) -> (r: CaseExecutionStatus)
    ensures
        r@ == status_of(*case),
{
    let failed: bool = match case.relevance_class {
        RelevanceClass::OperationalFailure => true,
        _ => false,
    };
    if failed {
        return CaseExecutionStatus::OperationalFailure {
            error_kind: "operational-failure".to_owned(),
            loss: 2,
        };
    }
    match case.label_status {
        LabelStatus::NullKey => CaseExecutionStatus::NotEstimable {
            reason: "case key is incomplete".to_owned(),
        },
        LabelStatus::Missing => CaseExecutionStatus::NotEstimable {
            reason: "no independent judgment for this case".to_owned(),
        },
        LabelStatus::Resolved => CaseExecutionStatus::Completed {
            decision: case.record.decision.clone(),
            recomputed: None,
            loss: loss_for(case),
        },
    }
}

/// Score the joined cases of a frame, and keep its never-ranked cases in the
/// denominator of what was requested: they carry no loss and are never counted
/// as successes.
pub fn score_cases(
    resolved: &Vec<ResolvedCase>,
    elapsed: &Vec<(CaseKey, u64)>,
    skipped: Vec<SkippedCase>,
) -> (r: FrameScore)
    requires
        2 * resolved@.len() <= u32::MAX,
        resolved@.len() + skipped@.len() <= usize::MAX,
    ensures
        frame_scored(r, resolved@, elapsed@, skipped_views(skipped@)),
        r.completed <= resolved@.len(),
        r.loss_summary.total_loss <= 2 * r.loss_summary.attempted_cases,
{
    let ghost cases = resolved@;
    let ghost skips = skipped_views(skipped@);
    let ghost all = skipped@;
    let mut reports: Vec<BatchCaseReport> = Vec::new();
    let mut losses: Vec<(CaseKey, u32)> = Vec::new();
    let mut attempted: usize = 0;
    let mut total_loss: u32 = 0;
    let mut failures: usize = 0;
    let mut not_estimable: usize = 0;
    let mut completed: usize = 0;
    let mut i: usize = 0;
    assert(cases.take(0) =~= Seq::<ResolvedCase>::empty());
    while i < resolved.len()
        invariant
            i <= resolved@.len(),
            cases == resolved@,
            2 * resolved@.len() <= u32::MAX,
            report_views(reports@) =~= Seq::new(
                i as nat,
                |j: int| resolved_report(cases[j], elapsed@),
            ),
            loss_views(losses@) =~= frame_losses(cases.take(i as int)),
            completed == tally(cases.take(i as int), case_completed()),
            attempted == tally(cases.take(i as int), case_attempted()),
            total_loss == total(cases.take(i as int), case_loss()),
            failures == tally(cases.take(i as int), case_failed()),
            not_estimable == tally(cases.take(i as int), case_not_estimable()),
            completed <= i,
            attempted <= i,
            failures <= i,
            not_estimable <= i,
            total_loss <= 2 * attempted,
        decreases resolved@.len() - i,
    {
        let case: &ResolvedCase = &resolved[i];
        let ghost reports_before = reports@;
        let ghost losses_before = losses@;
        proof {
            assert(cases.take(i + 1).drop_last() =~= cases.take(i as int));
            assert(cases.take(i + 1).last() == *case);
            lemma_tally_step(cases, i as int, case_completed());
            lemma_tally_step(cases, i as int, case_attempted());
            lemma_total_step(cases, i as int, case_loss());
            lemma_tally_step(cases, i as int, case_failed());
            lemma_tally_step(cases, i as int, case_not_estimable());
        }
        let status: CaseExecutionStatus = status_for(case);
        match &status {
            CaseExecutionStatus::OperationalFailure { .. } => {
                failures = failures + 1;
            },
            CaseExecutionStatus::NotEstimable { .. } => {
                not_estimable = not_estimable + 1;
            },
            _ => {},
        }
        let loss: Option<u32> = loss_for(case);
        let judged: bool = match case.label_status {
            LabelStatus::Resolved => true,
            _ => false,
        };
        if judged || loss.is_some() {
            completed = completed + 1;
        }
        if let Some(loss) = loss {
            attempted = attempted + 1;
            total_loss = total_loss + loss;
            losses.push((case.record.key.copy(), loss));
            assert(loss_views(losses@) =~= loss_views(losses_before).push(
                (case.record.key@, loss),
            ));
        }
        reports.push(
            BatchCaseReport {
                case_id: case.record.key.case_id.clone(),
                family_id: Some(case.record.key.family_id.clone()),
                status,
                elapsed_ms: elapsed_for(elapsed, &case.record.key),
            },
        );
        assert(report_views(reports@) =~= report_views(reports_before).push(
            resolved_report(*case, elapsed@),
        ));
        i = i + 1;
    }
    assert(cases.take(i as int) =~= cases);
    let ghost first = report_views(reports@);
    let mut unfinished: usize = 0;
    let mut never_ranked: usize = 0;
    assert(skips.take(0) =~= Seq::<SkippedView>::empty());
    let limit: usize = skipped.len();
    let joined: usize = resolved.len();
    for skip in it: skipped.into_iter()
        invariant
            it.seq() == all,
            skips == skipped_views(all),
            limit == all.len(),
            joined + limit <= usize::MAX,
            report_views(reports@) =~= first + Seq::new(
                it.index() as nat,
                |j: int| skipped_report(skips[j]),
            ),
            unfinished == tally(skips.take(it.index() as int), skip_unfinished()),
            never_ranked == tally(skips.take(it.index() as int), skip_not_estimable()),
            unfinished <= it.index(),
            never_ranked <= it.index(),
    {
        let ghost k = it.index() as int;
        let ghost reports_before = reports@;
        proof {
            lemma_tally_step(skips, k, skip_unfinished());
            lemma_tally_step(skips, k, skip_not_estimable());
            assert(skips[k] == skip@);
        }
        match &skip.status {
            SkipStatus::Unfinished { .. } => {
                unfinished = unfinished + 1;
            },
            SkipStatus::NotEstimable { .. } => {
                never_ranked = never_ranked + 1;
            },
        }
        reports.push(
            BatchCaseReport {
                case_id: skip.key.case_id,
                family_id: Some(skip.key.family_id),
                status: skip.status.reported(),
                elapsed_ms: 0,
            },
        );
        assert(report_views(reports@) =~= report_views(reports_before).push(
            skipped_report(skips[k]),
        ));
    }
    assert(skips.take(skips.len() as int) =~= skips);
    FrameScore {
        reports,
        loss_summary: BatchLossSummary {
            attempted_cases: attempted,
            total_loss,
            not_estimable_cases: not_estimable + never_ranked,
            unfinished_cases: unfinished,
            operational_failures: failures,
        },
        losses,
        completed,
    }
}

/// What a sample's selection supports.
#[derive(Clone, Copy, Debug, PartialEq, Eq, Structural)]
pub enum DesignStatus {
    /// A supplied seed reproduces a selection only.
    DiagnosticFixed,
    StratifiedProbabilitySample,
    FullCensus,
}

/// Whether a frame's loss is weighted by its design: a fixed seed supports
/// reproduction only, and its selection has no inclusion probabilities.
pub open spec fn design_weighted(sample: Option<DesignStatus>) -> bool {
    sample is Some && !(sample->0 is DiagnosticFixed)
}

/// Whether a frame's loss is weighted by its design.
pub fn weighs_design(sample: Option<DesignStatus>) -> (r: bool)
    ensures
        r == design_weighted(sample),
{
    match sample {
        Some(DesignStatus::DiagnosticFixed) => false,
        Some(_) => true,
        None => false,
    }
}

/// How a scored frame's decisions were produced, and the selected cases that
/// never produced one.
pub struct FrameRun {
    pub evidence_origin: String,
    pub accounting: BatchAccounting,
    /// Selected cases never ranked, in selection order, with why.
    pub skipped: Vec<SkippedCase>,
    /// Why scheduling stopped early; reported only for a partial run.
    pub error: Option<ReportError>,
    pub elapsed: Vec<(CaseKey, u64)>,
    pub preflight: Option<DisclosurePreflight>,
    pub baselines: Option<BaselineComparison>,
    pub review_queue: Option<ReviewQueue>,
}

impl FrameRun {
    /// A frame of recorded decisions.
    pub fn recorded() -> (r: FrameRun)
        ensures
            r.evidence_origin@ == "recorded"@,
            r.accounting == BatchAccounting::zero(),
            r.skipped@.len() == 0,
            r.error is None,
            r.elapsed@.len() == 0,
            r.preflight is None,
            r.baselines is None,
            r.review_queue is None,
    {
        FrameRun {
            evidence_origin: "recorded".to_owned(),
            accounting: BatchAccounting::default(),
            skipped: Vec::new(),
            error: None,
            elapsed: Vec::new(),
            preflight: None,
            baselines: None,
            review_queue: None,
        }
    }
}

/// A complete evaluation batch report.
#[derive(Clone, Debug, PartialEq, Eq)]
pub struct EvaluationBatchReport {
    pub schema_version: u64,
    pub kind: String,
    pub actionable: bool,
    pub run_status: RunStatus,
    pub gate_status: GateStatus,
    pub evidence_origin: String,
    pub completeness: CompletenessReport,
    pub loss_summary: BatchLossSummary,
    pub accounting: BatchAccounting,
    /// Whether independent judgments were joined; false for recorded replay.
    pub labeled: bool,
    /// The sample frozen before its selected cases were joined and scored.
    pub sample: Option<SampleSummary>,
    /// Design-weighted loss over a probability sample or census; never for a
    /// diagnostic fixed-seed selection.
    pub design_weighted_loss: Option<DesignLoss>,
    /// A live batch's disclosure, previewed for every case before any send.
    pub disclosure_preflight: Option<DisclosurePreflight>,
    /// Cases worth a closer look; outcome-selected, never a sample.
    pub review_queue: Option<ReviewQueue>,
    /// Intrinsic stage coverage and baseline policies over the same live answers.
    pub baselines: Option<BaselineComparison>,
    pub explanation: Option<ReportExplanation>,
    pub cases: Vec<BatchCaseReport>,
    pub error: Option<ReportError>,
}

impl EvaluationBatchReport {
    /// The quotient that is the mean loss.
    pub open spec fn mean_quotient(self) -> Option<(nat, nat)> {
        if self.labeled && self.loss_summary.attempted_cases > 0 {
            Some(
                (
                    self.loss_summary.total_loss as nat,
                    self.loss_summary.attempted_cases as nat,
                ),
            )
        } else {
            None
        }
    }

    /// The quotient that is the mean loss: the total loss over the attempted
    /// cases. An unlabeled report has none, since its attempted cases are its
    /// failures alone.
    pub fn mean_operands(&self) -> (r: Option<(u32, usize)>)
        ensures
            self.mean_quotient() == match r {
                Some((total, cases)) => Some((total as nat, cases as nat)),
                None => None,
            },
    {
        if self.labeled && self.loss_summary.attempted_cases > 0 {
            Some((self.loss_summary.total_loss, self.loss_summary.attempted_cases))
        } else {
            None
        }
    }
}

/// Whether a report says of a scored frame what it is to say. Decisions scored
/// here are evidence for a promotion review, not a passed gate.
pub open spec fn frame_reported(
    r: EvaluationBatchReport,
    score: FrameScore,
    reconciled: bool,
    run: FrameRun,
) -> bool {
    let complete = score.completed == score.reports@.len();
    &&& r.schema_version == SCHEMA_VERSION
    &&& r.kind@ == "report"@
    &&& !r.actionable
    &&& r.run_status == if complete {
        RunStatus::Complete
    } else {
        RunStatus::Partial
    }
    &&& r.gate_status is NotEstablished
    &&& r.evidence_origin == run.evidence_origin
    &&& r.completeness.cases_requested == score.reports@.len()
    &&& r.completeness.cases_completed == score.completed
    &&& r.completeness.stages_required == 0
    &&& r.completeness.stages_completed == 0
    &&& r.completeness.evidence_compatible == reconciled
    &&& r.loss_summary == score.loss_summary
    &&& r.accounting == run.accounting
    &&& r.labeled
    &&& r.disclosure_preflight == run.preflight
    &&& r.review_queue == run.review_queue
    &&& r.baselines == run.baselines
    &&& r.explanation is None
    &&& r.cases == score.reports
    &&& r.error == if complete {
        None
    } else {
        run.error
    }
}

/// Whether a report says what it is to say of a sample: its design-weighted
/// loss only where the design supports one.
pub open spec fn sample_reported(
    r: EvaluationBatchReport,
    sample: Option<SampleSummary>,
    design: Option<DesignLoss>,
) -> bool {
    &&& r.sample == sample
    &&& r.design_weighted_loss == match sample {
        Some(summary) => if design_weighted(Some(summary.design_status)) {
            design
        } else {
            None
        },
        None => None,
    }
}

/// Report a scored frame.
pub fn report_frame(
    score: FrameScore,
    reconciled: bool,
    sample: Option<SampleSummary>,
    design: Option<DesignLoss>,
    run: FrameRun,
) -> (r: EvaluationBatchReport)
    ensures
        frame_reported(r, score, reconciled, run),
        sample_reported(r, sample, design),
{
    let requested: usize = score.reports.len();
    let completed: usize = score.completed;
    let complete: bool = completed == requested;
    let weighted: bool = match &sample {
        Some(summary) => weighs_design(Some(summary.design_status)),
        None => false,
    };
    EvaluationBatchReport {
        schema_version: SCHEMA_VERSION,
        kind: "report".to_owned(),
        actionable: false,
        run_status: if complete {
            RunStatus::Complete
        } else {
            RunStatus::Partial
        },
        gate_status: GateStatus::NotEstablished,
        evidence_origin: run.evidence_origin,
        completeness: CompletenessReport {
            cases_requested: requested,
            cases_completed: completed,
            stages_required: 0,
            stages_completed: 0,
            evidence_compatible: reconciled,
        },
        loss_summary: score.loss_summary,
        accounting: run.accounting,
        labeled: true,
        sample,
        design_weighted_loss: if weighted {
            design
        } else {
            None
        },
        disclosure_preflight: run.preflight,
        review_queue: run.review_queue,
        baselines: run.baselines,
        explanation: None,
        cases: score.reports,
        error: if complete {
            None
        } else {
            run.error
        },
    }
}

/// The error of a report that the output contract refuses.
pub fn refused_report(labeled: bool, detail: &str) -> (r: EvaluationError)
    ensures
        r@ == EvaluationErrorView::InvalidField(
            (if labeled {
                "evaluation report exceeds or violates output contract: "@
            } else {
                "batch report exceeds or violates output contract: "@
            }) + detail@,
        ),
{
    let mut message: String = if labeled {
        "evaluation report exceeds or violates output contract: ".to_owned()
    } else {
        "batch report exceeds or violates output contract: ".to_owned()
    };
    message.append(detail);
    EvaluationError::InvalidField(message)
}

/// A frame is complete exactly where every case was ranked and every one was
/// judged or lost: a case that was never sent, or has no judgment, leaves the
/// run partial.
pub proof fn lemma_complete_exactly_when_all_judged(
    resolved: Seq<ResolvedCase>,
    elapsed: Seq<(CaseKey, u64)>,
    skipped: Seq<SkippedView>,
    score: FrameScore,
    reconciled: bool,
    run: FrameRun,
    report: EvaluationBatchReport,
)
    requires
        frame_scored(score, resolved, elapsed, skipped),
        frame_reported(report, score, reconciled, run),
    ensures
        report.completeness.cases_requested == resolved.len() + skipped.len(),
        report.run_status is Complete <==> skipped.len() == 0 && forall|i: int|
            0 <= i < resolved.len() ==> case_completed()(#[trigger] resolved[i]),
        report.error is Some ==> report.run_status is Partial,
{
    lemma_tally_bound(resolved, case_completed());
    assert(report_views(score.reports@).len() == score.reports@.len());
    lemma_tally_full(resolved, case_completed());
}

/// Each requested case is counted once: as completed, failed, not estimable or
/// unfinished. `completions` are those whose reported status is completed.
pub proof fn lemma_each_case_counts_once(
    resolved: Seq<ResolvedCase>,
    elapsed: Seq<(CaseKey, u64)>,
    skipped: Seq<SkippedView>,
    score: FrameScore,
)
    requires
        frame_scored(score, resolved, elapsed, skipped),
    ensures
        score.reports@.len() == tally(resolved, case_reported_completed())
            + score.loss_summary.operational_failures + score.loss_summary.not_estimable_cases
            + score.loss_summary.unfinished_cases,
{
    let all_cases = |c: ResolvedCase| true;
    let all_skips = |s: SkippedView| true;
    let ended = |c: ResolvedCase| !(c.relevance_class is OperationalFailure);
    lemma_tally_split(resolved, all_cases, case_failed(), ended);
    lemma_tally_split(resolved, ended, case_not_estimable(), case_reported_completed());
    lemma_tally_split(skipped, all_skips, skip_unfinished(), skip_not_estimable());
    lemma_tally_full(resolved, all_cases);
    lemma_tally_full(skipped, all_skips);
    assert(report_views(score.reports@).len() == score.reports@.len());
}

/// Whether a case is reported as completed.
pub open spec fn case_reported_completed() -> spec_fn(ResolvedCase) -> bool {
    |c: ResolvedCase| status_of(c) is Completed
}

/// Whether a joined case is an explicit request, or unjudged without having
/// failed.
pub open spec fn lossless(case: ResolvedCase) -> bool {
    ||| case.relevance_class is Explicit
    ||| case.relevance_class is Unjudged
    ||| !(case.label_status is Resolved) && !(case.relevance_class is OperationalFailure)
}

/// Explicit requests, and cases without a judgment whose ranking did not fail,
/// carry no loss.
pub proof fn lemma_only_judged_cases_lose(resolved: Seq<ResolvedCase>, i: int)
    requires
        0 <= i < resolved.len(),
        lossless(resolved[i]),
    ensures
        case_loss()(resolved[i]) == 0,
        !case_attempted()(resolved[i]),
        carried_loss(status_of(resolved[i])) is None,
{
}

/// The loss that a status carries.
pub open spec fn carried_loss(status: StatusView) -> Option<u32> {
    match status {
        StatusView::Completed { decision: _, recomputed: _, loss } => loss,
        StatusView::OperationalFailure { error_kind: _, loss } => Some(loss),
        _ => None,
    }
}

pub open spec fn carries_loss() -> spec_fn(CaseReportView) -> bool {
    |r: CaseReportView| carried_loss(r.status) is Some
}

pub open spec fn reported_loss() -> spec_fn(CaseReportView) -> nat {
    |r: CaseReportView|
        match carried_loss(r.status) {
            Some(loss) => loss as nat,
            None => 0,
        }
}

proof fn lemma_resolved_losses(resolved: Seq<ResolvedCase>, elapsed: Seq<(CaseKey, u64)>)
    ensures
        ({
            let reports = Seq::new(resolved.len(), |i: int| resolved_report(resolved[i], elapsed));
            &&& tally(reports, carries_loss()) == tally(resolved, case_attempted())
            &&& total(reports, reported_loss()) == total(resolved, case_loss())
        }),
    decreases resolved.len(),
{
    let reports = Seq::new(resolved.len(), |i: int| resolved_report(resolved[i], elapsed));
    if resolved.len() > 0 {
        let front = resolved.drop_last();
        lemma_resolved_losses(front, elapsed);
        assert(reports.drop_last() =~= Seq::new(
            front.len(),
            |i: int| resolved_report(front[i], elapsed),
        ));
    }
}

proof fn lemma_skipped_losses(skipped: Seq<SkippedCase>)
    ensures
        ({
            let reports = Seq::new(
                skipped.len(),
                |i: int| skipped_report(skipped_views(skipped)[i]),
            );
            &&& tally(reports, carries_loss()) == 0
            &&& total(reports, reported_loss()) == 0
        }),
    decreases skipped.len(),
{
    let reports = Seq::new(skipped.len(), |i: int| skipped_report(skipped_views(skipped)[i]));
    if skipped.len() > 0 {
        let front = skipped.drop_last();
        lemma_skipped_losses(front);
        assert(reports.drop_last() =~= Seq::new(
            front.len(),
            |i: int| skipped_report(skipped_views(front)[i]),
        ));
        assert(reports.last().status == skipped.last().status@);
    }
}

/// The loss of a report is what its cases carry: the attempted cases are those
/// that report a loss, the total is the sum of those losses, and there is a
/// mean, of that total over them, exactly where there is such a case. Explicit
/// requests, cases without a judgment and cases that were never ranked carry
/// none.
pub proof fn lemma_loss_is_what_cases_carry(
    resolved: Seq<ResolvedCase>,
    elapsed: Seq<(CaseKey, u64)>,
    skipped: Seq<SkippedCase>,
    score: FrameScore,
    reconciled: bool,
    run: FrameRun,
    report: EvaluationBatchReport,
)
    requires
        frame_scored(score, resolved, elapsed, skipped_views(skipped)),
        frame_reported(report, score, reconciled, run),
    ensures
        ({
            let carried = report_views(report.cases@);
            &&& report.loss_summary.attempted_cases == tally(carried, carries_loss())
            &&& report.loss_summary.total_loss == total(carried, reported_loss())
            &&& report.mean_quotient() == if tally(carried, carries_loss()) > 0 {
                Some((total(carried, reported_loss()), tally(carried, carries_loss())))
            } else {
                None
            }
        }),
        forall|i: int|
            0 <= i < resolved.len() && lossless(resolved[i]) ==> !carries_loss()(
                #[trigger] report_views(report.cases@)[i],
            ),
        forall|i: int|
            resolved.len() <= i < report.cases@.len() ==> !carries_loss()(
                #[trigger] report_views(report.cases@)[i],
            ),
{
    let ranked = Seq::new(resolved.len(), |i: int| resolved_report(resolved[i], elapsed));
    let unranked = Seq::new(
        skipped_views(skipped).len(),
        |i: int| skipped_report(skipped_views(skipped)[i]),
    );
    lemma_resolved_losses(resolved, elapsed);
    lemma_skipped_losses(skipped);
    lemma_tally_concat(ranked, unranked, carries_loss());
    lemma_total_concat(ranked, unranked, reported_loss());
    assert forall|i: int|
        resolved.len() <= i < report.cases@.len() implies !carries_loss()(
        #[trigger] report_views(report.cases@)[i],
    ) by {
        let k = i - resolved.len();
        assert(report_views(report.cases@)[i] == unranked[k]);
        assert(skipped_views(skipped)[k] == skipped[k]@);
    }
}

/// A right answer loses nothing, a needless silence half of what a wrong answer
/// does, and a failure as much as a wrong answer: a suggestion that is wrong is
/// no better than one that was not wanted. What cannot be judged has no loss.
pub proof fn lemma_loss_by_class(class: RelevanceClass)
    ensures
        class.loss() is None <==> class is Explicit || class is Unjudged,
        class is CorrectSuggestion || class is CorrectAbstention <==> class.loss() == Some(0u32),
        class is FalseAbstention <==> class.loss() == Some(1u32),
        class is WrongSuggestion || class is NeedlessSuggestion || class is OperationalFailure
            <==> class.loss() == Some(2u32),
{
}

/// What a joined case adds to the total loss.
pub open spec fn adds_loss(case: ResolvedCase, added: int) -> bool {
    let judged = case.label_status is Resolved;
    match case.relevance_class {
        RelevanceClass::OperationalFailure => added == 2,
        RelevanceClass::WrongSuggestion | RelevanceClass::NeedlessSuggestion => added == if judged {
            2int
        } else {
            0
        },
        RelevanceClass::FalseAbstention => added == if judged {
            1int
        } else {
            0
        },
        _ => added == 0,
    }
}

/// Whether a joined case is among those whose loss is averaged.
pub open spec fn averaged(case: ResolvedCase) -> bool {
    case.relevance_class is OperationalFailure || case.label_status is Resolved && !(
    case.relevance_class is Explicit) && !(case.relevance_class is Unjudged)
}

/// One more joined case adds itself to what it is and to nothing else: a failure
/// to the failures, a case without a judgment to those that cannot be estimated,
/// a judged or failed case to the completed ones and its loss to the total. Its
/// report stands behind those of the other joined cases and before those that
/// were never ranked.
pub proof fn lemma_one_more_joined_case(
    resolved: Seq<ResolvedCase>,
    case: ResolvedCase,
    elapsed: Seq<(CaseKey, u64)>,
    skipped: Seq<SkippedView>,
    before: FrameScore,
    after: FrameScore,
)
    requires
        frame_scored(before, resolved, elapsed, skipped),
        frame_scored(after, resolved.push(case), elapsed, skipped),
    ensures
        ({
            let failed = case.relevance_class is OperationalFailure;
            let judged = case.label_status is Resolved;
            let old_loss = before.loss_summary;
            let new_loss = after.loss_summary;
            &&& after.completed - before.completed == if judged || failed {
                1int
            } else {
                0
            }
            &&& new_loss.operational_failures - old_loss.operational_failures == if failed {
                1int
            } else {
                0
            }
            &&& new_loss.not_estimable_cases - old_loss.not_estimable_cases == if failed || judged {
                0int
            } else {
                1
            }
            &&& new_loss.attempted_cases - old_loss.attempted_cases == if averaged(case) {
                1int
            } else {
                0
            }
            &&& adds_loss(case, new_loss.total_loss - old_loss.total_loss)
            &&& new_loss.unfinished_cases == old_loss.unfinished_cases
            &&& after.losses@.len() - before.losses@.len() == if averaged(case) {
                1int
            } else {
                0
            }
            &&& averaged(case) ==> after.losses@.last().0@ == case.record.key@ && adds_loss(
                case,
                after.losses@.last().1 as int,
            )
        }),
        ({
            let n = resolved.len() as int;
            let old_reports = report_views(before.reports@);
            let new_reports = report_views(after.reports@);
            &&& new_reports.len() == old_reports.len() + 1
            &&& forall|i: int| 0 <= i < n ==> #[trigger] new_reports[i] == old_reports[i]
            &&& forall|i: int|
                n < i < new_reports.len() ==> #[trigger] new_reports[i] == old_reports[i - 1]
            &&& new_reports[n].case_id == case.record.key.case_id@
            &&& new_reports[n].family_id == Some(case.record.key.family_id@)
            &&& new_reports[n].elapsed_ms == elapsed_of(elapsed, case.record.key@)
            &&& reported_as(case, new_reports[n].status)
        }),
{
    let cases = resolved.push(case);
    assert(cases.drop_last() =~= resolved);
    assert(cases.take(resolved.len() as int) =~= resolved);
    assert(cases.take(resolved.len() as int + 1) =~= cases);
    lemma_tally_step(cases, resolved.len() as int, case_completed());
    lemma_tally_step(cases, resolved.len() as int, case_attempted());
    lemma_total_step(cases, resolved.len() as int, case_loss());
    lemma_tally_step(cases, resolved.len() as int, case_failed());
    lemma_tally_step(cases, resolved.len() as int, case_not_estimable());
    assert(loss_views(after.losses@).len() == after.losses@.len());
    assert(loss_views(before.losses@).len() == before.losses@.len());
    if averaged(case) {
        assert(loss_views(after.losses@).last() == frame_losses(cases).last());
    }
    let old_reports = frame_reports(resolved, elapsed, skipped);
    let new_reports = frame_reports(cases, elapsed, skipped);
    assert forall|i: int|
        resolved.len() < i < new_reports.len() implies #[trigger] new_reports[i] == old_reports[i
        - 1] by {}
}

/// Whether a status says of a joined case what became of it.
pub open spec fn reported_as(case: ResolvedCase, status: StatusView) -> bool {
    match status {
        StatusView::OperationalFailure { error_kind, loss } => {
            &&& case.relevance_class is OperationalFailure
            &&& error_kind == "operational-failure"@
            &&& loss == 2
        },
        StatusView::NotEstimable { reason } => {
            &&& !(case.relevance_class is OperationalFailure)
            &&& !(case.label_status is Resolved)
            &&& reason == if case.label_status is NullKey {
                "case key is incomplete"@
            } else {
                "no independent judgment for this case"@
            }
        },
        StatusView::Completed { decision, recomputed, loss } => {
            &&& !(case.relevance_class is OperationalFailure)
            &&& case.label_status is Resolved
            &&& decision == case.record.decision@
            &&& recomputed is None
            &&& loss is Some <==> averaged(case)
            &&& loss is Some ==> adds_loss(case, loss->0 as int)
        },
        StatusView::Unfinished { reason } => false,
    }
}

/// One more case that was never ranked is requested and not completed: it is
/// counted as unfinished or as not estimable, as it was skipped, and carries no
/// loss. Its report says why, at the end.
pub proof fn lemma_one_more_skipped_case(
    resolved: Seq<ResolvedCase>,
    elapsed: Seq<(CaseKey, u64)>,
    skipped: Seq<SkippedCase>,
    skip: SkippedCase,
    before: FrameScore,
    after: FrameScore,
)
    requires
        frame_scored(before, resolved, elapsed, skipped_views(skipped)),
        frame_scored(after, resolved, elapsed, skipped_views(skipped.push(skip))),
    ensures
        after.completed == before.completed,
        after.loss_summary.attempted_cases == before.loss_summary.attempted_cases,
        after.loss_summary.total_loss == before.loss_summary.total_loss,
        after.loss_summary.operational_failures == before.loss_summary.operational_failures,
        after.loss_summary.not_estimable_cases - before.loss_summary.not_estimable_cases
            == if skip.status is NotEstimable {
            1int
        } else {
            0
        },
        after.loss_summary.unfinished_cases - before.loss_summary.unfinished_cases
            == if skip.status is Unfinished {
            1int
        } else {
            0
        },
        report_views(after.reports@).drop_last() == report_views(before.reports@),
        ({
            let report = report_views(after.reports@).last();
            &&& report.case_id == skip.key.case_id@
            &&& report.family_id == Some(skip.key.family_id@)
            &&& report.elapsed_ms == 0
            &&& match skip.status {
                SkipStatus::NotEstimable { reason } => report.status == (StatusView::NotEstimable {
                    reason: reason@,
                }),
                SkipStatus::Unfinished { reason } => report.status == (StatusView::Unfinished {
                    reason: reason@,
                }),
            }
        }),
{
    let n = skipped.len() as int;
    let views = skipped_views(skipped.push(skip));
    assert(views.take(n) =~= skipped_views(skipped));
    assert(views.take(n + 1) =~= views);
    assert(views[n] == skip@);
    lemma_tally_step(views, n, skip_unfinished());
    lemma_tally_step(views, n, skip_not_estimable());
    assert(report_views(after.reports@).drop_last() =~= report_views(before.reports@)) by {
        assert forall|i: int| 0 <= i < n implies #[trigger] views[i] == skipped_views(
            skipped,
        )[i] by {}
    }
}

/// The time of a case is the one that was recorded last for it, and zero where
/// none was.
pub proof fn lemma_elapsed_is_the_one_recorded_last(
    elapsed: Seq<(CaseKey, u64)>,
    key: CaseKeyView,
    i: int,
)
    requires
        0 <= i <= elapsed.len(),
        forall|j: int| i <= j < elapsed.len() ==> (#[trigger] elapsed[j]).0@ != key,
    ensures
        i == 0 ==> elapsed_of(elapsed, key) == 0,
        i > 0 && elapsed[i - 1].0@ == key ==> elapsed_of(elapsed, key) == elapsed[i - 1].1,
    decreases elapsed.len(),
{
    if elapsed.len() > 0 && i < elapsed.len() {
        let front = elapsed.drop_last();
        assert forall|j: int| i <= j < front.len() implies (#[trigger] front[j]).0@ != key by {
            assert(front[j] == elapsed[j]);
        }
        lemma_elapsed_is_the_one_recorded_last(front, key, i);
        if i > 0 {
            assert(front[i - 1] == elapsed[i - 1]);
        }
    }
}

/// A report of a frame claims no more than it has: it is never actionable and
/// passes no gate, it is complete exactly where every requested case is, and it
/// holds the error of a run that stopped only where it is not. A mean loss is
/// weighted by a design only where the sample was drawn by chance or is whole.
pub proof fn lemma_frame_report_claims_no_more(
    score: FrameScore,
    reconciled: bool,
    sample: Option<SampleSummary>,
    design: Option<DesignLoss>,
    run: FrameRun,
    r: EvaluationBatchReport,
)
    requires
        frame_reported(r, score, reconciled, run),
        sample_reported(r, sample, design),
    ensures
        !r.actionable,
        !(r.gate_status is Passed) && !(r.gate_status is Failed),
        r.run_status is Complete <==> r.completeness.cases_completed
            == r.completeness.cases_requested,
        r.completeness.cases_requested == r.cases@.len(),
        r.completeness.cases_completed == score.completed,
        r.completeness.evidence_compatible <==> reconciled,
        r.error is Some ==> r.error == run.error && r.completeness.cases_completed
            != r.completeness.cases_requested,
        r.run_status is Partial ==> r.error == run.error,
        r.loss_summary == score.loss_summary && r.cases == score.reports,
        r.accounting == run.accounting && r.evidence_origin == run.evidence_origin,
        r.baselines == run.baselines && r.review_queue == run.review_queue,
        r.disclosure_preflight == run.preflight,
        r.labeled && r.explanation is None,
        r.completeness.stages_required == 0 && r.completeness.stages_completed == 0,
        r.sample == sample,
        sample is None ==> r.design_weighted_loss is None,
        sample is Some && sample->0.design_status is DiagnosticFixed ==> r.design_weighted_loss
            is None,
        sample is Some && (sample->0.design_status is StratifiedProbabilitySample
            || sample->0.design_status is FullCensus) ==> r.design_weighted_loss == design,
        r.mean_quotient() is Some <==> r.loss_summary.attempted_cases > 0,
        r.mean_quotient() is Some ==> (r.mean_quotient()->0).0 == r.loss_summary.total_loss
            && (r.mean_quotient()->0).1 == r.loss_summary.attempted_cases,
{
}

} // verus!
