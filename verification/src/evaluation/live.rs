//! A live batch: labeled cases ranked fresh under batch-wide request and
//! runtime caps. The batch decides what may be sent; its host sends it and
//! hands back what came of it.

use crate::evaluation::labels::{
    acceptable_for, find_judgment, judgment_of, CaseKeyView, EvaluationCaseRecord, JudgedLabel,
    StageEvidence,
};
use crate::evaluation::report::{
    opt_view, report_error, skipped_views, BatchAccounting, SkipStatus,
    EvaluationError, EvaluationErrorView, ReportError, ReportErrorView, SkippedCase, SkippedView,
    StatusView,
};
use crate::evaluation::variants::{
    has_history, latest_request_only, request_text, request_variant, variant_text,
    with_request_text, without_events, LiveEvaluationCase, RobustnessReport, VariantKind,
    VariantScore,
};
use crate::json::json_of;
use crate::score::Score;
use crate::tally::{lemma_tally_step, tally};
use crate::text;
use crate::text::{lemma_occurs_between, occurs};
use vstd::multiset::Multiset;
use vstd::prelude::*;
use vstd::string::*;

verus! {

/// What one live ranking produced, read from its decision document.
#[derive(Clone, Debug, PartialEq, Eq)]
pub struct LiveRankOutcome {
    pub decision: String,
    pub suggested_skills: Vec<String>,
    pub requests: usize,
    pub http_attempts: usize,
    pub unknown_usage_attempts: usize,
    pub input_tokens: u64,
    pub output_tokens: u64,
    /// The error kind of an unavailable decision.
    pub error_kind: Option<String>,
    pub elapsed_ms: u64,
    /// What each stage answered, for baseline comparisons.
    pub evidence: Option<StageEvidence>,
    /// The ranking ended without a decision document after it may already have
    /// sent requests, so its attempts are unknown. The batch charges its worst
    /// case, never zero.
    pub attempts_unknown: bool,
}

/// The greater of two counts.
pub open spec fn greater(a: usize, b: usize) -> usize {
    if a >= b {
        a
    } else {
        b
    }
}

/// The attempts and unknown-usage attempts one ranking is charged.
pub open spec fn charged(outcome: LiveRankOutcome, attempts_per_case: usize) -> (usize, usize) {
    if outcome.attempts_unknown {
        (
            greater(outcome.http_attempts, attempts_per_case),
            greater(outcome.unknown_usage_attempts, attempts_per_case),
        )
    } else {
        (outcome.http_attempts, outcome.unknown_usage_attempts)
    }
}

/// The attempts and unknown-usage attempts one ranking is charged: as reported,
/// or, when its attempts are unknown, at least the per-case worst case.
pub fn charged_attempts(outcome: &LiveRankOutcome, attempts_per_case: usize) -> (r: (usize, usize))
    ensures
        r == charged(*outcome, attempts_per_case),
{
    if outcome.attempts_unknown {
        let attempts: usize = if outcome.http_attempts >= attempts_per_case {
            outcome.http_attempts
        } else {
            attempts_per_case
        };
        let unknown: usize = if outcome.unknown_usage_attempts >= attempts_per_case {
            outcome.unknown_usage_attempts
        } else {
            attempts_per_case
        };
        (attempts, unknown)
    } else {
        (outcome.http_attempts, outcome.unknown_usage_attempts)
    }
}

/// Batch-wide caps of a live run.
#[derive(Clone, Copy, Debug, PartialEq, Eq, Structural)]
pub struct LiveBatchLimits {
    /// HTTP attempts across the whole batch, retries included.
    pub max_requests: usize,
    pub max_runtime_ms: u64,
    /// The most attempts one ranking can make; a case is admitted only while
    /// its worst case still fits under `max_requests`.
    pub attempts_per_case: usize,
    /// The minimum fit the fit-only baseline requires, as production uses.
    pub fit_threshold: Score,
    /// The production gate, for near-threshold review selection.
    pub gate_threshold: Score,
    /// Rank prespecified request variants of each judged case after every main
    /// ranking and ablation arm, on what budget remains.
    pub robustness_variants: bool,
}

/// Why scheduling stopped: the reason given to each unfinished case, and the
/// error of the batch.
#[derive(Clone, Debug, PartialEq, Eq)]
pub struct StopCause {
    pub reason: String,
    pub error: ReportError,
}

/// What a stop cause says.
#[verifier::ext_equal]
pub struct StopView {
    pub reason: Seq<char>,
    pub error: ReportErrorView,
}

impl View for StopCause {
    type V = StopView;

    open spec fn view(&self) -> StopView {
        StopView { reason: self.reason@, error: self.error@ }
    }
}

/// The view of an optional stop cause.
pub open spec fn opt_stop_view(s: Option<StopCause>) -> Option<StopView> {
    match s {
        Some(cause) => Some(cause@),
        None => None,
    }
}

/// The exit code of an error after which no further case can succeed.
pub open spec fn fatal_code(kind: Seq<char>) -> Option<u8> {
    if kind == "authentication"@ || kind == "credential-absent"@ {
        Some(4)
    } else if kind == "network-denied"@ {
        Some(8)
    } else {
        None
    }
}

pub open spec fn deadline_stop() -> StopView {
    StopView {
        reason: "batch runtime deadline expired"@,
        error: ReportErrorView {
            code: 6,
            kind: "timeout"@,
            message: "The live batch reached --max-runtime-ms"@,
            hint: "Raise --max-runtime-ms or evaluate a smaller sample"@,
            retryable: false,
        },
    }
}

pub open spec fn request_stop() -> StopView {
    StopView {
        reason: "request cap reached before this case"@,
        error: ReportErrorView {
            code: 4,
            kind: "request-budget"@,
            message: "The live batch reached --max-requests"@,
            hint: "Raise --max-requests or evaluate a smaller sample"@,
            retryable: false,
        },
    }
}

pub open spec fn fatal_stop(kind: Seq<char>) -> StopView {
    StopView {
        reason: "stopped after a fatal "@ + kind + " error"@,
        error: ReportErrorView {
            code: fatal_code(kind)->0,
            kind,
            message: "A fatal provider error stopped the live batch"@,
            hint: "Fix the credential or network authorization, then rerun"@,
            retryable: false,
        },
    }
}

/// The exit code of an error after which no further case can succeed.
pub fn find_fatal(kind: &str) -> (r: Option<u8>)
    ensures
        r == fatal_code(kind@),
{
    if text::eq(kind, "authentication") || text::eq(kind, "credential-absent") {
        Some(4)
    } else if text::eq(kind, "network-denied") {
        Some(8)
    } else {
        None
    }
}

/// What a live batch may still spend.
#[derive(Clone, Debug, PartialEq, Eq)]
pub struct LiveBudget {
    pub limits: LiveBatchLimits,
    pub expires_ms: u64,
    pub accounting: BatchAccounting,
    pub stopped: Option<StopCause>,
}

impl LiveBudget {
    /// Whether one more ranking's worst case fits under the request cap.
    pub open spec fn worst_case_fits(self) -> bool {
        self.accounting.http_attempts + self.limits.attempts_per_case <= self.limits.max_requests
    }

    /// Whether one more ranking may be sent at a time.
    pub open spec fn fits_at(self, now_ms: u64) -> bool {
        self.stopped is None && self.worst_case_fits() && now_ms < self.expires_ms
    }

    /// Why scheduling has stopped once a case is considered at a time.
    pub open spec fn stop_at(self, now_ms: u64) -> Option<StopView> {
        if self.stopped is Some {
            opt_stop_view(self.stopped)
        } else if now_ms >= self.expires_ms {
            Some(deadline_stop())
        } else if !self.worst_case_fits() {
            Some(request_stop())
        } else {
            None
        }
    }

    /// Whether the totals can hold one more outcome.
    pub open spec fn can_charge(self, outcome: LiveRankOutcome) -> bool {
        let c = charged(outcome, self.limits.attempts_per_case);
        &&& self.accounting.requests + outcome.requests <= usize::MAX
        &&& self.accounting.http_attempts + c.0 <= usize::MAX
        &&& self.accounting.unknown_usage_attempts + c.1 <= usize::MAX
        &&& self.accounting.input_tokens + outcome.input_tokens <= u64::MAX
        &&& self.accounting.output_tokens + outcome.output_tokens <= u64::MAX
    }

    /// Whether another budget is this one after an outcome was charged.
    pub open spec fn charged_to(self, outcome: LiveRankOutcome, after: LiveBudget) -> bool {
        let c = charged(outcome, self.limits.attempts_per_case);
        &&& after.limits == self.limits
        &&& after.expires_ms == self.expires_ms
        &&& after.accounting.requests == self.accounting.requests + outcome.requests
        &&& after.accounting.http_attempts == self.accounting.http_attempts + c.0
        &&& after.accounting.unknown_usage_attempts == self.accounting.unknown_usage_attempts + c.1
        &&& after.accounting.input_tokens == self.accounting.input_tokens + outcome.input_tokens
        &&& after.accounting.output_tokens == self.accounting.output_tokens + outcome.output_tokens
        &&& opt_stop_view(after.stopped) == match opt_view(outcome.error_kind) {
            Some(kind) => if fatal_code(kind) is Some {
                Some(fatal_stop(kind))
            } else {
                opt_stop_view(self.stopped)
            },
            None => opt_stop_view(self.stopped),
        }
    }

    /// Whether a result is what opening a budget comes to.
    pub open spec fn opened(
        limits: LiveBatchLimits,
        now_ms: u64,
        r: Result<LiveBudget, EvaluationError>,
    ) -> bool {
        &&& r is Ok <==> limits.max_requests > 0 && limits.attempts_per_case > 0
            && limits.max_runtime_ms > 0
        &&& r is Ok ==> r->Ok_0.limits == limits && r->Ok_0.accounting == BatchAccounting::zero()
            && r->Ok_0.stopped is None
        &&& r is Ok ==> r->Ok_0.expires_ms == if now_ms + limits.max_runtime_ms <= u64::MAX {
            now_ms + limits.max_runtime_ms
        } else {
            u64::MAX as int
        }
        &&& r is Err ==> r->Err_0@ == EvaluationErrorView::InvalidField(
            "live batches need positive request, attempt and runtime caps"@,
        )
    }

    /// Open a budget at the start of a batch.
    pub fn open(limits: LiveBatchLimits, now_ms: u64) -> (r: Result<LiveBudget, EvaluationError>)
        ensures
            LiveBudget::opened(limits, now_ms, r),
    {
        if limits.max_requests == 0 || limits.attempts_per_case == 0 || limits.max_runtime_ms == 0 {
            return Err(
                EvaluationError::InvalidField(
                    "live batches need positive request, attempt and runtime caps".to_owned(),
                ),
            );
        }
        Ok(
            LiveBudget {
                limits,
                expires_ms: now_ms.saturating_add(limits.max_runtime_ms),
                accounting: BatchAccounting {
                    requests: 0,
                    http_attempts: 0,
                    unknown_usage_attempts: 0,
                    input_tokens: 0,
                    output_tokens: 0,
                },
                stopped: None,
            },
        )
    }

    fn has_room(&self) -> (r: bool)
        ensures
            r == self.worst_case_fits(),
    {
        let spent: usize = self.accounting.http_attempts;
        spent <= self.limits.max_requests && self.limits.attempts_per_case
            <= self.limits.max_requests - spent
    }

    /// Whether one more ranking may be sent now.
    pub fn fits(&self, now_ms: u64) -> (r: bool)
        ensures
            r == self.fits_at(now_ms),
    {
        self.stopped.is_none() && self.has_room() && now_ms < self.expires_ms
    }

    /// Consider one more case: it is admitted, or why scheduling stopped is recorded. The deadline is
    /// considered before the request cap, and a batch that has stopped stays so.
    pub fn consider(&mut self, now_ms: u64) -> (r: bool)
        ensures
            r == old(self).fits_at(now_ms),
            r == (final(self).stopped is None),
            final(self).limits == old(self).limits,
            final(self).expires_ms == old(self).expires_ms,
            final(self).accounting == old(self).accounting,
            opt_stop_view(final(self).stopped) == old(self).stop_at(now_ms),
    {
        if self.stopped.is_none() {
            if now_ms >= self.expires_ms {
                self.stopped = Some(
                    StopCause {
                        reason: "batch runtime deadline expired".to_owned(),
                        error: report_error(
                            6,
                            "timeout",
                            "The live batch reached --max-runtime-ms",
                            "Raise --max-runtime-ms or evaluate a smaller sample",
                        ),
                    },
                );
            } else if !self.has_room() {
                self.stopped = Some(
                    StopCause {
                        reason: "request cap reached before this case".to_owned(),
                        error: report_error(
                            4,
                            "request-budget",
                            "The live batch reached --max-requests",
                            "Raise --max-requests or evaluate a smaller sample",
                        ),
                    },
                );
            }
        }
        self.stopped.is_none()
    }

    /// Whether the totals can hold one more outcome.
    pub fn chargeable(&self, outcome: &LiveRankOutcome) -> (r: bool)
        ensures
            r == self.can_charge(*outcome),
    {
        let (attempts, unknown): (usize, usize) = charged_attempts(
            outcome,
            self.limits.attempts_per_case,
        );
        self.accounting.requests <= usize::MAX - outcome.requests && self.accounting.http_attempts
            <= usize::MAX - attempts && self.accounting.unknown_usage_attempts <= usize::MAX
            - unknown && self.accounting.input_tokens <= u64::MAX - outcome.input_tokens
            && self.accounting.output_tokens <= u64::MAX - outcome.output_tokens
    }

    /// Charge one outcome: provider usage is summed as the ranking reported it,
    /// and a fatal provider error stops the batch.
    pub fn charge(&mut self, outcome: &LiveRankOutcome)
        requires
            old(self).can_charge(*outcome),
        ensures
            old(self).charged_to(*outcome, *final(self)),
    {
        let (attempts, unknown): (usize, usize) = charged_attempts(
            outcome,
            self.limits.attempts_per_case,
        );
        self.accounting = BatchAccounting {
            requests: self.accounting.requests + outcome.requests,
            http_attempts: self.accounting.http_attempts + attempts,
            unknown_usage_attempts: self.accounting.unknown_usage_attempts + unknown,
            input_tokens: self.accounting.input_tokens + outcome.input_tokens,
            output_tokens: self.accounting.output_tokens + outcome.output_tokens,
        };
        if let Some(kind) = &outcome.error_kind {
            if let Some(code) = find_fatal(kind.as_str()) {
                let mut reason: String = "stopped after a fatal ".to_owned();
                reason.append(kind.as_str());
                reason.append(" error");
                self.stopped = Some(
                    StopCause {
                        reason,
                        error: report_error(
                            code,
                            kind.as_str(),
                            "A fatal provider error stopped the live batch",
                            "Fix the credential or network authorization, then rerun",
                        ),
                    },
                );
            }
        }
    }
}

/// While each ranking makes at most the attempts a case is admitted with, the
/// batch never spends more than its request cap.
pub proof fn lemma_request_cap_holds(
    before: LiveBudget,
    outcome: LiveRankOutcome,
    after: LiveBudget,
)
    requires
        before.worst_case_fits(),
        outcome.http_attempts <= before.limits.attempts_per_case,
        before.charged_to(outcome, after),
    ensures
        after.accounting.http_attempts <= after.limits.max_requests,
{
}

/// A ranking whose attempts are unknown is charged at least the worst case, so
/// it can never let later cases past the request cap.
pub proof fn lemma_unknown_attempts_are_charged(
    before: LiveBudget,
    outcome: LiveRankOutcome,
    after: LiveBudget,
)
    requires
        outcome.attempts_unknown,
        before.charged_to(outcome, after),
    ensures
        after.accounting.http_attempts >= before.accounting.http_attempts
            + before.limits.attempts_per_case,
        after.accounting.unknown_usage_attempts >= before.accounting.unknown_usage_attempts
            + before.limits.attempts_per_case,
{
}

/// A batch that has stopped sends nothing more: no time lets a ranking in, and
/// no outcome lifts the stop.
pub proof fn lemma_stopped_stays_stopped(
    before: LiveBudget,
    outcome: LiveRankOutcome,
    after: LiveBudget,
    now_ms: u64,
)
    requires
        before.stopped is Some,
        before.charged_to(outcome, after),
    ensures
        !before.fits_at(now_ms),
        after.stopped is Some,
        !after.fits_at(now_ms),
{
    assert(opt_stop_view(after.stopped) is Some);
}

/// A case to be ranked: the record its decision will fill, and its request.
pub struct QueuedCase {
    pub record: EvaluationCaseRecord,
    pub case: LiveEvaluationCase,
}

/// A case that was ranked.
#[derive(Clone, Debug, PartialEq, Eq)]
pub struct ExecutedCase {
    /// The place of the case in the queue.
    pub source: usize,
    pub record: EvaluationCaseRecord,
    pub evidence: Option<StageEvidence>,
    pub elapsed_ms: u64,
}

/// The latest-request-only arm of an executed case.
#[derive(Clone, Debug, PartialEq, Eq)]
pub enum AblationArm {
    /// The case is not advisory, failed, or carries no history.
    Absent,
    Queued,
    /// The arm was not sent: it did not fit the caps, or the batch had stopped.
    Skipped,
    /// The arm was unavailable.
    Failed,
    /// What the arm suggested.
    Answered(Vec<String>),
}

/// The kinds of request variants, in the order they are ranked.
pub open spec fn kind_at(k: int) -> VariantKind {
    if k == 0 {
        VariantKind::EquivalentWhitespace
    } else if k == 1 {
        VariantKind::LongDistraction
    } else {
        VariantKind::HostileInstruction
    }
}

fn kind_of(k: usize) -> (r: VariantKind)
    ensures
        r == kind_at(k as int),
{
    if k == 0 {
        VariantKind::EquivalentWhitespace
    } else if k == 1 {
        VariantKind::LongDistraction
    } else {
        VariantKind::HostileInstruction
    }
}

/// The keys of queued cases.
pub open spec fn queued_keys(queue: Seq<QueuedCase>) -> Seq<CaseKeyView> {
    Seq::new(queue.len(), |i: int| queue[i].record.key@)
}

/// The keys of executed cases.
pub open spec fn executed_keys(executed: Seq<ExecutedCase>) -> Seq<CaseKeyView> {
    Seq::new(executed.len(), |i: int| executed[i].record.key@)
}

/// The keys of skipped cases.
pub open spec fn skipped_keys(skipped: Seq<SkippedCase>) -> Seq<CaseKeyView> {
    Seq::new(skipped.len(), |i: int| skipped[i].key@)
}

/// The record of a case once its ranking came back.
pub open spec fn ranked_record(record: EvaluationCaseRecord, outcome: LiveRankOutcome) -> EvaluationCaseRecord {
    EvaluationCaseRecord {
        key: record.key,
        split: record.split,
        decision: outcome.decision,
        suggested_skills: outcome.suggested_skills,
        relevance_abstention: outcome.decision@ == "abstain"@,
        operational_failure: outcome.decision@ == "unavailable"@,
    }
}

/// The time of a ranking without its evaluation-only lexical pass.
pub open spec fn production_ms(outcome: LiveRankOutcome) -> u64 {
    let lexical = match outcome.evidence {
        Some(evidence) => evidence.lexical_elapsed_ms,
        None => 0u64,
    };
    if outcome.elapsed_ms >= lexical {
        (outcome.elapsed_ms - lexical) as u64
    } else {
        0
    }
}

/// Whether a ranking was withheld because its request changed after its preview.
pub open spec fn superseded(outcome: LiveRankOutcome) -> bool {
    opt_view(outcome.error_kind) == Some("superseded"@)
}

/// The first suggestion of a list.
pub open spec fn first_of(skills: Seq<String>) -> Option<Seq<char>> {
    if skills.len() > 0 {
        Some(skills[0]@)
    } else {
        None
    }
}

/// Whether a top suggestion is acceptable.
pub open spec fn top_hits(label: JudgedLabel, top: Option<Seq<char>>) -> bool {
    top is Some && label.accepts(top->0)
}

/// A variant's score after one more variant was not sent.
pub open spec fn with_not_run(score: VariantScore, more: nat) -> VariantScore {
    VariantScore { not_run: (score.not_run + more) as usize, ..score }
}

/// A variant's score after one answered variant.
pub open spec fn with_answer(
    score: VariantScore,
    label: JudgedLabel,
    base: Option<Seq<char>>,
    varied: Option<Seq<char>>,
) -> VariantScore {
    VariantScore {
        cases: (score.cases + 1) as usize,
        top1_changed: (score.top1_changed + if base != varied {
            1int
        } else {
            0
        }) as usize,
        hit_lost: (score.hit_lost + if top_hits(label, base) && !top_hits(label, varied) {
            1int
        } else {
            0
        }) as usize,
        hit_gained: (score.hit_gained + if !top_hits(label, base) && top_hits(label, varied) {
            1int
        } else {
            0
        }) as usize,
        ..score
    }
}

/// Judged advisory cases that ranked: those whose variants are ranked too.
pub open spec fn varying_case(judgments: Seq<JudgedLabel>) -> spec_fn(ExecutedCase) -> bool {
    |e: ExecutedCase|
        !e.record.operational_failure && match judgment_of(judgments, e.record.key.case_id@) {
            Some(label) => label.advisory(),
            None => false,
        }
}

/// How many variants of a kind fall between two places in the order of
/// ranking, in which each executed case has its three kinds in turn.
pub open spec fn variants_within(
    judgments: Seq<JudgedLabel>,
    executed: Seq<ExecutedCase>,
    from: int,
    to: int,
    k: int,
) -> nat
    decreases to - from,
{
    if from >= to {
        0
    } else {
        variants_within(judgments, executed, from, to - 1, k) + if (to - 1) % 3 == k
            && varying_case(judgments)(executed[(to - 1) / 3]) {
            1nat
        } else {
            0
        }
    }
}

proof fn lemma_variants_bound(
    judgments: Seq<JudgedLabel>,
    executed: Seq<ExecutedCase>,
    case: int,
    kind: int,
    k: int,
)
    requires
        0 <= case,
        0 <= kind < 3,
        0 <= k < 3,
    ensures
        variants_within(judgments, executed, 0, 3 * case + kind, k) <= case + if k < kind {
            1int
        } else {
            0
        },
    decreases 3 * case + kind,
{
    if kind > 0 {
        lemma_variants_bound(judgments, executed, case, kind - 1, k);
        assert((3 * case + kind - 1) % 3 == kind - 1);
    } else if case > 0 {
        lemma_variants_bound(judgments, executed, case - 1, 2, k);
        assert((3 * case - 1) % 3 == 2);
    }
}

proof fn lemma_variants_full(
    judgments: Seq<JudgedLabel>,
    executed: Seq<ExecutedCase>,
    n: int,
    k: int,
)
    requires
        0 <= n <= executed.len(),
        0 <= k < 3,
    ensures
        variants_within(judgments, executed, 0, 3 * n, k) == tally(
            executed.take(n),
            varying_case(judgments),
        ),
    decreases n,
{
    if n > 0 {
        lemma_variants_full(judgments, executed, n - 1, k);
        lemma_tally_step(executed, n - 1, varying_case(judgments));
        let at = 3 * (n - 1);
        assert((at + 2) % 3 == 2 && (at + 1) % 3 == 1 && at % 3 == 0);
        assert((at + 2) / 3 == n - 1 && (at + 1) / 3 == n - 1 && at / 3 == n - 1);
        assert(variants_within(judgments, executed, 0, at + 1, k) == variants_within(
            judgments,
            executed,
            0,
            at,
            k,
        ) + if k == 0 && varying_case(judgments)(executed[n - 1]) {
            1nat
        } else {
            0
        });
        assert(variants_within(judgments, executed, 0, at + 2, k) == variants_within(
            judgments,
            executed,
            0,
            at + 1,
            k,
        ) + if k == 1 && varying_case(judgments)(executed[n - 1]) {
            1nat
        } else {
            0
        });
    }
}

/// A live batch: its queue, what it may spend, and what came of each case.
pub struct LiveBatch {
    pub judgments: Vec<JudgedLabel>,
    pub queue: Vec<QueuedCase>,
    /// The next case to rank.
    pub position: usize,
    pub budget: LiveBudget,
    pub executed: Vec<ExecutedCase>,
    /// The ablation arm of each executed case.
    pub arms: Vec<AblationArm>,
    /// The next arm to rank.
    pub arm_position: usize,
    pub skipped: Vec<SkippedCase>,
    /// How many cases were skipped before the first ranking.
    pub refused: usize,
    /// The production time of each executed case.
    pub production_elapsed: Vec<u64>,
    pub robustness: RobustnessReport,
    /// The executed case and the kind of the next variant to rank.
    pub variant_case: usize,
    pub variant_kind: usize,
}

impl LiveBatch {
    /// Whether a case is judged and asks for advice.
    pub open spec fn advisory(self, case_id: Seq<char>) -> bool {
        match judgment_of(self.judgments@, case_id) {
            Some(label) => label.advisory(),
            None => false,
        }
    }

    /// Whether the variants of an executed case are ranked at all.
    pub open spec fn varies(self, i: int) -> bool {
        varying_case(self.judgments@)(self.executed@[i])
    }

    /// Whether an executed case has a request text to vary.
    pub open spec fn has_text(self, i: int) -> bool {
        request_text(json_of(self.queue@[self.executed@[i].source as int].case.context)) is Some
    }

    /// How many variants of a kind fall between two places in the order of
    /// ranking.
    pub open spec fn variants_between(self, from: int, to: int, k: int) -> nat {
        variants_within(self.judgments@, self.executed@, from, to, k)
    }

    /// The place of the next variant in the order of ranking.
    pub open spec fn variant_place(self) -> int {
        3 * self.variant_case + self.variant_kind
    }

    /// The keys of the cases that the batch has settled.
    pub open spec fn settled_keys(self) -> Multiset<CaseKeyView> {
        executed_keys(self.executed@).to_multiset().add(
            skipped_keys(self.skipped@.skip(self.refused as int)).to_multiset(),
        )
    }

    /// Every queued case before the position was settled exactly once, every
    /// later one not at all, and each executed case has its arm and its time.
    /// Each variant that was due so far counts once: as answered, as failed or
    /// as not run.
    pub open spec fn wf(self) -> bool {
        &&& self.position <= self.queue@.len()
        &&& self.refused <= self.skipped@.len()
        &&& self.arms@.len() == self.executed@.len()
        &&& self.production_elapsed@.len() == self.executed@.len()
        &&& self.executed@.len() + (self.skipped@.len() - self.refused) == self.position
        &&& self.settled_keys() == queued_keys(self.queue@.take(self.position as int)).to_multiset()
        &&& self.arm_position <= self.arms@.len()
        &&& self.variant_case <= self.executed@.len()
        &&& self.variant_kind < 3
        &&& self.variant_case == self.executed@.len() ==> self.variant_kind == 0
        &&& forall|i: int|
            0 <= i < self.executed@.len() ==> (#[trigger] self.executed@[i]).source
                < self.queue@.len() && self.executed@[i].record.key
                == self.queue@[self.executed@[i].source as int].record.key
        &&& forall|i: int|
            0 <= i < self.arms@.len() && (#[trigger] self.arms@[i] is Queued) ==> self.varies(i)
                && has_history(
                json_of(self.queue@[self.executed@[i].source as int].case.context),
            )
        &&& self.robustness.variants@.len() == 3
        &&& forall|k: int|
            0 <= k < 3 ==> {
                let score = #[trigger] self.robustness.variants@[k];
                &&& score.kind == Some(kind_at(k))
                &&& score.cases + score.failures + score.not_run == self.variants_between(
                    0,
                    self.variant_place(),
                    k,
                )
                &&& score.hit_lost + score.hit_gained <= score.top1_changed
                &&& score.top1_changed <= score.cases
            }
    }

    /// Whether only the budget, the position and what was settled may differ.
    pub open spec fn same_plan(self, other: LiveBatch) -> bool {
        &&& other.judgments == self.judgments
        &&& other.queue == self.queue
        &&& other.refused == self.refused
        &&& other.robustness.not_computed == self.robustness.not_computed
    }

    /// Open a batch on the cases that passed their preview, with those that
    /// were skipped before.
    pub fn open(
        queue: Vec<QueuedCase>,
        judgments: Vec<JudgedLabel>,
        skipped: Vec<SkippedCase>,
        budget: LiveBudget,
    ) -> (r: LiveBatch)
        ensures
            r.wf(),
            r.queue == queue,
            r.judgments == judgments,
            r.skipped == skipped,
            r.refused == skipped@.len(),
            r.budget == budget,
            r.position == 0,
            r.executed@.len() == 0,
            r.arms@.len() == 0,
            r.arm_position == 0,
            r.production_elapsed@.len() == 0,
            r.variant_place() == 0,
            r.robustness.variants@ == Seq::new(3, |k: int| VariantScore::fresh(kind_at(k))),
    {
        let mut kinds: Vec<VariantKind> = Vec::new();
        kinds.push(VariantKind::EquivalentWhitespace);
        kinds.push(VariantKind::LongDistraction);
        kinds.push(VariantKind::HostileInstruction);
        let robustness: RobustnessReport = RobustnessReport::new(&kinds);
        let executed: Vec<ExecutedCase> = Vec::new();
        let arms: Vec<AblationArm> = Vec::new();
        let production_elapsed: Vec<u64> = Vec::new();
        let refused: usize = skipped.len();
        proof {
            assert(robustness.variants@ =~= Seq::new(3, |k: int| VariantScore::fresh(kind_at(k))));
            assert(queued_keys(queue@.take(0)) =~= Seq::<CaseKeyView>::empty());
            assert(executed_keys(executed@) =~= Seq::<CaseKeyView>::empty());
            assert(skipped_keys(skipped@.skip(refused as int)) =~= Seq::<CaseKeyView>::empty());
            broadcast use vstd::seq_lib::group_to_multiset_ensures;

            assert(executed_keys(executed@).to_multiset().add(
                skipped_keys(skipped@.skip(refused as int)).to_multiset(),
            ) =~= queued_keys(queue@.take(0)).to_multiset());
        }
        LiveBatch {
            judgments,
            queue,
            position: 0,
            budget,
            executed,
            arms,
            arm_position: 0,
            skipped,
            refused,
            production_elapsed,
            robustness,
            variant_case: 0,
            variant_kind: 0,
        }
    }

    fn is_advisory(&self, case_id: &str) -> (r: bool)
        ensures
            r == self.advisory(case_id@),
    {
        match find_judgment(&self.judgments, case_id) {
            Some(label) => label.explicit_directive.is_none(),
            None => false,
        }
    }

    /// Whether another batch and a place are what asking this one for its next case
    /// comes to.
    pub open spec fn case_offered(
        self,
        now_ms: u64,
        after: LiveBatch,
        r: Option<usize>,
    ) -> bool {
        &&& r is Some <==> self.position < self.queue@.len() && self.budget.fits_at(now_ms)
        &&& r is Some ==> r->0 == self.position && after.position == self.position
            && after.skipped == self.skipped && after.budget.stopped is None
        &&& r is None ==> after.position == self.queue@.len()
        &&& self.position == self.queue@.len() ==> opt_stop_view(after.budget.stopped)
            == opt_stop_view(self.budget.stopped)
        &&& self.position < self.queue@.len() ==> opt_stop_view(after.budget.stopped)
            == self.budget.stop_at(now_ms)
        &&& r is None ==> skipped_views(after.skipped@) == skipped_views(self.skipped@)
            + Seq::new(
            (self.queue@.len() - self.position) as nat,
            |i: int|
                SkippedView {
                    key: self.queue@[self.position + i].record.key@,
                    status: StatusView::Unfinished {
                        reason: self.budget.stop_at(now_ms)->0.reason,
                    },
                },
        )
    }

    /// The next case to rank. Where none may be sent, every case left is
    /// reported unfinished with why the batch stopped.
    pub fn next_case(&mut self, now_ms: u64) -> (r: Option<usize>)
        requires
            old(self).wf(),
        ensures
            final(self).wf(),
            old(self).same_plan(*final(self)),
            final(self).executed == old(self).executed,
            final(self).arms == old(self).arms,
            final(self).arm_position == old(self).arm_position,
            final(self).production_elapsed == old(self).production_elapsed,
            final(self).robustness == old(self).robustness,
            final(self).variant_place() == old(self).variant_place(),
            final(self).budget.limits == old(self).budget.limits,
            final(self).budget.expires_ms == old(self).budget.expires_ms,
            final(self).budget.accounting == old(self).budget.accounting,
            old(self).case_offered(now_ms, *final(self), r),
    {
        if self.position == self.queue.len() {
            assert(skipped_views(self.skipped@) =~= skipped_views(old(self).skipped@) + Seq::new(
                0,
                |i: int|
                    SkippedView {
                        key: old(self).queue@[old(self).position + i].record.key@,
                        status: StatusView::Unfinished {
                            reason: old(self).budget.stop_at(now_ms)->0.reason,
                        },
                    },
            ));
            return None;
        }
        if self.budget.consider(now_ms) {
            return Some(self.position);
        }
        let ghost start = *self;
        while self.position < self.queue.len()
            invariant
                self.wf(),
                start.same_plan(*self),
                self.executed == start.executed,
                self.arms == start.arms,
                self.arm_position == start.arm_position,
                self.production_elapsed == start.production_elapsed,
                self.robustness == start.robustness,
                self.variant_case == start.variant_case,
                self.variant_kind == start.variant_kind,
                self.budget == start.budget,
                self.budget.stopped is Some,
                start.position <= self.position <= start.queue@.len(),
                skipped_views(self.skipped@) =~= skipped_views(start.skipped@) + Seq::new(
                    (self.position - start.position) as nat,
                    |i: int|
                        SkippedView {
                            key: start.queue@[start.position + i].record.key@,
                            status: StatusView::Unfinished {
                                reason: start.budget.stopped->0.reason@,
                            },
                        },
                ),
            decreases self.queue@.len() - self.position,
        {
            let reason: String = match &self.budget.stopped {
                Some(cause) => cause.reason.clone(),
                None => String::new(),
            };
            let key = self.queue[self.position].record.key.copy();
            let ghost before = *self;
            self.skipped.push(SkippedCase { key, status: SkipStatus::Unfinished { reason } });
            self.position = self.position + 1;
            proof {
                lemma_settled_by_skip(before, *self);
                assert(self.skipped@ =~= before.skipped@.push(self.skipped@.last()));
                assert(skipped_views(self.skipped@) =~= skipped_views(before.skipped@).push(
                    self.skipped@.last()@,
                ));
                assert(self.skipped@.last()@ == (SkippedView {
                    key: start.queue@[before.position as int].record.key@,
                    status: StatusView::Unfinished { reason: start.budget.stopped->0.reason@ },
                }));
            }
        }
        None
    }

    /// Whether another batch is this one after its next case was settled with an
    /// outcome.
    pub open spec fn case_settled(self, outcome: LiveRankOutcome, after: LiveBatch) -> bool {
        &&& superseded(outcome) ==> {
            &&& after.executed == self.executed
            &&& after.arms == self.arms
            &&& after.production_elapsed == self.production_elapsed
            &&& skipped_views(after.skipped@) == skipped_views(self.skipped@).push(
                (SkippedView {
                    key: self.queue@[self.position as int].record.key@,
                    status: (StatusView::NotEstimable {
                        reason: "request changed since its disclosure preview; not sent"@,
                    }),
                }),
            )
        }
        &&& !superseded(outcome) ==> {
            let queued = self.queue@[self.position as int];
            let record = ranked_record(queued.record, outcome);
            &&& after.skipped == self.skipped
            &&& after.executed@ == self.executed@.push(
                (ExecutedCase {
                    source: self.position,
                    record,
                    evidence: outcome.evidence,
                    elapsed_ms: outcome.elapsed_ms,
                }),
            )
            &&& after.production_elapsed@ == self.production_elapsed@.push(
                production_ms(outcome),
            )
            &&& after.arms@ == self.arms@.push(
                if self.advisory(record.key.case_id@) && !record.operational_failure
                    && has_history(json_of(queued.case.context)) {
                    AblationArm::Queued
                } else {
                    AblationArm::Absent
                },
            )
        }
    }

    /// Settle the case at the position with what its ranking produced. A
    /// request that changed after its preview was withheld: that case was never
    /// evaluated, and the selector is not charged a loss for it.
    pub fn settle_case(&mut self, outcome: LiveRankOutcome)
        requires
            old(self).wf(),
            old(self).position < old(self).queue@.len(),
            old(self).budget.can_charge(outcome),
            old(self).variant_place() == 0,
        ensures
            final(self).wf(),
            old(self).same_plan(*final(self)),
            old(self).budget.charged_to(outcome, final(self).budget),
            final(self).position == old(self).position + 1,
            final(self).arm_position == old(self).arm_position,
            final(self).robustness == old(self).robustness,
            final(self).variant_place() == 0,
            old(self).case_settled(outcome, *final(self)),
    {
        let ghost start = *self;
        let next: usize = if self.position < self.queue.len() {
            self.position + 1
        } else {
            self.position
        };
        self.budget.charge(&outcome);
        let withheld: bool = match &outcome.error_kind {
            Some(kind) => text::eq(kind.as_str(), "superseded"),
            None => false,
        };
        let source: usize = self.position;
        let key = self.queue[source].record.key.copy();
        let split = self.queue[source].record.split;
        if withheld {
            self.skipped.push(
                SkippedCase {
                    key,
                    status: SkipStatus::NotEstimable {
                        reason: "request changed since its disclosure preview; not sent".to_owned(),
                    },
                },
            );
            self.position = next;
            proof {
                lemma_settled_by_skip(start, *self);
                assert(skipped_views(self.skipped@) =~= skipped_views(start.skipped@).push(
                    SkippedView {
                        key: start.queue@[start.position as int].record.key@,
                        status: StatusView::NotEstimable {
                            reason: "request changed since its disclosure preview; not sent"@,
                        },
                    },
                ));
            }
            return;
        }
        let lexical: u64 = match &outcome.evidence {
            Some(evidence) => evidence.lexical_elapsed_ms,
            None => 0,
        };
        self.production_elapsed.push(outcome.elapsed_ms.saturating_sub(lexical));
        let abstained: bool = text::eq(outcome.decision.as_str(), "abstain");
        let failed: bool = text::eq(outcome.decision.as_str(), "unavailable");
        let advisory: bool = self.is_advisory(key.case_id.as_str());
        // The latest-request-only arm runs after every main ranking, on what
        // budget remains: the primary evaluation always has priority.
        let arm: AblationArm = if advisory && !failed && latest_request_only(
            &self.queue[source].case,
        ).is_some() {
            AblationArm::Queued
        } else {
            AblationArm::Absent
        };
        self.arms.push(arm);
        self.executed.push(
            ExecutedCase {
                source,
                record: EvaluationCaseRecord {
                    key,
                    split,
                    decision: outcome.decision,
                    suggested_skills: outcome.suggested_skills,
                    relevance_abstention: abstained,
                    operational_failure: failed,
                },
                evidence: outcome.evidence,
                elapsed_ms: outcome.elapsed_ms,
            },
        );
        self.position = next;
        proof {
            lemma_settled_by_rank(start, *self);
        }
    }
}

proof fn lemma_settled_by_skip(before: LiveBatch, after: LiveBatch)
    requires
        before.wf(),
        before.position < before.queue@.len(),
        after.queue == before.queue,
        after.executed == before.executed,
        after.refused == before.refused,
        after.position == before.position + 1,
        after.skipped@.len() == before.skipped@.len() + 1,
        after.skipped@.drop_last() =~= before.skipped@,
        after.skipped@.last().key@ == before.queue@[before.position as int].record.key@,
    ensures
        after.settled_keys() == queued_keys(after.queue@.take(after.position as int)).to_multiset(),
{
    broadcast use vstd::seq_lib::group_to_multiset_ensures;

    let key = before.queue@[before.position as int].record.key@;
    let refused = before.refused as int;
    assert(skipped_keys(after.skipped@.skip(refused)) =~= skipped_keys(
        before.skipped@.skip(refused),
    ).push(key)) by {
        assert(forall|i: int|
            0 <= i < before.skipped@.len() ==> after.skipped@[i] == #[trigger] before.skipped@[i])
            by {
            assert(forall|i: int|
                0 <= i < before.skipped@.len() ==> after.skipped@.drop_last()[i]
                    == #[trigger] before.skipped@[i]);
        }
    }
    assert(queued_keys(after.queue@.take(after.position as int)) =~= queued_keys(
        before.queue@.take(before.position as int),
    ).push(key));
    assert(after.settled_keys() =~= before.settled_keys().insert(key));
}

proof fn lemma_settled_by_rank(before: LiveBatch, after: LiveBatch)
    requires
        before.wf(),
        before.position < before.queue@.len(),
        after.queue == before.queue,
        after.skipped == before.skipped,
        after.refused == before.refused,
        after.position == before.position + 1,
        after.executed@.len() == before.executed@.len() + 1,
        after.executed@.drop_last() =~= before.executed@,
        after.executed@.last().record.key@ == before.queue@[before.position as int].record.key@,
    ensures
        after.settled_keys() == queued_keys(after.queue@.take(after.position as int)).to_multiset(),
{
    broadcast use vstd::seq_lib::group_to_multiset_ensures;

    let key = before.queue@[before.position as int].record.key@;
    assert(executed_keys(after.executed@) =~= executed_keys(before.executed@).push(key)) by {
        assert(forall|i: int|
            0 <= i < before.executed@.len() ==> after.executed@[i] == #[trigger] before.executed@[i])
            by {
            assert(forall|i: int|
                0 <= i < before.executed@.len() ==> after.executed@.drop_last()[i]
                    == #[trigger] before.executed@[i]);
        }
    }
    assert(queued_keys(after.queue@.take(after.position as int)) =~= queued_keys(
        before.queue@.take(before.position as int),
    ).push(key));
    assert(after.settled_keys() =~= before.settled_keys().insert(key));
}

impl LiveBatch {
    /// Whether another batch and a place are what asking this one for its next arm comes
    /// to.
    pub open spec fn arm_offered(self, now_ms: u64, after: LiveBatch, r: Option<usize>) -> bool {
        &&& r is Some <==> self.budget.fits_at(now_ms) && exists|i: int|
            self.arm_position <= i < self.arms@.len() && (#[trigger] self.arms@[i]
                is Queued)
        &&& r is Some ==> {
            &&& after.arm_position == r->0
            &&& after.arms == self.arms
            &&& self.arm_position <= r->0 < self.arms@.len()
            &&& self.arms@[r->0 as int] is Queued
            &&& forall|j: int|
                self.arm_position <= j < r->0 ==> !(#[trigger] self.arms@[j] is Queued)
        }
        &&& r is None ==> {
            &&& after.arm_position == self.arms@.len()
            &&& after.arms@ == Seq::new(
                self.arms@.len(),
                |j: int|
                    if j >= self.arm_position && self.arms@[j] is Queued {
                        AblationArm::Skipped
                    } else {
                        self.arms@[j]
                    },
            )
        }
    }

    /// The next ablation arm to rank: the first queued one, where it fits.
    /// Where it does not, neither does any later one, and all are skipped.
    pub fn next_arm(&mut self, now_ms: u64) -> (r: Option<usize>)
        requires
            old(self).wf(),
        ensures
            final(self).wf(),
            old(self).same_plan(*final(self)),
            final(self).executed == old(self).executed,
            final(self).position == old(self).position,
            final(self).skipped == old(self).skipped,
            final(self).production_elapsed == old(self).production_elapsed,
            final(self).budget == old(self).budget,
            final(self).robustness == old(self).robustness,
            final(self).variant_place() == old(self).variant_place(),
            old(self).arm_offered(now_ms, *final(self), r),
    {
        let fits: bool = self.budget.fits(now_ms);
        let ghost start = *self;
        while self.arm_position < self.arms.len()
            invariant
                start == *old(self),
                self.wf(),
                start.same_plan(*self),
                self.executed == start.executed,
                self.position == start.position,
                self.skipped == start.skipped,
                self.production_elapsed == start.production_elapsed,
                self.budget == start.budget,
                self.robustness == start.robustness,
                self.variant_case == start.variant_case,
                self.variant_kind == start.variant_kind,
                fits == start.budget.fits_at(now_ms),
                start.arm_position <= self.arm_position <= start.arms@.len(),
                self.arms@.len() == start.arms@.len(),
                fits ==> self.arms == start.arms,
                fits ==> forall|j: int|
                    start.arm_position <= j < self.arm_position ==> !(#[trigger] start.arms@[j]
                        is Queued),
                self.arms@ =~= Seq::new(
                    start.arms@.len(),
                    |j: int|
                        if start.arm_position <= j < self.arm_position && start.arms@[j] is Queued {
                            AblationArm::Skipped
                        } else {
                            start.arms@[j]
                        },
                ),
            decreases self.arms@.len() - self.arm_position,
        {
            let queued: bool = match &self.arms[self.arm_position] {
                AblationArm::Queued => true,
                _ => false,
            };
            if queued {
                if fits {
                    return Some(self.arm_position);
                }
                self.arms.set(self.arm_position, AblationArm::Skipped);
            }
            self.arm_position = self.arm_position + 1;
        }
        assert(self.arms@ =~= Seq::new(
            start.arms@.len(),
            |j: int|
                if j >= start.arm_position && start.arms@[j] is Queued {
                    AblationArm::Skipped
                } else {
                    start.arms@[j]
                },
        ));
        None
    }

    /// An executed case with its history removed.
    pub fn ablated_case(&self, i: usize) -> (r: Option<LiveEvaluationCase>)
        requires
            self.wf(),
            i < self.executed@.len(),
        ensures
            ({
                let case = self.queue@[self.executed@[i as int].source as int].case;
                &&& r is Some <==> has_history(json_of(case.context))
                &&& r is Some ==> case.varied_to(r->0, without_events(json_of(case.context)))
            }),
            self.arms@[i as int] is Queued ==> r is Some,
    {
        let source: usize = self.executed[i].source;
        latest_request_only(&self.queue[source].case)
    }

    /// Whether another batch is this one after its next arm was settled with an
    /// outcome.
    pub open spec fn arm_settled(self, outcome: LiveRankOutcome, after: LiveBatch) -> bool {
        &&& after.arm_position == self.arm_position + 1
        &&& after.arms@ == self.arms@.update(
            self.arm_position as int,
            if outcome.decision@ == "unavailable"@ {
                AblationArm::Failed
            } else {
                AblationArm::Answered(outcome.suggested_skills)
            },
        )
    }

    /// Settle the arm at its position with what its ranking produced. A failed
    /// arm keeps its case in the ablation.
    pub fn settle_arm(&mut self, outcome: LiveRankOutcome)
        requires
            old(self).wf(),
            old(self).arm_position < old(self).arms@.len(),
            old(self).arms@[old(self).arm_position as int] is Queued,
            old(self).budget.can_charge(outcome),
        ensures
            final(self).wf(),
            old(self).same_plan(*final(self)),
            final(self).executed == old(self).executed,
            final(self).position == old(self).position,
            final(self).skipped == old(self).skipped,
            final(self).production_elapsed == old(self).production_elapsed,
            final(self).robustness == old(self).robustness,
            final(self).variant_place() == old(self).variant_place(),
            old(self).budget.charged_to(outcome, final(self).budget),
            old(self).arm_settled(outcome, *final(self)),
    {
        self.budget.charge(&outcome);
        let at: usize = self.arm_position;
        let next: usize = if at < self.arms.len() {
            at + 1
        } else {
            at
        };
        if text::eq(outcome.decision.as_str(), "unavailable") {
            self.arms.set(at, AblationArm::Failed);
        } else {
            self.arms.set(at, AblationArm::Answered(outcome.suggested_skills));
        }
        self.arm_position = next;
    }

    /// Whether the variant at a place in the order of ranking is sent.
    pub open spec fn sends_at(self, place: int, now_ms: u64) -> bool {
        self.varies(place / 3) && self.budget.fits_at(now_ms) && self.has_text(place / 3)
    }

    /// Whether another batch and a variant are what asking this one for its next variant
    /// comes to.
    pub open spec fn variant_offered(
        self,
        now_ms: u64,
        after: LiveBatch,
        r: Option<(usize, VariantKind)>,
    ) -> bool {
        &&& !self.budget.limits.robustness_variants ==> r is None && after == self
        &&& self.budget.limits.robustness_variants ==> {
            let from = self.variant_place();
            let to = after.variant_place();
            &&& from <= to <= 3 * self.executed@.len()
            &&& r is Some <==> to < 3 * self.executed@.len()
            &&& r is Some ==> self.sends_at(to, now_ms) && (r->0).0 == to / 3 && (r->0).1
                == kind_at(to % 3)
            &&& forall|place: int|
                from <= place < to ==> !(#[trigger] self.sends_at(place, now_ms))
            &&& after.robustness.variants@ == Seq::new(
                3,
                |k: int|
                    with_not_run(
                        self.robustness.variants@[k],
                        self.variants_between(from, to, k),
                    ),
            )
        }
    }

    /// The next variant to rank, as an executed case and a kind: the first one
    /// that has a request text and fits. Every variant passed over on the way
    /// is counted as not run. A batch without variants has none.
    pub fn next_variant(&mut self, now_ms: u64) -> (r: Option<(usize, VariantKind)>)
        requires
            old(self).wf(),
        ensures
            final(self).wf(),
            old(self).same_plan(*final(self)),
            final(self).executed == old(self).executed,
            final(self).position == old(self).position,
            final(self).skipped == old(self).skipped,
            final(self).production_elapsed == old(self).production_elapsed,
            final(self).arms == old(self).arms,
            final(self).arm_position == old(self).arm_position,
            final(self).budget == old(self).budget,
            old(self).variant_offered(now_ms, *final(self), r),
    {
        if !self.budget.limits.robustness_variants {
            return None;
        }
        let ghost start = *self;
        let fits: bool = self.budget.fits(now_ms);
        while self.variant_case < self.executed.len()
            invariant
                start == *old(self),
                old(self).budget.limits.robustness_variants,
                self.wf(),
                start.wf(),
                start.same_plan(*self),
                self.executed == start.executed,
                self.position == start.position,
                self.skipped == start.skipped,
                self.production_elapsed == start.production_elapsed,
                self.arms == start.arms,
                self.arm_position == start.arm_position,
                self.budget == start.budget,
                fits == start.budget.fits_at(now_ms),
                start.variant_place() <= self.variant_place() <= 3 * start.executed@.len(),
                forall|place: int|
                    start.variant_place() <= place < self.variant_place() ==> !(
                    #[trigger] start.sends_at(place, now_ms)),
                self.robustness.variants@ =~= Seq::new(
                    3,
                    |k: int|
                        with_not_run(
                            start.robustness.variants@[k],
                            start.variants_between(start.variant_place(), self.variant_place(), k),
                        ),
                ),
                forall|k: int|
                    0 <= k < 3 ==> (#[trigger] start.robustness.variants@[k]).not_run
                        + start.variants_between(start.variant_place(), self.variant_place(), k)
                        <= usize::MAX,
            decreases 3 * self.executed@.len() - self.variant_place(),
        {
            let case: usize = self.variant_case;
            let kind: usize = self.variant_kind;
            let ghost place = self.variant_place();
            assert(place / 3 == case && place % 3 == kind);
            let source: usize = self.executed[case].source;
            let varies: bool = !self.executed[case].record.operational_failure && self.is_advisory(
                self.executed[case].record.key.case_id.as_str(),
            );
            assert(varies == start.varies(case as int));
            proof {
                lemma_variants_bound(
                    self.judgments@,
                    self.executed@,
                    case as int,
                    kind as int,
                    kind as int,
                );
            }
            let ghost before = *self;
            if varies {
                let variant: Option<LiveEvaluationCase> = if fits {
                    request_variant(&self.queue[source].case, kind_of(kind))
                } else {
                    None
                };
                if variant.is_some() {
                    return Some((case, kind_of(kind)));
                }
                let mut score: VariantScore = self.robustness.variants[kind];
                score.not_run = score.not_run + 1;
                self.robustness.variants.set(kind, score);
            }
            assert(!start.sends_at(place, now_ms));
            if kind == 2 {
                self.variant_case = case + 1;
                self.variant_kind = 0;
            } else {
                self.variant_kind = kind + 1;
            }
            assert(self.variant_place() == place + 1);
            proof {
                assert forall|k: int| 0 <= k < 3 implies self.variants_between(0, place + 1, k)
                    == self.variants_between(0, place, k) + if kind == k && varies {
                    1nat
                } else {
                    0
                } by {}
                assert forall|k: int| 0 <= k < 3 implies self.robustness.variants@[k]
                    == with_not_run(
                    start.robustness.variants@[k],
                    start.variants_between(start.variant_place(), self.variant_place(), k),
                ) && (#[trigger] start.robustness.variants@[k]).not_run + start.variants_between(
                    start.variant_place(),
                    self.variant_place(),
                    k,
                ) <= usize::MAX by {
                    assert(before.robustness.variants@[k] == with_not_run(
                        start.robustness.variants@[k],
                        start.variants_between(start.variant_place(), place, k),
                    ));
                    assert(start.variants_between(start.variant_place(), place + 1, k)
                        == start.variants_between(start.variant_place(), place, k) + if place % 3
                        == k && start.varies(place / 3) {
                        1nat
                    } else {
                        0
                    });
                }
            }
        }
        None
    }

    /// The request of an executed case under a kind of variant.
    pub fn varied_case(&self, i: usize, kind: VariantKind) -> (r: Option<LiveEvaluationCase>)
        requires
            self.wf(),
            i < self.executed@.len(),
        ensures
            r is Some <==> self.has_text(i as int),
            r is Some ==> {
                let case = self.queue@[self.executed@[i as int].source as int].case;
                case.varied_to(
                    r->0,
                    with_request_text(
                        json_of(case.context),
                        variant_text(kind, request_text(json_of(case.context))->0),
                    ),
                )
            },
    {
        let source: usize = self.executed[i].source;
        request_variant(&self.queue[source].case, kind)
    }

    /// Whether the scores of another batch are these after the next variant was
    /// settled with an outcome.
    pub open spec fn variant_settled(self, outcome: LiveRankOutcome, after: LiveBatch) -> bool {
        let record = self.executed@[self.variant_case as int].record;
        let label = judgment_of(self.judgments@, record.key.case_id@)->0;
        let k = self.variant_kind as int;
        let score = self.robustness.variants@[k];
        after.robustness.variants@ == self.robustness.variants@.update(
            k,
            if outcome.decision@ == "unavailable"@ {
                (VariantScore { failures: (score.failures + 1) as usize, ..score })
            } else {
                with_answer(
                    score,
                    label,
                    first_of(record.suggested_skills@),
                    first_of(outcome.suggested_skills@),
                )
            },
        )
    }

    /// Settle the variant at its place with what its ranking produced.
    pub fn settle_variant(&mut self, outcome: LiveRankOutcome)
        requires
            old(self).wf(),
            old(self).variant_case < old(self).executed@.len(),
            old(self).varies(old(self).variant_case as int),
            old(self).budget.can_charge(outcome),
        ensures
            final(self).wf(),
            old(self).same_plan(*final(self)),
            final(self).executed == old(self).executed,
            final(self).position == old(self).position,
            final(self).skipped == old(self).skipped,
            final(self).production_elapsed == old(self).production_elapsed,
            final(self).arms == old(self).arms,
            final(self).arm_position == old(self).arm_position,
            old(self).budget.charged_to(outcome, final(self).budget),
            final(self).variant_place() == old(self).variant_place() + 1,
            old(self).variant_settled(outcome, *final(self)),
    {
        let case: usize = self.variant_case;
        let kind: usize = self.variant_kind;
        let next: usize = if case < self.executed.len() {
            case + 1
        } else {
            case
        };
        let ghost place = self.variant_place();
        proof {
            assert(place / 3 == case && place % 3 == kind);
            lemma_variants_bound(
                self.judgments@,
                self.executed@,
                case as int,
                kind as int,
                kind as int,
            );
            assert forall|k: int| 0 <= k < 3 implies self.variants_between(0, place + 1, k)
                == self.variants_between(0, place, k) + if kind == k {
                1nat
            } else {
                0
            } by {}
        }
        self.budget.charge(&outcome);
        let mut score: VariantScore = self.robustness.variants[kind];
        if text::eq(outcome.decision.as_str(), "unavailable") {
            score.failures = score.failures + 1;
        } else {
            let record: &EvaluationCaseRecord = &self.executed[case].record;
            match find_judgment(&self.judgments, record.key.case_id.as_str()) {
                Some(label) => {
                    let changed: bool = !same_first(
                        &record.suggested_skills,
                        &outcome.suggested_skills,
                    );
                    let base: bool = first_accepted(label, &record.suggested_skills);
                    let varied: bool = first_accepted(label, &outcome.suggested_skills);
                    score.cases = score.cases + 1;
                    if changed {
                        score.top1_changed = score.top1_changed + 1;
                    }
                    if base && !varied {
                        score.hit_lost = score.hit_lost + 1;
                    }
                    if !base && varied {
                        score.hit_gained = score.hit_gained + 1;
                    }
                },
                None => {},
            }
        }
        self.robustness.variants.set(kind, score);
        if kind == 2 {
            self.variant_case = next;
            self.variant_kind = 0;
        } else {
            self.variant_kind = kind + 1;
        }
    }
}

fn same_first(a: &Vec<String>, b: &Vec<String>) -> (r: bool)
    ensures
        r == (first_of(a@) == first_of(b@)),
{
    if a.len() == 0 || b.len() == 0 {
        a.len() == 0 && b.len() == 0
    } else {
        text::eq(a[0].as_str(), b[0].as_str())
    }
}

fn first_accepted(label: &JudgedLabel, skills: &Vec<String>) -> (r: bool)
    ensures
        r == top_hits(*label, first_of(skills@)),
{
    if skills.len() == 0 {
        false
    } else {
        acceptable_for(label, skills[0].as_str())
    }
}

/// Once every queued case was considered, each was either executed or skipped,
/// and exactly once.
pub proof fn lemma_every_case_ends_once(batch: LiveBatch)
    requires
        batch.wf(),
        batch.position == batch.queue@.len(),
    ensures
        batch.settled_keys() == queued_keys(batch.queue@).to_multiset(),
        batch.executed@.len() + batch.skipped@.len() == batch.queue@.len() + batch.refused,
{
    assert(batch.queue@.take(batch.position as int) =~= batch.queue@);
}

/// An executed case carries the key of the queued case that it came of, and
/// only a case with an earlier history has an arm to rank.
pub proof fn lemma_executed_cases_were_queued(batch: LiveBatch, i: int)
    requires
        batch.wf(),
        0 <= i < batch.executed@.len(),
    ensures
        batch.executed@[i].source < batch.queue@.len(),
        batch.executed@[i].record.key
            == batch.queue@[batch.executed@[i].source as int].record.key,
        batch.arms@[i] is Queued ==> has_history(
            json_of(batch.queue@[batch.executed@[i].source as int].case.context),
        ),
{
    let e = batch.executed@[i];
    let arm = batch.arms@[i];
}

/// Once every variant was considered, each judged advisory case that ranked
/// counts once under each kind: as answered, as failed or as not run. The kinds
/// stand in their order, a lost or a gained hit is a changed first suggestion,
/// and a changed one is an answer.
pub proof fn lemma_each_variant_counts_once(batch: LiveBatch, k: int)
    requires
        batch.wf(),
        batch.variant_place() == 3 * batch.executed@.len(),
        0 <= k < 3,
    ensures
        batch.robustness.variants@.len() == 3,
        ({
            let score = batch.robustness.variants@[k];
            &&& score.kind == Some(kind_at(k))
            &&& score.cases + score.failures + score.not_run == tally(
                batch.executed@,
                varying_case(batch.judgments@),
            )
            &&& score.hit_lost + score.hit_gained <= score.top1_changed
            &&& score.top1_changed <= score.cases
        }),
{
    let n = batch.executed@.len() as int;
    lemma_variants_full(batch.judgments@, batch.executed@, n, k);
    assert(batch.executed@.take(n) =~= batch.executed@);
}

/// A ranking is charged what it reports, each quantity to its own total: requests
/// to requests, tokens read to tokens read and tokens written to tokens written.
/// Attempts that are unknown count as many as were reported or as many as one
/// case may make, whichever is more.
pub proof fn lemma_outcome_is_charged(
    before: LiveBudget,
    outcome: LiveRankOutcome,
    after: LiveBudget,
)
    requires
        before.charged_to(outcome, after),
    ensures
        ({
            let worst = before.limits.attempts_per_case as int;
            let attempts = after.accounting.http_attempts - before.accounting.http_attempts;
            let unknown = after.accounting.unknown_usage_attempts
                - before.accounting.unknown_usage_attempts;
            &&& after.accounting.requests - before.accounting.requests == outcome.requests
            &&& after.accounting.input_tokens - before.accounting.input_tokens
                == outcome.input_tokens
            &&& after.accounting.output_tokens - before.accounting.output_tokens
                == outcome.output_tokens
            &&& !outcome.attempts_unknown ==> attempts == outcome.http_attempts && unknown
                == outcome.unknown_usage_attempts
            &&& outcome.attempts_unknown ==> {
                &&& attempts >= outcome.http_attempts && attempts >= worst
                &&& attempts == outcome.http_attempts || attempts == worst
                &&& unknown >= outcome.unknown_usage_attempts && unknown >= worst
                &&& unknown == outcome.unknown_usage_attempts || unknown == worst
            }
        }),
        after.limits == before.limits && after.expires_ms == before.expires_ms,
{
}

/// A ranking can be charged exactly where each total has room for what it
/// reports: a total may come to the most that its type holds, and no further.
pub proof fn lemma_what_can_be_charged(budget: LiveBudget, outcome: LiveRankOutcome)
    requires
        !outcome.attempts_unknown,
    ensures
        budget.can_charge(outcome) <==> {
            &&& outcome.requests <= usize::MAX - budget.accounting.requests
            &&& outcome.http_attempts <= usize::MAX - budget.accounting.http_attempts
            &&& outcome.unknown_usage_attempts <= usize::MAX
                - budget.accounting.unknown_usage_attempts
            &&& outcome.input_tokens <= u64::MAX - budget.accounting.input_tokens
            &&& outcome.output_tokens <= u64::MAX - budget.accounting.output_tokens
        },
{
}

/// A batch stops after an error that no later case can escape: a refused or absent
/// credential ends it with the code of the provider, and a denied network with
/// that of the network. Its cause names the error. Any other outcome leaves it
/// running, or stopped for the reason it had.
pub proof fn lemma_fatal_errors_stop_the_batch(
    before: LiveBudget,
    outcome: LiveRankOutcome,
    after: LiveBudget,
)
    requires
        before.charged_to(outcome, after),
    ensures
        ({
            let kind = outcome.error_kind->0@;
            let denied = outcome.error_kind is Some && kind == "network-denied"@;
            let refused = outcome.error_kind is Some && (kind == "authentication"@ || kind
                == "credential-absent"@);
            &&& refused ==> after.stopped is Some && after.stopped->0.error.code == 4
            &&& denied ==> after.stopped is Some && after.stopped->0.error.code == 8
            &&& refused || denied ==> after.stopped->0.error.kind@ == kind && occurs(
                after.stopped->0.reason@,
                kind,
            )
            &&& !refused && !denied ==> (after.stopped is Some <==> before.stopped is Some)
            &&& !refused && !denied && before.stopped is Some ==> after.stopped->0@
                == before.stopped->0@
        }),
{
    reveal_strlit("network-denied");
    reveal_strlit("authentication");
    reveal_strlit("credential-absent");
    assert("network-denied"@.len() == 14 && "authentication"@.len() == 14);
    assert("network-denied"@[0] == 'n' && "authentication"@[0] == 'a');
    assert("credential-absent"@.len() == 17);
    assert(after.stopped is Some ==> opt_stop_view(after.stopped) == Some(after.stopped->0@));
    assert(before.stopped is Some ==> opt_stop_view(before.stopped) == Some(before.stopped->0@));
    if outcome.error_kind is Some && fatal_code(outcome.error_kind->0@) is Some {
        let kind = outcome.error_kind->0@;
        assert(after.stopped->0@ == fatal_stop(kind));
        lemma_occurs_between("stopped after a fatal "@, kind, " error"@);
    }
}

/// A case is let in exactly while the batch has not stopped, its deadline has not
/// come and the worst case still fits under the request cap. Else the batch stops,
/// for the deadline first.
pub proof fn lemma_why_a_batch_stops(budget: LiveBudget, now_ms: u64)
    ensures
        ({
            let spent = budget.accounting.http_attempts + budget.limits.attempts_per_case;
            let late = now_ms >= budget.expires_ms;
            let stop = budget.stop_at(now_ms);
            &&& budget.fits_at(now_ms) <==> stop is None
            &&& stop is None <==> budget.stopped is None && !late && spent
                <= budget.limits.max_requests
            &&& budget.stopped is Some ==> stop == Some(budget.stopped->0@)
            &&& budget.stopped is None && late ==> stop->0.error.code == 6 && stop->0.error.kind
                == "timeout"@ && stop->0.reason == "batch runtime deadline expired"@
            &&& budget.stopped is None && !late && stop is Some ==> stop->0.error.code == 4
                && stop->0.error.kind == "request-budget"@ && stop->0.reason
                == "request cap reached before this case"@
        }),
{
}

/// A case that was ranked is recorded under its own key with what its ranking
/// said: it failed where the decision is unavailable and abstained where it says
/// so. Its time is that of the ranking, without the lexical pass that only an
/// evaluation makes. The latest request is ranked alone where the case is judged,
/// asks for advice, did not fail and has a history. A request that changed after
/// its preview is no case that was ranked.
pub proof fn lemma_ranked_case_is_recorded(
    before: LiveBatch,
    outcome: LiveRankOutcome,
    after: LiveBatch,
)
    requires
        before.case_settled(outcome, after),
    ensures
        ({
            let queued = before.queue@[before.position as int];
            let changed = outcome.error_kind is Some && outcome.error_kind->0@ == "superseded"@;
            let failed = outcome.decision@ == "unavailable"@;
            let lexical = if outcome.evidence is Some {
                outcome.evidence->0.lexical_elapsed_ms as int
            } else {
                0
            };
            &&& changed ==> {
                &&& after.executed == before.executed && after.arms == before.arms
                &&& after.skipped@.len() == before.skipped@.len() + 1
                &&& after.skipped@.last().key@ == queued.record.key@
                &&& after.skipped@.last().status is NotEstimable
            }
            &&& !changed ==> {
                let case = after.executed@.last();
                let time = after.production_elapsed@.last() as int;
                &&& after.skipped == before.skipped
                &&& after.executed@.len() == before.executed@.len() + 1
                &&& after.executed@.drop_last() == before.executed@
                &&& case.source == before.position
                &&& case.record.key == queued.record.key && case.record.split
                    == queued.record.split
                &&& case.record.decision == outcome.decision
                &&& case.record.suggested_skills == outcome.suggested_skills
                &&& case.record.operational_failure <==> failed
                &&& case.record.relevance_abstention <==> outcome.decision@ == "abstain"@
                &&& case.evidence == outcome.evidence && case.elapsed_ms == outcome.elapsed_ms
                &&& time == if lexical <= outcome.elapsed_ms {
                    outcome.elapsed_ms - lexical
                } else {
                    0
                }
                &&& after.arms@.len() == before.arms@.len() + 1
                &&& after.arms@.last() is Queued || after.arms@.last() is Absent
                &&& after.arms@.last() is Queued <==> {
                    let label = judgment_of(before.judgments@, queued.record.key.case_id@);
                    label is Some && label->0.explicit_directive is None && !failed && has_history(
                        json_of(queued.case.context),
                    )
                }
            }
        }),
{
    if superseded(outcome) {
        let n = before.skipped@.len() as int;
        assert(skipped_views(after.skipped@).len() == after.skipped@.len());
        assert(skipped_views(after.skipped@)[n] == after.skipped@[n]@);
    } else {
        assert(after.executed@.drop_last() =~= before.executed@);
    }
}

/// An arm that was ranked holds what it suggested, and one that was unavailable
/// nothing. No other arm changes.
pub proof fn lemma_ranked_arm_is_recorded(
    before: LiveBatch,
    outcome: LiveRankOutcome,
    after: LiveBatch,
)
    requires
        before.arm_position < before.arms@.len(),
        before.arm_settled(outcome, after),
    ensures
        ({
            let arm = after.arms@[before.arm_position as int];
            &&& outcome.decision@ == "unavailable"@ ==> arm is Failed
            &&& outcome.decision@ != "unavailable"@ ==> arm is Answered && arm->Answered_0
                == outcome.suggested_skills
        }),
        after.arms@.len() == before.arms@.len(),
        forall|i: int|
            0 <= i < before.arms@.len() && i != before.arm_position ==> #[trigger] after.arms@[i]
                == before.arms@[i],
{
}

/// Whether two lists of suggestions begin alike.
pub open spec fn begin_alike(a: Seq<String>, b: Seq<String>) -> bool {
    if a.len() == 0 {
        b.len() == 0
    } else {
        b.len() > 0 && a[0]@ == b[0]@
    }
}

/// Whether a list begins with an acceptable suggestion.
pub open spec fn begins_acceptably(label: JudgedLabel, skills: Seq<String>) -> bool {
    skills.len() > 0 && label.accepts(skills[0]@)
}

/// A variant that was ranked counts under its own kind alone: as a failure where
/// it was unavailable, else as an answer. It changed the first suggestion where the
/// two lists do not begin alike, lost a hit where only the original began
/// acceptably, and gained one where only the variant did.
pub proof fn lemma_ranked_variant_is_counted(
    before: LiveBatch,
    outcome: LiveRankOutcome,
    after: LiveBatch,
)
    requires
        before.wf(),
        before.variant_case < before.executed@.len(),
        before.variant_settled(outcome, after),
    ensures
        ({
            let record = before.executed@[before.variant_case as int].record;
            let label = judgment_of(before.judgments@, record.key.case_id@)->0;
            let k = before.variant_kind as int;
            let old_score = before.robustness.variants@[k];
            let new_score = after.robustness.variants@[k];
            let failed = outcome.decision@ == "unavailable"@;
            let hit = begins_acceptably(label, record.suggested_skills@);
            let varied_hit = begins_acceptably(label, outcome.suggested_skills@);
            let alike = begin_alike(record.suggested_skills@, outcome.suggested_skills@);
            &&& new_score.kind == old_score.kind
            &&& new_score.failures - old_score.failures == if failed {
                1int
            } else {
                0
            }
            &&& new_score.cases - old_score.cases == if failed {
                0int
            } else {
                1
            }
            &&& new_score.top1_changed - old_score.top1_changed == if !failed && !alike {
                1int
            } else {
                0
            }
            &&& new_score.hit_lost - old_score.hit_lost == if !failed && hit && !varied_hit {
                1int
            } else {
                0
            }
            &&& new_score.hit_gained - old_score.hit_gained == if !failed && !hit && varied_hit {
                1int
            } else {
                0
            }
            &&& new_score.not_run == old_score.not_run
            &&& forall|j: int|
                0 <= j < 3 && j != k ==> #[trigger] after.robustness.variants@[j]
                    == before.robustness.variants@[j]
        }),
{
    let k = before.variant_kind as int;
    lemma_variants_bound(
        before.judgments@,
        before.executed@,
        before.variant_case as int,
        k,
        k,
    );
    let score = before.robustness.variants@[k];
    assert(score.cases + score.failures + score.not_run <= before.variant_case);
    assert(before.variant_case < before.executed.len());
}

/// The kinds of variants and their order: the words kept and their spacing
/// changed, then a distraction, then a hostile instruction.
pub proof fn lemma_kinds_in_order(k: int)
    requires
        0 <= k < 3,
    ensures
        kind_at(k) is EquivalentWhitespace <==> k == 0,
        kind_at(k) is LongDistraction <==> k == 1,
        kind_at(k) is HostileInstruction <==> k == 2,
{
}

/// The variants of a case are ranked exactly where it did not fail, is judged and
/// asks for advice.
pub proof fn lemma_varying_cases(judgments: Seq<JudgedLabel>, case: ExecutedCase)
    ensures
        varying_case(judgments)(case) <==> {
            let label = judgment_of(judgments, case.record.key.case_id@);
            !case.record.operational_failure && label is Some && label->0.explicit_directive is None
        },
{
}

/// A budget is opened exactly with positive caps. It has spent nothing and lasts for the
/// runtime it is given.
pub proof fn lemma_opened_budgets_are_unspent(
    limits: LiveBatchLimits,
    now_ms: u64,
    r: Result<LiveBudget, EvaluationError>,
)
    requires
        LiveBudget::opened(limits, now_ms, r),
    ensures
        r is Err <==> limits.max_requests == 0 || limits.attempts_per_case == 0
            || limits.max_runtime_ms == 0,
        r is Err ==> r->Err_0 is InvalidField,
        r is Ok ==> {
            let budget = r->Ok_0;
            &&& budget.limits == limits && budget.stopped is None
            &&& budget.accounting.requests == 0 && budget.accounting.http_attempts == 0
            &&& budget.accounting.unknown_usage_attempts == 0
            &&& budget.accounting.input_tokens == 0 && budget.accounting.output_tokens == 0
            &&& now_ms + limits.max_runtime_ms <= u64::MAX ==> budget.expires_ms - now_ms
                == limits.max_runtime_ms
            &&& budget.fits_at(now_ms) <==> limits.attempts_per_case <= limits.max_requests
                && now_ms < budget.expires_ms
        },
{
}

/// A batch that has given out every case gives out no more and stops for no new
/// reason: nothing is skipped, and what it says of its stop stays.
pub proof fn lemma_no_case_left_changes_nothing(
    before: LiveBatch,
    now_ms: u64,
    after: LiveBatch,
    r: Option<usize>,
)
    requires
        before.case_offered(now_ms, after, r),
        before.position == before.queue@.len(),
    ensures
        r is None,
        after.position == before.position,
        after.skipped@.len() == before.skipped@.len(),
        after.budget.stopped is Some <==> before.budget.stopped is Some,
        before.budget.stopped is Some ==> after.budget.stopped->0@ == before.budget.stopped->0@,
{
    assert(skipped_views(after.skipped@).len() == after.skipped@.len());
    assert(skipped_views(before.skipped@).len() == before.skipped@.len());
}

/// The next case is the first that was not settled, and is given out exactly while a
/// case may be sent. Where none may, each that is left is skipped as unfinished, in its
/// order and for the reason the batch stopped; where none is left, nothing happens.
pub proof fn lemma_cases_are_given_out_while_they_fit(
    before: LiveBatch,
    now_ms: u64,
    after: LiveBatch,
    r: Option<usize>,
    i: int,
)
    requires
        before.case_offered(now_ms, after, r),
        before.position <= before.queue@.len(),
        0 <= i < before.queue@.len() - before.position,
    ensures
        r is Some <==> before.budget.fits_at(now_ms),
        r is Some ==> r->0 == before.position && after.position == before.position
            && after.skipped == before.skipped && after.budget.stopped is None,
        r is None ==> {
            let skip = after.skipped@[before.skipped@.len() + i];
            &&& after.position == before.queue@.len()
            &&& after.skipped@.len() - before.skipped@.len() == before.queue@.len()
                - before.position
            &&& skip.key@ == before.queue@[before.position + i].record.key@
            &&& skip.status is Unfinished
            &&& after.budget.stopped is Some
            &&& skip.status->Unfinished_reason@ == after.budget.stopped->0.reason@
            &&& before.budget.stopped is Some ==> after.budget.stopped->0@
                == before.budget.stopped->0@
        },
{
    if r is None {
        let n = before.skipped@.len() as int;
        assert(skipped_views(after.skipped@).len() == after.skipped@.len());
        assert(skipped_views(before.skipped@).len() == before.skipped@.len());
        assert(skipped_views(after.skipped@)[n + i] == after.skipped@[n + i]@);
        assert(opt_stop_view(after.budget.stopped) == Some(after.budget.stopped->0@));
    }
}

/// The next arm is the first that is queued, and is given out exactly while a ranking
/// may be sent. Where none may, each that is queued is skipped, and no other arm
/// changes.
pub proof fn lemma_arms_are_given_out_while_they_fit(
    before: LiveBatch,
    now_ms: u64,
    after: LiveBatch,
    r: Option<usize>,
    i: int,
)
    requires
        before.arm_offered(now_ms, after, r),
        before.arm_position <= i < before.arms@.len(),
    ensures
        before.arms@[i] is Queued && before.budget.fits_at(now_ms) ==> r is Some && r->0 <= i,
        r is Some ==> before.budget.fits_at(now_ms) && before.arms@[r->0 as int] is Queued
            && after.arms == before.arms,
        r is None && before.arms@[i] is Queued ==> after.arms@[i] is Skipped,
        !(before.arms@[i] is Queued) ==> after.arms@[i] == before.arms@[i],
{
    if before.arms@[i] is Queued && before.budget.fits_at(now_ms) {
        assert(r is Some);
        if r->0 > i {
            assert(!(before.arms@[i] is Queued));
        }
    }
}

/// Variants are given out only where they were asked for and a ranking may be sent, and
/// only of a case that varies and has a text. Each kind that is passed over on the way
/// counts as not run, and as nothing else.
pub proof fn lemma_variants_are_given_out_while_they_fit(
    before: LiveBatch,
    now_ms: u64,
    after: LiveBatch,
    r: Option<(usize, VariantKind)>,
    k: int,
)
    requires
        before.wf(),
        after.wf(),
        before.variant_offered(now_ms, after, r),
        0 <= k < 3,
    ensures
        r is Some ==> {
            let (case, kind) = r->0;
            &&& before.budget.limits.robustness_variants
            &&& before.budget.fits_at(now_ms)
            &&& varying_case(before.judgments@)(before.executed@[case as int])
            &&& before.has_text(case as int)
            &&& 3 * case + (if kind is EquivalentWhitespace {
                0int
            } else if kind is LongDistraction {
                1
            } else {
                2
            }) == after.variant_place()
        },
        !before.budget.limits.robustness_variants ==> r is None,
        ({
            let old_score = before.robustness.variants@[k];
            let new_score = after.robustness.variants@[k];
            &&& new_score.cases == old_score.cases && new_score.failures == old_score.failures
            &&& new_score.top1_changed == old_score.top1_changed
            &&& new_score.hit_lost == old_score.hit_lost
            &&& new_score.hit_gained == old_score.hit_gained
        }),
{
    if before.budget.limits.robustness_variants {
        let from = before.variant_place();
        let to = after.variant_place();
        assert(after.robustness.variants@[k] == with_not_run(
            before.robustness.variants@[k],
            before.variants_between(from, to, k),
        ));
    }
}

} // verus!
