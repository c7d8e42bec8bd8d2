//! Bounded offline replay batches. Recorded decisions are observations, not
//! independent usefulness labels: replay success cannot pass a quality gate.

use crate::evaluation::frame::EvaluationBatchReport;
use crate::evaluation::labels::CaseKey;
use crate::evaluation::report::{
    opt_error_view, opt_view, report_error, report_views, BatchAccounting, BatchCaseReport,
    BatchLossSummary, CaseExecutionStatus, CaseReportView, CompletenessReport, EvaluationError,
    EvaluationErrorView, GateStatus, ReportError, ReportErrorView, RunStatus, StatusView,
    SCHEMA_VERSION,
};
use crate::json;
use crate::json::json_of;
use crate::score::Score;
use crate::tally::{lemma_tally_bound, lemma_tally_full, lemma_total_step, tally, total};
use crate::text;
use serde_json::Value;
use vstd::prelude::*;
use vstd::string::*;

verus! {

/// Origin class of evidence evaluated in the batch.
#[derive(Clone, Copy, Debug, PartialEq, Eq, Structural)]
pub enum EvidenceOrigin {
    Synthetic,
    Recorded,
    Live,
}

impl EvidenceOrigin {
    /// The name of an origin.
    pub open spec fn name(self) -> Seq<char> {
        match self {
            EvidenceOrigin::Synthetic => "synthetic"@,
            EvidenceOrigin::Recorded => "recorded"@,
            EvidenceOrigin::Live => "live"@,
        }
    }

    pub fn as_str(&self) -> (r: &'static str)
        ensures
            r@ == self.name(),
    {
        match self {
            EvidenceOrigin::Synthetic => "synthetic",
            EvidenceOrigin::Recorded => "recorded",
            EvidenceOrigin::Live => "live",
        }
    }
}

/// What a policy override changes of a replay's stages.
#[derive(Clone, Copy, Debug, PartialEq, Eq, Structural)]
pub struct ReplayPolicy {
    pub gate_threshold: Option<Score>,
}

/// Configuration options for an evaluation batch run.
#[derive(Clone, Copy, Debug, PartialEq, Eq, Structural)]
pub struct BatchConfig {
    /// Maximum HTTP attempts across the entire live batch. Required when `online`.
    pub max_requests: Option<u32>,
    /// Maximum runtime for the entire batch in milliseconds.
    pub max_runtime_ms: u64,
    /// Optional per-case deadline in milliseconds.
    pub per_case_timeout_ms: Option<u64>,
    /// Whether to run live against the provider.
    pub online: bool,
    /// Explicit network authorization consent flag.
    pub allow_network: bool,
    pub evidence_origin: EvidenceOrigin,
    /// Optional baseline or evaluation policy override.
    pub policy: Option<ReplayPolicy>,
    /// Optional comparison policy override.
    pub compare_policy: Option<ReplayPolicy>,
}

impl BatchConfig {
    /// An offline batch of recorded evidence with no overrides.
    pub fn offline(max_runtime_ms: u64) -> (r: BatchConfig)
        ensures
            r == (BatchConfig {
                max_requests: None,
                max_runtime_ms,
                per_case_timeout_ms: None,
                online: false,
                allow_network: false,
                evidence_origin: EvidenceOrigin::Recorded,
                policy: None,
                compare_policy: None,
            }),
    {
        BatchConfig {
            max_requests: None,
            max_runtime_ms,
            per_case_timeout_ms: None,
            online: false,
            allow_network: false,
            evidence_origin: EvidenceOrigin::Recorded,
            policy: None,
            compare_policy: None,
        }
    }
}

/// The longest a batch may run.
pub const MAX_BATCH_RUNTIME_MS: u64 = 86_400_000;

/// The first reason to refuse a configuration.
pub open spec fn config_refusal(config: BatchConfig) -> Option<Seq<char>> {
    if config.online && !config.allow_network {
        Some("online live evaluation requires --allow-network or trusted network consent"@)
    } else if config.online && (config.max_requests is None || config.max_requests == Some(0u32)) {
        Some("online live evaluation requires an explicit --max-requests cap"@)
    } else if config.evidence_origin is Live {
        Some("offline replay cannot claim fresh live evidence"@)
    } else if config.max_runtime_ms == 0 || config.max_runtime_ms > MAX_BATCH_RUNTIME_MS {
        Some("batch_runtime must be positive and at most 86400000 ms"@)
    } else if config.per_case_timeout_ms == Some(0u64) {
        Some("per-case timeout must be positive"@)
    } else {
        None
    }
}

/// Whether a result is the refusal of a configuration, or its acceptance.
pub open spec fn refused_with(r: Result<(), EvaluationError>, refusal: Option<Seq<char>>) -> bool {
    match r {
        Ok(_) => refusal is None,
        Err(e) => refusal is Some && e@ == EvaluationErrorView::InvalidField(refusal->0),
    }
}

fn invalid_field(message: &str) -> (r: EvaluationError)
    ensures
        r@ == EvaluationErrorView::InvalidField(message@),
{
    EvaluationError::InvalidField(message.to_owned())
}

/// Validate mode and limits before callers open any evaluation inputs.
pub fn validate_batch_config(config: &BatchConfig) -> (r: Result<(), EvaluationError>)
    ensures
        refused_with(r, config_refusal(*config)),
{
    if config.online {
        if !config.allow_network {
            return Err(
                invalid_field(
                    "online live evaluation requires --allow-network or trusted network consent",
                ),
            );
        }
        let capped: bool = match config.max_requests {
            Some(n) => n != 0,
            None => false,
        };
        if !capped {
            return Err(
                invalid_field("online live evaluation requires an explicit --max-requests cap"),
            );
        }
    }
    match config.evidence_origin {
        EvidenceOrigin::Live => {
            return Err(invalid_field("offline replay cannot claim fresh live evidence"));
        },
        _ => {},
    }
    if config.max_runtime_ms == 0 || config.max_runtime_ms > MAX_BATCH_RUNTIME_MS {
        return Err(invalid_field("batch_runtime must be positive and at most 86400000 ms"));
    }
    match config.per_case_timeout_ms {
        Some(ms) => {
            if ms == 0 {
                return Err(invalid_field("per-case timeout must be positive"));
            }
        },
        None => {},
    }
    Ok(())
}

/// A replay batch runs offline: the first reason to refuse one.
pub open spec fn replay_refusal(config: BatchConfig) -> Option<Seq<char>> {
    match config_refusal(config) {
        Some(reason) => Some(reason),
        None => if config.online {
            Some("a live batch ranks labeled cases fresh; replay datasets run offline"@)
        } else {
            None
        },
    }
}

/// Validate the configuration of a replay batch.
pub fn validate_replay_config(config: &BatchConfig) -> (r: Result<(), EvaluationError>)
    ensures
        refused_with(r, replay_refusal(*config)),
{
    match validate_batch_config(config) {
        Ok(_) => {},
        Err(e) => return Err(e),
    }
    if config.online {
        return Err(
            invalid_field("a live batch ranks labeled cases fresh; replay datasets run offline"),
        );
    }
    Ok(())
}

/// What a dataset line comes to before it is parsed: nothing where it is
/// blank, a refusal where the dataset is full, else its trimmed text.
pub open spec fn line_offered(
    ascii_only: bool,
    held: nat,
    max: usize,
    line: Seq<char>,
    r: Result<Option<String>, EvaluationError>,
) -> bool {
    let body = text::trimmed(ascii_only, line);
    if body.len() == 0 {
        r is Ok && r->Ok_0 is None
    } else if held >= max {
        r is Err && r->Err_0@ == EvaluationErrorView::RecordLimitReached {
            count: (held + 1) as usize,
            max,
        }
    } else {
        r is Ok && r->Ok_0 is Some && r->Ok_0->0@ == body
    }
}

fn offer_line_to(ascii_only: bool, held: usize, max: usize, line: &str) -> (r: Result<
    Option<String>,
    EvaluationError,
>)
    requires
        held < usize::MAX,
    ensures
        line_offered(ascii_only, held as nat, max, line@, r),
{
    let body: String = text::trim(ascii_only, line);
    if text::eq(body.as_str(), "") {
        proof {
            reveal_strlit("");
        }
        return Ok(None);
    }
    proof {
        reveal_strlit("");
        assert(body@.len() == 0 ==> body@ =~= ""@);
    }
    if held >= max {
        return Err(EvaluationError::RecordLimitReached { count: held + 1, max });
    }
    Ok(Some(body))
}

fn malformed(prefix: &str, detail: &str) -> (r: EvaluationError)
    ensures
        r@ == EvaluationErrorView::InvalidField(prefix@ + detail@),
{
    let mut message: String = prefix.to_owned();
    message.append(detail);
    EvaluationError::InvalidField(message)
}

/// The identities of the replay cases read so far: none blank, none twice.
pub struct ReplayIntake {
    pub ids: Vec<String>,
    pub max: usize,
}

/// Whether the identity of a case was taken into a dataset or refused.
pub open spec fn id_offered(
    before: Seq<String>,
    id: Seq<char>,
    after: Seq<String>,
    r: Result<(), EvaluationError>,
) -> bool {
    &&& r is Ok <==> text::trimmed(false, id).len() > 0 && !text::lists(before, id)
    &&& r is Ok ==> text::views(after) == text::views(before).push(id)
    &&& r is Err ==> after == before && r->Err_0@ == EvaluationErrorView::CardinalityViolation(
        "empty or duplicate replay case ID"@,
    )
}

impl ReplayIntake {
    pub open spec fn wf(self) -> bool {
        &&& self.ids@.len() <= self.max
        &&& self.max < usize::MAX
        &&& forall|i: int|
            0 <= i < self.ids@.len() ==> text::trimmed(
                false,
                (#[trigger] self.ids@[i])@,
            ).len() > 0
        &&& forall|i: int, j: int|
            0 <= i < j < self.ids@.len() ==> (#[trigger] self.ids@[i])@ != (
            #[trigger] self.ids@[j])@
    }

    pub fn new(max: usize) -> (r: ReplayIntake)
        requires
            max < usize::MAX,
        ensures
            r.wf(),
            r.ids@.len() == 0,
            r.max == max,
    {
        ReplayIntake { ids: Vec::new(), max }
    }

    /// Take a line of the dataset: the text to parse, or nothing.
    pub fn offer_line(&self, line: &str) -> (r: Result<Option<String>, EvaluationError>)
        requires
            self.wf(),
        ensures
            line_offered(true, self.ids@.len(), self.max, line@, r),
    {
        offer_line_to(true, self.ids.len(), self.max, line)
    }

    /// The error of a line that is not a replay case.
    pub fn malformed_case(&self, detail: &str) -> (r: EvaluationError)
        ensures
            r@ == EvaluationErrorView::InvalidField("malformed replay case: "@ + detail@),
    {
        malformed("malformed replay case: ", detail)
    }

    /// Take the identity of a parsed case.
    pub fn offer_id(&mut self, id: &str) -> (r: Result<(), EvaluationError>)
        requires
            old(self).wf(),
            old(self).ids@.len() < old(self).max,
        ensures
            final(self).wf(),
            final(self).max == old(self).max,
            id_offered(old(self).ids@, id@, final(self).ids@, r),
            r is Err ==> final(self).ids == old(self).ids,
    {
        let body: String = text::trim(false, id);
        let blank: bool = text::eq(body.as_str(), "");
        proof {
            reveal_strlit("");
            assert(body@.len() == 0 ==> body@ =~= ""@);
        }
        if blank || text::contains(&self.ids, id) {
            return Err(
                EvaluationError::CardinalityViolation(
                    "empty or duplicate replay case ID".to_owned(),
                ),
            );
        }
        let ghost before = self.ids@;
        self.ids.push(id.to_owned());
        assert(text::views(self.ids@) =~= text::views(before).push(id@));
        Ok(())
    }
}

/// The keys of the live cases read so far, none twice.
pub struct LiveIntake {
    pub keys: Vec<CaseKey>,
    pub max: usize,
}

impl LiveIntake {
    pub open spec fn wf(self) -> bool {
        &&& self.keys@.len() <= self.max
        &&& self.max < usize::MAX
        &&& forall|i: int, j: int|
            0 <= i < j < self.keys@.len() ==> (#[trigger] self.keys@[i])@ != (
            #[trigger] self.keys@[j])@
    }

    /// Whether the key of a case was taken into a dataset or refused.
    pub open spec fn key_offered(
        self,
        schema_version: u64,
        key: CaseKey,
        null_key: bool,
        after: LiveIntake,
        r: Result<(), EvaluationError>,
    ) -> bool {
        &&& r is Ok <==> schema_version == SCHEMA_VERSION && !null_key && !self.has_key(key)
        &&& r is Ok ==> after.keys@ == self.keys@.push(key)
        &&& r is Err ==> after.keys == self.keys && r->Err_0@ == if schema_version
            != SCHEMA_VERSION {
            EvaluationErrorView::UnsupportedVersion(schema_version)
        } else {
            EvaluationErrorView::CardinalityViolation("empty or duplicate live case key"@)
        }
    }

    /// Whether a key was read before.
    pub open spec fn has_key(self, key: CaseKey) -> bool {
        exists|i: int| 0 <= i < self.keys@.len() && (#[trigger] self.keys@[i])@ == key@
    }

    pub fn new(max: usize) -> (r: LiveIntake)
        requires
            max < usize::MAX,
        ensures
            r.wf(),
            r.keys@.len() == 0,
            r.max == max,
    {
        LiveIntake { keys: Vec::new(), max }
    }

    /// Take a line of the dataset: the text to parse, or nothing.
    pub fn offer_line(&self, line: &str) -> (r: Result<Option<String>, EvaluationError>)
        requires
            self.wf(),
        ensures
            line_offered(false, self.keys@.len(), self.max, line@, r),
    {
        offer_line_to(false, self.keys.len(), self.max, line)
    }

    /// The error of a line that is not a live case.
    pub fn malformed_case(&self, detail: &str) -> (r: EvaluationError)
        ensures
            r@ == EvaluationErrorView::InvalidField("malformed live case: "@ + detail@),
    {
        malformed("malformed live case: ", detail)
    }

    /// Take the version and the key of a parsed case.
    pub fn offer_key(&mut self, schema_version: u64, key: &CaseKey, null_key: bool) -> (r: Result<
        (),
        EvaluationError,
    >)
        requires
            old(self).wf(),
            old(self).keys@.len() < old(self).max,
        ensures
            final(self).wf(),
            final(self).max == old(self).max,
            old(self).key_offered(schema_version, *key, null_key, *final(self), r),
    {
        if schema_version != SCHEMA_VERSION {
            return Err(EvaluationError::UnsupportedVersion(schema_version));
        }
        let mut held: bool = false;
        let mut i: usize = 0;
        while i < self.keys.len() && !held
            invariant
                i <= self.keys@.len(),
                *self == *old(self),
                held ==> self.has_key(*key),
                !held ==> forall|j: int| 0 <= j < i ==> (#[trigger] self.keys@[j])@ != key@,
            decreases self.keys@.len() - i + if held {
                0int
            } else {
                1
            },
        {
            held = self.keys[i].same(key);
            i = i + 1;
        }
        if null_key || held {
            return Err(
                EvaluationError::CardinalityViolation(
                    "empty or duplicate live case key".to_owned(),
                ),
            );
        }
        self.keys.push(key.copy());
        Ok(())
    }
}

/// What a replay reads of a recorded case.
pub struct ReplayFacts {
    pub case_id: String,
    pub historical_decision: Value,
    pub evidence_origin: String,
    /// Gate threshold of the recorded scoring profile.
    pub gate_threshold: Score,
    /// Gate score of the recorded wide response, where there is one: its
    /// own, or what its distribution leaves for any skill.
    pub wide_gate: Option<Score>,
    pub has_rerank: bool,
}

/// The stages a policy needs: one where the recorded gate stopped the run.
pub open spec fn stages_for(case: ReplayFacts, policy: Option<ReplayPolicy>) -> nat {
    let threshold = match policy {
        Some(p) => match p.gate_threshold {
            Some(t) => t,
            None => case.gate_threshold,
        },
        None => case.gate_threshold,
    };
    if case.wide_gate is Some && case.wide_gate->0.below_spec(threshold) {
        1
    } else {
        2
    }
}

/// The stages a case needs. A local explicit resolution consumes no model
/// stages. Otherwise a missing wide answer cannot establish that rerank was
/// unnecessary, and of two policies the stricter counts.
pub open spec fn stages_of(case: ReplayFacts, config: BatchConfig) -> nat {
    if json_of(case.historical_decision).member("decision"@).text() == Some("explicit"@) {
        0
    } else {
        let base = stages_for(case, config.policy);
        match config.compare_policy {
            Some(p) => if stages_for(case, Some(p)) > base {
                stages_for(case, Some(p))
            } else {
                base
            },
            None => base,
        }
    }
}

fn stages_under(case: &ReplayFacts, policy: Option<ReplayPolicy>) -> (r: usize)
    ensures
        r == stages_for(*case, policy),
{
    let threshold: Score = match policy {
        Some(p) => match p.gate_threshold {
            Some(t) => t,
            None => case.gate_threshold,
        },
        None => case.gate_threshold,
    };
    let stopped: bool = match case.wide_gate {
        Some(gate) => gate.below(threshold),
        None => false,
    };
    if stopped {
        1
    } else {
        2
    }
}

/// The stages a case needs.
pub fn required_stages(case: &ReplayFacts, config: &BatchConfig) -> (r: usize)
    ensures
        r == stages_of(*case, *config),
        r <= 2,
{
    let explicit: bool = match json::member_text(&case.historical_decision, "decision") {
        Some(decision) => text::eq(decision, "explicit"),
        None => false,
    };
    if explicit {
        return 0;
    }
    let base: usize = stages_under(case, config.policy);
    match config.compare_policy {
        Some(p) => {
            let other: usize = stages_under(case, Some(p));
            if other > base {
                other
            } else {
                base
            }
        },
        None => base,
    }
}

/// What replaying a case came to.
pub enum ReplayOutcome {
    Recomputed { complete: bool, decision: Option<String>, explanation: Option<String> },
    Failed(String),
}

/// What one replay batch has come to.
pub struct ReplayBatch {
    pub config: BatchConfig,
    /// The identities of its cases, in the order of its file.
    pub ids: Vec<String>,
    pub expires_ms: u64,
    pub synthetic: bool,
    pub completeness: CompletenessReport,
    pub loss_summary: BatchLossSummary,
    pub reports: Vec<BatchCaseReport>,
    pub error: Option<ReportError>,
}

/// Whether any case of a batch is synthetic.
pub open spec fn any_synthetic(cases: Seq<ReplayFacts>) -> bool {
    exists|i: int| 0 <= i < cases.len() && (#[trigger] cases[i]).evidence_origin@ == "synthetic"@
}

pub open spec fn stages_needed(config: BatchConfig) -> spec_fn(ReplayFacts) -> nat {
    |case: ReplayFacts| stages_of(case, config)
}

/// When a case that started at a time must be done.
pub open spec fn case_expiry(config: BatchConfig, expires_ms: u64, started_ms: u64) -> u64 {
    match config.per_case_timeout_ms {
        Some(ms) => if started_ms + ms < expires_ms {
            (started_ms + ms) as u64
        } else {
            expires_ms
        },
        None => expires_ms,
    }
}

pub open spec fn deadline_error() -> ReportErrorView {
    ReportErrorView {
        code: 6,
        kind: "deadline-expired"@,
        message: "Evaluation batch exceeded max-runtime-ms deadline"@,
        hint: "Increase --max-runtime-ms or reduce dataset size"@,
        retryable: false,
    }
}

/// How a case ends: unfinished where the batch deadline had passed, not
/// estimable without the wide response it needs, a failure where its replay
/// missed its deadline, else what its replay came to.
pub open spec fn replay_status(
    batch: ReplayBatch,
    case: ReplayFacts,
    started_ms: u64,
    outcome: ReplayOutcome,
    checked_ms: u64,
) -> StatusView {
    if started_ms >= batch.expires_ms {
        StatusView::Unfinished { reason: "batch runtime deadline expired"@ }
    } else if stages_of(case, batch.config) > 0 && case.wide_gate is None {
        StatusView::NotEstimable { reason: "missing wide recorded response"@ }
    } else if checked_ms >= case_expiry(batch.config, batch.expires_ms, started_ms) {
        StatusView::OperationalFailure { error_kind: "deadline-expired"@, loss: 2 }
    } else {
        match outcome {
            ReplayOutcome::Recomputed { complete, decision, explanation } => if complete
                && decision is Some {
                StatusView::Completed {
                    decision: decision->0@,
                    recomputed: opt_view(explanation),
                    loss: None,
                }
            } else {
                StatusView::NotEstimable {
                    reason: match explanation {
                        Some(text) => text@,
                        None => "recorded evidence is incomplete"@,
                    },
                }
            },
            ReplayOutcome::Failed(reason) => StatusView::NotEstimable { reason: reason@ },
        }
    }
}

/// Whether a case's replay is run at all.
pub open spec fn replays(batch: ReplayBatch, case: ReplayFacts, started_ms: u64) -> bool {
    started_ms < batch.expires_ms && !(stages_of(case, batch.config) > 0 && case.wide_gate is None)
}

/// The recorded stages a case completed, where its replay was in time.
pub open spec fn stages_done(case: ReplayFacts, config: BatchConfig) -> nat {
    let required = stages_of(case, config);
    (if required >= 1 && case.wide_gate is Some {
        1nat
    } else {
        0
    }) + (if required >= 2 && case.has_rerank {
        1nat
    } else {
        0
    })
}

pub open spec fn report_completed() -> spec_fn(CaseReportView) -> bool {
    |r: CaseReportView| r.status is Completed
}

pub open spec fn report_not_estimable() -> spec_fn(CaseReportView) -> bool {
    |r: CaseReportView| r.status is NotEstimable
}

pub open spec fn report_unfinished() -> spec_fn(CaseReportView) -> bool {
    |r: CaseReportView| r.status is Unfinished
}

pub open spec fn report_failed() -> spec_fn(CaseReportView) -> bool {
    |r: CaseReportView| r.status is OperationalFailure
}

/// The identities of facts, in order.
pub open spec fn fact_ids(cases: Seq<ReplayFacts>) -> Seq<Seq<char>> {
    Seq::new(cases.len(), |i: int| cases[i].case_id@)
}

/// The identities that reports carry, in order.
pub open spec fn report_ids(reports: Seq<BatchCaseReport>) -> Seq<Seq<char>> {
    Seq::new(reports.len(), |i: int| reports[i].case_id@)
}

/// Whether a batch is one that was opened on some cases and settled none of them.
pub open spec fn opens_with(
    config: BatchConfig,
    cases: Seq<ReplayFacts>,
    now_ms: u64,
    r: ReplayBatch,
) -> bool {
    &&& r.config == config
    &&& text::views(r.ids@) == fact_ids(cases)
    &&& r.expires_ms == if now_ms + config.max_runtime_ms <= u64::MAX {
        now_ms + config.max_runtime_ms
    } else {
        u64::MAX as int
    }
    &&& r.synthetic == (config.evidence_origin is Synthetic || any_synthetic(cases))
    &&& r.completeness == (CompletenessReport {
        cases_requested: cases.len() as usize,
        cases_completed: 0,
        stages_required: total(cases, stages_needed(config)) as usize,
        stages_completed: 0,
        evidence_compatible: true,
    })
    &&& r.completeness.stages_required == total(cases, stages_needed(config))
    &&& r.loss_summary == BatchLossSummary::zero()
    &&& r.reports@.len() == 0
    &&& r.error is None
}

/// Whether a batch is another one after one more case was settled.
pub open spec fn settles(
    before: ReplayBatch,
    after: ReplayBatch,
    case: ReplayFacts,
    started_ms: u64,
    outcome: ReplayOutcome,
    checked_ms: u64,
    finished_ms: u64,
) -> bool {
    let status = replay_status(before, case, started_ms, outcome, checked_ms);
    &&& after.config == before.config
    &&& after.ids == before.ids
    &&& after.expires_ms == before.expires_ms
    &&& after.synthetic == before.synthetic
    &&& after.completeness.cases_requested == before.completeness.cases_requested
    &&& after.completeness.stages_required == before.completeness.stages_required
    &&& report_views(after.reports@) == report_views(before.reports@).push(
        CaseReportView {
            case_id: case.case_id@,
            family_id: None,
            status,
            elapsed_ms: if finished_ms >= started_ms {
                (finished_ms - started_ms) as u64
            } else {
                0
            },
        },
    )
    &&& after.completeness.cases_completed == before.completeness.cases_completed + if status
        is Completed {
        1int
    } else {
        0
    }
    &&& after.completeness.stages_completed == before.completeness.stages_completed + if replays(
        before,
        case,
        started_ms,
    ) && !(status is OperationalFailure) {
        stages_done(case, before.config) as int
    } else {
        0
    }
    &&& after.loss_summary.not_estimable_cases == before.loss_summary.not_estimable_cases
        + if status is NotEstimable {
        1int
    } else {
        0
    }
    &&& after.loss_summary.unfinished_cases == before.loss_summary.unfinished_cases + if status
        is Unfinished {
        1int
    } else {
        0
    }
    &&& after.loss_summary.operational_failures == before.loss_summary.operational_failures
        + if status is OperationalFailure {
        1int
    } else {
        0
    }
}

/// Whether a report says what a replay batch came to.
pub open spec fn replay_reported(batch: ReplayBatch, r: EvaluationBatchReport) -> bool {
    let complete = batch.completeness.cases_completed == batch.completeness.cases_requested
        && batch.completeness.stages_completed == batch.completeness.stages_required;
    &&& r.schema_version == SCHEMA_VERSION
    &&& r.kind@ == "report"@
    &&& !r.actionable
    &&& r.run_status == if complete {
        RunStatus::Complete
    } else {
        RunStatus::Partial
    }
    &&& r.gate_status == if batch.synthetic && complete {
        GateStatus::NotApplicable
    } else {
        GateStatus::NotEstablished
    }
    &&& r.evidence_origin@ == if batch.synthetic {
        "synthetic"@
    } else {
        "recorded"@
    }
    &&& r.completeness == batch.completeness
    &&& r.loss_summary == batch.loss_summary
    &&& r.accounting == BatchAccounting::zero()
    &&& !r.labeled
    &&& r.sample is None
    &&& r.design_weighted_loss is None
    &&& r.disclosure_preflight is None
    &&& r.review_queue is None
    &&& r.baselines is None
    &&& r.explanation is None
    &&& r.cases == batch.reports
    &&& r.error == batch.error
}

impl ReplayBatch {
    /// The reports are those of the first cases in order, each counted by its
    /// status, only failures carry a loss, and no more cases are settled than
    /// were requested.
    pub open spec fn wf(self) -> bool {
        let n = self.reports@.len();
        let reports = report_views(self.reports@);
        &&& self.ids@.len() == self.completeness.cases_requested
        &&& report_ids(self.reports@) == text::views(self.ids@).take(n as int)
        &&& self.completeness.cases_completed == tally(reports, report_completed())
        &&& self.loss_summary.not_estimable_cases == tally(reports, report_not_estimable())
        &&& self.loss_summary.unfinished_cases == tally(reports, report_unfinished())
        &&& self.loss_summary.operational_failures == tally(reports, report_failed())
        &&& n <= self.completeness.cases_requested
        &&& 2 * self.completeness.cases_requested <= u32::MAX
        &&& 2 * self.completeness.cases_requested <= usize::MAX
        &&& self.completeness.cases_completed + self.loss_summary.not_estimable_cases
            + self.loss_summary.unfinished_cases + self.loss_summary.operational_failures == n
        &&& self.completeness.stages_completed <= 2 * n
        &&& self.loss_summary.attempted_cases == self.loss_summary.operational_failures
        &&& self.loss_summary.total_loss == 2 * self.loss_summary.operational_failures
        &&& self.loss_summary.unfinished_cases > 0 ==> opt_error_view(self.error) == Some(
            deadline_error(),
        )
        &&& self.loss_summary.unfinished_cases == 0 ==> self.error is None
        &&& self.completeness.evidence_compatible == (self.loss_summary.not_estimable_cases == 0)
    }

    /// Open a batch over validated recorded cases.
    pub fn open(config: BatchConfig, cases: &Vec<ReplayFacts>, now_ms: u64) -> (r: ReplayBatch)
        requires
            2 * cases@.len() <= u32::MAX,
            2 * cases@.len() <= usize::MAX,
        ensures
            r.wf(),
            opens_with(config, cases@, now_ms, r),
    {
        let mut synthetic: bool = match config.evidence_origin {
            EvidenceOrigin::Synthetic => true,
            _ => false,
        };
        let ghost claimed = config.evidence_origin is Synthetic;
        let mut ids: Vec<String> = Vec::new();
        let mut stages: usize = 0;
        let mut i: usize = 0;
        while i < cases.len()
            invariant
                i <= cases@.len(),
                text::views(ids@) =~= fact_ids(cases@).take(i as int),
                2 * cases@.len() <= usize::MAX,
                claimed == (config.evidence_origin is Synthetic),
                synthetic == (claimed || exists|j: int|
                    0 <= j < i && (#[trigger] cases@[j]).evidence_origin@ == "synthetic"@),
                stages == total(cases@.take(i as int), stages_needed(config)),
                stages <= 2 * i,
            decreases cases@.len() - i,
        {
            proof {
                lemma_total_step(cases@, i as int, stages_needed(config));
            }
            if text::eq(cases[i].evidence_origin.as_str(), "synthetic") {
                synthetic = true;
            }
            let ghost before = ids@;
            ids.push(cases[i].case_id.clone());
            assert(text::views(ids@) =~= text::views(before).push(cases@[i as int].case_id@));
            stages = stages + required_stages(&cases[i], &config);
            i = i + 1;
        }
        assert(cases@.take(i as int) =~= cases@);
        assert(fact_ids(cases@).take(i as int) =~= fact_ids(cases@));
        assert(text::views(ids@).len() == ids@.len());
        let reports: Vec<BatchCaseReport> = Vec::new();
        assert(report_ids(reports@) =~= text::views(ids@).take(0));
        ReplayBatch {
            config,
            ids,
            expires_ms: now_ms.saturating_add(config.max_runtime_ms),
            synthetic,
            completeness: CompletenessReport {
                cases_requested: cases.len(),
                cases_completed: 0,
                stages_required: stages,
                stages_completed: 0,
                evidence_compatible: true,
            },
            loss_summary: BatchLossSummary::default(),
            reports,
            error: None,
        }
    }

    /// Whether to replay a case that starts at a time.
    pub fn needs_replay(&self, case: &ReplayFacts, started_ms: u64) -> (r: bool)
        ensures
            r == replays(*self, *case, started_ms),
    {
        started_ms < self.expires_ms && !(required_stages(case, &self.config) > 0
            && case.wide_gate.is_none())
    }

    /// Settle the next case. `outcome` is what its replay came to and is read only
    /// where one was needed; `checked_ms` is the time right after it.
    pub fn settle(
        &mut self,
        case: &ReplayFacts,
        started_ms: u64,
        outcome: ReplayOutcome,
        checked_ms: u64,
        finished_ms: u64,
    )
        requires
            old(self).wf(),
            old(self).reports@.len() < old(self).completeness.cases_requested,
            case.case_id@ == old(self).ids@[old(self).reports@.len() as int]@,
        ensures
            final(self).wf(),
            settles(*old(self), *final(self), *case, started_ms, outcome, checked_ms, finished_ms),
    {
        let required: usize = required_stages(case, &self.config);
        let replayed: bool = self.needs_replay(case, started_ms);
        let expiry: u64 = match self.config.per_case_timeout_ms {
            Some(ms) => {
                let due: u64 = started_ms.saturating_add(ms);
                if due < self.expires_ms {
                    due
                } else {
                    self.expires_ms
                }
            },
            None => self.expires_ms,
        };
        let ghost status_before = replay_status(*self, *case, started_ms, outcome, checked_ms);
        let ghost reports_before = self.reports@;
        let status: CaseExecutionStatus;
        if started_ms >= self.expires_ms {
            self.loss_summary.unfinished_cases = self.loss_summary.unfinished_cases + 1;
            self.error = Some(
                report_error(
                    6,
                    "deadline-expired",
                    "Evaluation batch exceeded max-runtime-ms deadline",
                    "Increase --max-runtime-ms or reduce dataset size",
                ),
            );
            status =
            CaseExecutionStatus::Unfinished { reason: "batch runtime deadline expired".to_owned() };
        } else if !replayed {
            self.loss_summary.not_estimable_cases = self.loss_summary.not_estimable_cases + 1;
            self.completeness.evidence_compatible = false;
            status =
            CaseExecutionStatus::NotEstimable {
                reason: "missing wide recorded response".to_owned(),
            };
        } else if checked_ms >= expiry {
            // Actual replay work started but missed its deadline. It cannot
            // publish a late success, and remains in the failure denominator.
            self.loss_summary.operational_failures = self.loss_summary.operational_failures + 1;
            self.loss_summary.attempted_cases = self.loss_summary.attempted_cases + 1;
            self.loss_summary.total_loss = self.loss_summary.total_loss + 2;
            status =
            CaseExecutionStatus::OperationalFailure {
                error_kind: "deadline-expired".to_owned(),
                loss: 2,
            };
        } else {
            let wide: usize = if required >= 1 && case.wide_gate.is_some() {
                1
            } else {
                0
            };
            let rerank: usize = if required >= 2 && case.has_rerank {
                1
            } else {
                0
            };
            self.completeness.stages_completed = self.completeness.stages_completed + wide + rerank;
            status =
            match outcome {
                ReplayOutcome::Recomputed { complete: true, decision: Some(decision), explanation } => {
                    self.completeness.cases_completed = self.completeness.cases_completed + 1;
                    CaseExecutionStatus::Completed { decision, recomputed: explanation, loss: None }
                },
                ReplayOutcome::Recomputed { complete: _, decision: _, explanation } => {
                    self.loss_summary.not_estimable_cases = self.loss_summary.not_estimable_cases
                        + 1;
                    self.completeness.evidence_compatible = false;
                    CaseExecutionStatus::NotEstimable {
                        reason: match explanation {
                            Some(reason) => reason,
                            None => "recorded evidence is incomplete".to_owned(),
                        },
                    }
                },
                ReplayOutcome::Failed(reason) => {
                    self.loss_summary.not_estimable_cases = self.loss_summary.not_estimable_cases
                        + 1;
                    self.completeness.evidence_compatible = false;
                    CaseExecutionStatus::NotEstimable { reason }
                },
            };
        }
        assert(status@ == status_before);
        self.reports.push(
            BatchCaseReport {
                case_id: case.case_id.clone(),
                family_id: None,
                status,
                elapsed_ms: finished_ms.saturating_sub(started_ms),
            },
        );
        assert(report_views(self.reports@) =~= report_views(reports_before).push(
            self.reports@.last()@,
        ));
        proof {
            let n = reports_before.len() as int;
            assert(report_views(self.reports@).drop_last() =~= report_views(reports_before));
            assert(text::views(self.ids@)[n] == case.case_id@);
            assert(report_ids(self.reports@) =~= report_ids(reports_before).push(case.case_id@));
            assert(text::views(self.ids@).take(n + 1) =~= text::views(self.ids@).take(n).push(
                text::views(self.ids@)[n],
            ));
        }
    }

    /// Report a settled batch. There is no mean over the failures alone:
    /// replayed cases remain unjudged, so such a denominator would not
    /// represent the requested cohort.
    pub fn finish(self) -> (r: EvaluationBatchReport)
        requires
            self.wf(),
        ensures
            replay_reported(self, r),
            !(r.gate_status is Passed),
            r.run_status is Complete ==> r.error is None && r.loss_summary.total_loss == 0,
    {
        let complete: bool = self.completeness.cases_completed == self.completeness.cases_requested
            && self.completeness.stages_completed == self.completeness.stages_required;
        EvaluationBatchReport {
            schema_version: SCHEMA_VERSION,
            kind: "report".to_owned(),
            actionable: false,
            run_status: if complete {
                RunStatus::Complete
            } else {
                RunStatus::Partial
            },
            gate_status: if self.synthetic && complete {
                GateStatus::NotApplicable
            } else {
                GateStatus::NotEstablished
            },
            evidence_origin: if self.synthetic {
                "synthetic".to_owned()
            } else {
                "recorded".to_owned()
            },
            completeness: self.completeness,
            loss_summary: self.loss_summary,
            accounting: BatchAccounting::default(),
            labeled: false,
            sample: None,
            design_weighted_loss: None,
            disclosure_preflight: None,
            review_queue: None,
            baselines: None,
            explanation: None,
            cases: self.reports,
            error: self.error,
        }
    }
}

/// Replay supplies no loss: recorded decisions are observations, not judgments,
/// so a completed case carries none.
pub proof fn lemma_replay_supplies_no_loss(
    batch: ReplayBatch,
    case: ReplayFacts,
    started_ms: u64,
    outcome: ReplayOutcome,
    checked_ms: u64,
)
    ensures
        replay_status(batch, case, started_ms, outcome, checked_ms) matches StatusView::Completed {
            loss,
            ..
        } ==> loss is None,
{
}

/// A replay that misses the deadline of its case or of its batch is never
/// completed, whatever it came to.
pub proof fn lemma_late_replay_never_completes(
    batch: ReplayBatch,
    case: ReplayFacts,
    started_ms: u64,
    outcome: ReplayOutcome,
    checked_ms: u64,
)
    requires
        started_ms >= batch.expires_ms || checked_ms >= case_expiry(
            batch.config,
            batch.expires_ms,
            started_ms,
        ),
    ensures
        !(replay_status(batch, case, started_ms, outcome, checked_ms) is Completed),
{
}

/// Every case of a settled batch is counted once, and its whole loss is that of
/// its failures.
pub proof fn lemma_each_replayed_case_counts_once(batch: ReplayBatch)
    requires
        batch.wf(),
        batch.reports@.len() == batch.completeness.cases_requested,
    ensures
        batch.completeness.cases_completed + batch.loss_summary.not_estimable_cases
            + batch.loss_summary.unfinished_cases + batch.loss_summary.operational_failures
            == batch.completeness.cases_requested,
        batch.loss_summary.total_loss == 2 * batch.loss_summary.operational_failures,
{
}

/// The reports of a settled batch are those of its cases, in the order of its
/// file. Where the identities are those that an intake took, no two reports
/// share one.
pub proof fn lemma_reports_follow_the_file(batch: ReplayBatch, intake: ReplayIntake)
    requires
        batch.wf(),
        batch.reports@.len() == batch.completeness.cases_requested,
        intake.wf(),
        text::views(batch.ids@) == text::views(intake.ids@),
    ensures
        report_ids(batch.reports@) == text::views(intake.ids@),
        report_ids(batch.reports@).no_duplicates(),
{
    let ids = text::views(intake.ids@);
    assert(text::views(batch.ids@).len() == batch.ids@.len());
    assert(ids.take(ids.len() as int) =~= ids);
    assert forall|i: int, j: int| 0 <= i < ids.len() && 0 <= j < ids.len() && i != j implies ids[i]
        != ids[j] by {
        assert(ids[i] == intake.ids@[i]@ && ids[j] == intake.ids@[j]@);
    }
}

/// Whether a case was settled by local evidence alone: its recorded decision was
/// an explicit one.
pub open spec fn recorded_explicit(case: ReplayFacts) -> bool {
    json_of(case.historical_decision).member("decision"@).text() == Some("explicit"@)
}

/// Whether a replay was done within the deadlines of its case and of its batch.
pub open spec fn replayed_in_time(batch: ReplayBatch, started_ms: u64, checked_ms: u64) -> bool {
    &&& started_ms < batch.expires_ms
    &&& checked_ms < batch.expires_ms
    &&& batch.config.per_case_timeout_ms is Some ==> checked_ms < started_ms
        + batch.config.per_case_timeout_ms->0
}

/// A replay in time is reported with what it came to: a complete one with the
/// decision that was recomputed, whatever decision was recorded, and any other
/// as not estimable, with its own reason where it has one.
pub proof fn lemma_replay_in_time_reports_its_outcome(
    before: ReplayBatch,
    after: ReplayBatch,
    case: ReplayFacts,
    started_ms: u64,
    outcome: ReplayOutcome,
    checked_ms: u64,
    finished_ms: u64,
)
    requires
        settles(before, after, case, started_ms, outcome, checked_ms, finished_ms),
        case.wide_gate is Some || recorded_explicit(case),
        replayed_in_time(before, started_ms, checked_ms),
    ensures
        after.reports@.len() == before.reports@.len() + 1,
        ({
            let report = after.reports@.last()@;
            &&& report.case_id == case.case_id@
            &&& report.elapsed_ms <= finished_ms
            &&& started_ms <= finished_ms ==> report.elapsed_ms + started_ms == finished_ms
            &&& match outcome {
                ReplayOutcome::Recomputed {
                    complete: true,
                    decision: Some(decision),
                    explanation,
                } => report.status == (StatusView::Completed {
                    decision: decision@,
                    recomputed: opt_view(explanation),
                    loss: None,
                }) && after.completeness.cases_completed == before.completeness.cases_completed + 1,
                ReplayOutcome::Recomputed { complete: _, decision: _, explanation } =>
                    report.status is NotEstimable && (explanation is Some ==> report.status
                        == StatusView::NotEstimable { reason: explanation->0@ })
                        && after.completeness.cases_completed
                        == before.completeness.cases_completed,
                ReplayOutcome::Failed(reason) => report.status == (StatusView::NotEstimable {
                    reason: reason@,
                }) && after.completeness.cases_completed == before.completeness.cases_completed,
            }
        }),
{
    lemma_report_views_last(before, after, case, started_ms, outcome, checked_ms, finished_ms);
}

proof fn lemma_report_views_last(
    before: ReplayBatch,
    after: ReplayBatch,
    case: ReplayFacts,
    started_ms: u64,
    outcome: ReplayOutcome,
    checked_ms: u64,
    finished_ms: u64,
)
    requires
        settles(before, after, case, started_ms, outcome, checked_ms, finished_ms),
    ensures
        after.reports@.len() == before.reports@.len() + 1,
        after.reports@.last()@.status == replay_status(
            before,
            case,
            started_ms,
            outcome,
            checked_ms,
        ),
        after.reports@.last()@.case_id == case.case_id@,
        after.reports@.last()@.elapsed_ms == if finished_ms >= started_ms {
            finished_ms - started_ms
        } else {
            0
        },
{
    let views = report_views(after.reports@);
    assert(report_views(before.reports@).len() == before.reports@.len());
    assert(views.len() == after.reports@.len());
    assert(views.last() == after.reports@.last()@);
}

/// The recorded decision steers nothing: two cases that differ in it alone,
/// neither of them explicit, are settled alike.
pub proof fn lemma_recorded_decision_steers_nothing(
    batch: ReplayBatch,
    a: ReplayFacts,
    b: ReplayFacts,
    started_ms: u64,
    outcome: ReplayOutcome,
    checked_ms: u64,
)
    requires
        a.gate_threshold == b.gate_threshold,
        a.wide_gate == b.wide_gate,
        a.has_rerank == b.has_rerank,
        !recorded_explicit(a),
        !recorded_explicit(b),
    ensures
        replay_status(batch, a, started_ms, outcome, checked_ms) == replay_status(
            batch,
            b,
            started_ms,
            outcome,
            checked_ms,
        ),
        stages_of(a, batch.config) == stages_of(b, batch.config),
        stages_done(a, batch.config) == stages_done(b, batch.config),
{
}

/// A case that could not be replayed in time, or at all, is reported as such: as
/// unfinished behind the deadline of the batch, as not estimable without the
/// wide response it needs, and as a failure at the full loss where its replay
/// came late. None of them is a completed case.
pub proof fn lemma_replay_out_of_time_or_evidence(
    before: ReplayBatch,
    after: ReplayBatch,
    case: ReplayFacts,
    started_ms: u64,
    outcome: ReplayOutcome,
    checked_ms: u64,
    finished_ms: u64,
)
    requires
        settles(before, after, case, started_ms, outcome, checked_ms, finished_ms),
    ensures
        ({
            let status = after.reports@.last()@.status;
            let unanswered = case.wide_gate is None && !recorded_explicit(case);
            &&& started_ms >= before.expires_ms ==> status is Unfinished
                && after.loss_summary.unfinished_cases == before.loss_summary.unfinished_cases + 1
            &&& started_ms < before.expires_ms && unanswered ==> status is NotEstimable
                && after.loss_summary.not_estimable_cases
                == before.loss_summary.not_estimable_cases + 1
            &&& started_ms < before.expires_ms && !unanswered && !replayed_in_time(
                before,
                started_ms,
                checked_ms,
            ) ==> status is OperationalFailure && status->OperationalFailure_loss == 2
                && after.loss_summary.operational_failures
                == before.loss_summary.operational_failures + 1
            &&& !replayed_in_time(before, started_ms, checked_ms) || unanswered
                ==> after.completeness.cases_completed == before.completeness.cases_completed
        }),
{
    lemma_report_views_last(before, after, case, started_ms, outcome, checked_ms, finished_ms);
}

/// How many stages a case needs: none where its recorded decision was explicit,
/// one where its recorded gate lies below the threshold of every policy it is
/// replayed under, else two. A policy without a threshold has that of the case.
pub proof fn lemma_stages_needed(case: ReplayFacts, config: BatchConfig)
    ensures
        ({
            let own = if config.policy is Some && config.policy->0.gate_threshold is Some {
                config.policy->0.gate_threshold->0
            } else {
                case.gate_threshold
            };
            let other = if config.compare_policy is None {
                own
            } else if config.compare_policy->0.gate_threshold is Some {
                config.compare_policy->0.gate_threshold->0
            } else {
                case.gate_threshold
            };
            let stopped = case.wide_gate is Some && case.wide_gate->0.below_spec(own)
                && case.wide_gate->0.below_spec(other);
            &&& stages_of(case, config) == 0 <==> recorded_explicit(case)
            &&& stages_of(case, config) == 1 <==> !recorded_explicit(case) && stopped
            &&& stages_of(case, config) == 2 <==> !recorded_explicit(case) && !stopped
        }),
{
}

/// A case completed as many of the stages it needs as were recorded for it, the
/// wide one before the rerank.
pub proof fn lemma_stages_completed(case: ReplayFacts, config: BatchConfig)
    ensures
        stages_done(case, config) <= stages_of(case, config),
        stages_of(case, config) == 1 ==> stages_done(case, config) == 1,
        stages_of(case, config) == 2 && case.wide_gate is Some && case.has_rerank ==> stages_done(
            case,
            config,
        ) == 2,
        stages_of(case, config) == 2 && (case.wide_gate is None || !case.has_rerank)
            ==> stages_done(case, config) < 2,
        case.wide_gate is None && !case.has_rerank ==> stages_done(case, config) == 0,
{
}

/// A batch configuration is accepted exactly where its time is within a day, no
/// deadline is zero, it claims no live evidence, and a live one has consent and
/// a request cap. A replay further runs offline.
pub proof fn lemma_accepted_configurations(config: BatchConfig)
    ensures
        config_refusal(config) is None <==> {
            &&& 0 < config.max_runtime_ms <= 86_400_000
            &&& config.per_case_timeout_ms is Some ==> config.per_case_timeout_ms->0 > 0
            &&& !(config.evidence_origin is Live)
            &&& config.online ==> config.allow_network && config.max_requests is Some
                && config.max_requests->0 > 0
        },
        replay_refusal(config) is None <==> config_refusal(config) is None && !config.online,
        config.online && !config.allow_network ==> config_refusal(config) == Some(
            "online live evaluation requires --allow-network or trusted network consent"@,
        ),
{
}

/// The report of a replay batch is complete exactly where every requested case
/// was completed with every stage it needs. It never passes a gate, weighs no
/// loss and claims recorded evidence only where none of it is synthetic.
pub proof fn lemma_replay_report_claims_no_more(batch: ReplayBatch, r: EvaluationBatchReport)
    requires
        batch.wf(),
        replay_reported(batch, r),
    ensures
        r.run_status is Complete ==> r.cases@.len() == r.completeness.cases_requested && forall|
            i: int,
        |
            0 <= i < r.cases@.len() ==> (#[trigger] r.cases@[i])@.status is Completed,
        r.run_status is Complete ==> r.completeness.stages_completed
            == r.completeness.stages_required,
        r.run_status is Partial ==> r.completeness.cases_completed < r.completeness.cases_requested
            || r.completeness.stages_completed != r.completeness.stages_required,
        r.gate_status is NotApplicable || r.gate_status is NotEstablished,
        r.gate_status is NotApplicable ==> r.evidence_origin@ == "synthetic"@,
        r.evidence_origin@ == "recorded"@ ==> !batch.synthetic,
        !r.actionable && !r.labeled && r.mean_quotient() is None,
        r.accounting.http_attempts == 0 && r.accounting.requests == 0,
{
    let views = report_views(batch.reports@);
    reveal_strlit("recorded");
    reveal_strlit("synthetic");
    if batch.synthetic {
        assert("recorded"@.len() != "synthetic"@.len());
    }
    assert(views.len() == batch.reports@.len());
    lemma_tally_bound(views, report_completed());
    if r.run_status is Complete {
        assert(batch.completeness.cases_completed <= views.len());
        lemma_tally_full(views, report_completed());
        assert forall|i: int| 0 <= i < r.cases@.len() implies (
        #[trigger] r.cases@[i])@.status is Completed by {
            assert(report_completed()(views[i]));
        }
    }
}

/// Every origin of evidence goes by a name of its own.
pub proof fn lemma_origins_go_by_their_names(a: EvidenceOrigin, b: EvidenceOrigin)
    ensures
        EvidenceOrigin::Synthetic.name() == "synthetic"@,
        EvidenceOrigin::Recorded.name() == "recorded"@,
        EvidenceOrigin::Live.name() == "live"@,
        a.name() == b.name() ==> a == b,
{
    reveal_strlit("synthetic");
    reveal_strlit("recorded");
    reveal_strlit("live");
    assert("synthetic"@.len() == 9 && "recorded"@.len() == 8 && "live"@.len() == 4);
}

/// A blank line is passed over, however full the dataset. Any other line is read
/// without its blanks while there is room, and refused with the number it would have
/// been where there is none.
pub proof fn lemma_lines_are_read_while_there_is_room(
    ascii_only: bool,
    held: nat,
    max: usize,
    line: Seq<char>,
    r: Result<Option<String>, EvaluationError>,
)
    requires
        line_offered(ascii_only, held, max, line, r),
        held < usize::MAX,
    ensures
        ({
            let body = text::trimmed(ascii_only, line);
            &&& r is Err <==> body.len() > 0 && held >= max
            &&& r is Err ==> r->Err_0 is RecordLimitReached && r->Err_0->count == held + 1
                && r->Err_0->max == max
            &&& r is Ok ==> (r->Ok_0 is Some <==> body.len() > 0)
            &&& r is Ok && r->Ok_0 is Some ==> r->Ok_0->0@ == body
        }),
{
}

/// A case is taken exactly where it has an identity and no case before it has the same
/// one. It is then the last; one that is refused changes nothing.
pub proof fn lemma_replay_cases_have_their_own_identity(
    before: Seq<String>,
    id: Seq<char>,
    after: Seq<String>,
    r: Result<(), EvaluationError>,
)
    requires
        id_offered(before, id, after, r),
    ensures
        r is Ok <==> text::trimmed(false, id).len() > 0 && forall|i: int|
            0 <= i < before.len() ==> (#[trigger] before[i])@ != id,
        r is Ok ==> after.len() == before.len() + 1 && after.last()@ == id,
        r is Err ==> after == before && r->Err_0 is CardinalityViolation,
{
    if r is Ok {
        assert(text::views(after).len() == after.len());
        assert(text::views(before).len() == before.len());
        assert(text::views(after).last() == after.last()@);
    }
}

/// A live case is taken exactly where it is of the version that is read, its key is
/// whole and no case before it has the same one.
pub proof fn lemma_live_cases_have_their_own_key(
    before: LiveIntake,
    schema_version: u64,
    key: CaseKey,
    null_key: bool,
    after: LiveIntake,
    r: Result<(), EvaluationError>,
)
    requires
        before.key_offered(schema_version, key, null_key, after, r),
    ensures
        r is Ok <==> schema_version == 1 && !null_key && forall|i: int|
            0 <= i < before.keys@.len() ==> (#[trigger] before.keys@[i])@ != key@,
        r is Ok ==> after.keys@.len() == before.keys@.len() + 1 && after.keys@.last() == key,
        r is Err ==> after.keys@ == before.keys@,
        schema_version != 1 ==> r is Err && r->Err_0 == EvaluationError::UnsupportedVersion(
            schema_version,
        ),
        schema_version == 1 && r is Err ==> r->Err_0 is CardinalityViolation,
{
}

/// A batch that was opened has all of its runtime before it and nothing behind it. It is
/// synthetic where it is configured so, or where any of its cases is.
pub proof fn lemma_opened_replays_have_done_nothing(
    config: BatchConfig,
    cases: Seq<ReplayFacts>,
    now_ms: u64,
    batch: ReplayBatch,
)
    requires
        opens_with(config, cases, now_ms, batch),
        cases.len() <= usize::MAX,
    ensures
        now_ms + config.max_runtime_ms <= u64::MAX ==> batch.expires_ms - now_ms
            == config.max_runtime_ms,
        batch.expires_ms >= now_ms,
        batch.completeness.cases_requested == cases.len(),
        batch.completeness.cases_completed == 0 && batch.completeness.stages_completed == 0,
        batch.completeness.evidence_compatible,
        batch.loss_summary.attempted_cases == 0 && batch.loss_summary.total_loss == 0,
        batch.reports@.len() == 0 && batch.error is None,
        batch.ids@.len() == cases.len(),
        forall|i: int| 0 <= i < cases.len() ==> (#[trigger] batch.ids@[i])@ == cases[i].case_id@,
        batch.synthetic <==> config.evidence_origin is Synthetic || exists|i: int|
            0 <= i < cases.len() && (#[trigger] cases[i]).evidence_origin@ == "synthetic"@,
{
    assert(text::views(batch.ids@).len() == batch.ids@.len());
    assert forall|i: int| 0 <= i < cases.len() implies (#[trigger] batch.ids@[i])@
        == cases[i].case_id@ by {
        assert(text::views(batch.ids@)[i] == fact_ids(cases)[i]);
    }
}

} // verus!
