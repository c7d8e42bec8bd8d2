//! The parts an evaluation report is made of.

use crate::evaluation::labels::{CaseKey, CaseKeyView};
use vstd::prelude::*;

verus! {

/// The version of every report and dataset record.
pub const SCHEMA_VERSION: u64 = 1;

/// Why an evaluation was refused.
#[derive(Clone, Debug, PartialEq, Eq)]
pub enum EvaluationError {
    InvalidField(String),
    RecordLimitReached { count: usize, max: usize },
    CardinalityViolation(String),
    UnsupportedVersion(u64),
    SamplingFailure(String),
}

/// What an evaluation error says.
pub enum EvaluationErrorView {
    InvalidField(Seq<char>),
    RecordLimitReached { count: usize, max: usize },
    CardinalityViolation(Seq<char>),
    UnsupportedVersion(u64),
    SamplingFailure(Seq<char>),
}

impl View for EvaluationError {
    type V = EvaluationErrorView;

    open spec fn view(&self) -> EvaluationErrorView {
        match self {
            EvaluationError::InvalidField(m) => EvaluationErrorView::InvalidField(m@),
            EvaluationError::RecordLimitReached { count, max } => EvaluationErrorView::RecordLimitReached {
                count: *count,
                max: *max,
            },
            EvaluationError::CardinalityViolation(m) => EvaluationErrorView::CardinalityViolation(
                m@,
            ),
            EvaluationError::UnsupportedVersion(v) => EvaluationErrorView::UnsupportedVersion(*v),
            EvaluationError::SamplingFailure(m) => EvaluationErrorView::SamplingFailure(m@),
        }
    }
}

/// Whether everything requested was done.
#[derive(Clone, Copy, Debug, PartialEq, Eq, Structural)]
pub enum RunStatus {
    Complete,
    Partial,
}

/// What a report says of its quality gate.
#[derive(Clone, Copy, Debug, PartialEq, Eq, Structural)]
pub enum GateStatus {
    Passed,
    Failed,
    NotApplicable,
    NotEstablished,
}

/// Execution status and outcome of one case in the batch. A loss in this report
/// is in the units 0, 1 and 2; its normalized value is half of it.
#[derive(Clone, Debug, PartialEq, Eq)]
pub enum CaseExecutionStatus {
    /// Case successfully evaluated to completion.
    Completed { decision: String, recomputed: Option<String>, loss: Option<u32> },
    /// A required recorded stage was missing, making the case not estimable.
    NotEstimable { reason: String },
    /// Case suffered an operational failure.
    OperationalFailure { error_kind: String, loss: u32 },
    /// Case was not started because the batch deadline or request cap was exhausted.
    Unfinished { reason: String },
}

/// What a status says.
#[verifier::ext_equal]
pub enum StatusView {
    Completed { decision: Seq<char>, recomputed: Option<Seq<char>>, loss: Option<u32> },
    NotEstimable { reason: Seq<char> },
    OperationalFailure { error_kind: Seq<char>, loss: u32 },
    Unfinished { reason: Seq<char> },
}

/// The characters of an optional text.
pub open spec fn opt_view(s: Option<String>) -> Option<Seq<char>> {
    match s {
        Some(t) => Some(t@),
        None => None,
    }
}

impl View for CaseExecutionStatus {
    type V = StatusView;

    open spec fn view(&self) -> StatusView {
        match self {
            CaseExecutionStatus::Completed { decision, recomputed, loss } => StatusView::Completed {
                decision: decision@,
                recomputed: opt_view(*recomputed),
                loss: *loss,
            },
            CaseExecutionStatus::NotEstimable { reason } => StatusView::NotEstimable {
                reason: reason@,
            },
            CaseExecutionStatus::OperationalFailure { error_kind, loss } =>
                StatusView::OperationalFailure { error_kind: error_kind@, loss: *loss },
            CaseExecutionStatus::Unfinished { reason } => StatusView::Unfinished { reason: reason@ },
        }
    }
}

/// Detailed execution report for a single case in the batch.
#[derive(Clone, Debug, PartialEq, Eq)]
pub struct BatchCaseReport {
    pub case_id: String,
    pub family_id: Option<String>,
    pub status: CaseExecutionStatus,
    pub elapsed_ms: u64,
}

/// What a case report says.
#[verifier::ext_equal]
pub struct CaseReportView {
    pub case_id: Seq<char>,
    pub family_id: Option<Seq<char>>,
    pub status: StatusView,
    pub elapsed_ms: u64,
}

impl View for BatchCaseReport {
    type V = CaseReportView;

    open spec fn view(&self) -> CaseReportView {
        CaseReportView {
            case_id: self.case_id@,
            family_id: opt_view(self.family_id),
            status: self.status@,
            elapsed_ms: self.elapsed_ms,
        }
    }
}

/// What each case report of a list says.
pub open spec fn report_views(cases: Seq<BatchCaseReport>) -> Seq<CaseReportView> {
    Seq::new(cases.len(), |i: int| cases[i]@)
}

/// Why a selected case was never ranked. It says nothing of a loss.
#[derive(Clone, Debug, PartialEq, Eq)]
pub enum SkipStatus {
    /// The case cannot be estimated.
    NotEstimable { reason: String },
    /// The batch ended before the case was started.
    Unfinished { reason: String },
}

impl View for SkipStatus {
    type V = StatusView;

    open spec fn view(&self) -> StatusView {
        match self {
            SkipStatus::NotEstimable { reason } => StatusView::NotEstimable { reason: reason@ },
            SkipStatus::Unfinished { reason } => StatusView::Unfinished { reason: reason@ },
        }
    }
}

impl SkipStatus {
    /// The execution status that a case is reported with.
    pub fn reported(self) -> (r: CaseExecutionStatus)
        ensures
            r@ == self@,
    {
        match self {
            SkipStatus::NotEstimable { reason } => CaseExecutionStatus::NotEstimable { reason },
            SkipStatus::Unfinished { reason } => CaseExecutionStatus::Unfinished { reason },
        }
    }
}

/// A selected case that was never ranked, with why.
#[derive(Clone, Debug, PartialEq, Eq)]
pub struct SkippedCase {
    pub key: CaseKey,
    pub status: SkipStatus,
}

/// What a skipped case says.
#[verifier::ext_equal]
pub struct SkippedView {
    pub key: CaseKeyView,
    pub status: StatusView,
}

impl View for SkippedCase {
    type V = SkippedView;

    open spec fn view(&self) -> SkippedView {
        SkippedView { key: self.key@, status: self.status@ }
    }
}

/// What each skipped case of a list says.
pub open spec fn skipped_views(cases: Seq<SkippedCase>) -> Seq<SkippedView> {
    Seq::new(cases.len(), |i: int| cases[i]@)
}

/// Verification completeness counts.
#[derive(Clone, Copy, Debug, PartialEq, Eq, Structural)]
pub struct CompletenessReport {
    pub cases_requested: usize,
    pub cases_completed: usize,
    pub stages_required: usize,
    pub stages_completed: usize,
    pub evidence_compatible: bool,
}

/// Accounting totals for HTTP attempts and token usage across the batch.
#[derive(Clone, Copy, Debug, PartialEq, Eq, Structural)]
pub struct BatchAccounting {
    pub requests: usize,
    pub http_attempts: usize,
    pub unknown_usage_attempts: usize,
    pub input_tokens: u64,
    pub output_tokens: u64,
}

impl BatchAccounting {
    pub open spec fn zero() -> BatchAccounting {
        BatchAccounting {
            requests: 0,
            http_attempts: 0,
            unknown_usage_attempts: 0,
            input_tokens: 0,
            output_tokens: 0,
        }
    }
}

impl Default for BatchAccounting {
    fn default() -> (r: BatchAccounting)
        ensures
            r == BatchAccounting::zero(),
    {
        BatchAccounting {
            requests: 0,
            http_attempts: 0,
            unknown_usage_attempts: 0,
            input_tokens: 0,
            output_tokens: 0,
        }
    }
}

/// Loss counts of a batch. The mean loss is the total over the attempted
/// cases, and exists where there are any.
#[derive(Clone, Copy, Debug, PartialEq, Eq, Structural)]
pub struct BatchLossSummary {
    pub attempted_cases: usize,
    pub total_loss: u32,
    pub not_estimable_cases: usize,
    pub unfinished_cases: usize,
    pub operational_failures: usize,
}

impl BatchLossSummary {
    pub open spec fn zero() -> BatchLossSummary {
        BatchLossSummary {
            attempted_cases: 0,
            total_loss: 0,
            not_estimable_cases: 0,
            unfinished_cases: 0,
            operational_failures: 0,
        }
    }
}

impl Default for BatchLossSummary {
    fn default() -> (r: BatchLossSummary)
        ensures
            r == BatchLossSummary::zero(),
    {
        BatchLossSummary {
            attempted_cases: 0,
            total_loss: 0,
            not_estimable_cases: 0,
            unfinished_cases: 0,
            operational_failures: 0,
        }
    }
}

/// Structured error envelope for partial or aborted batches.
#[derive(Clone, Debug, PartialEq, Eq)]
pub struct ReportError {
    pub code: u8,
    pub kind: String,
    pub message: String,
    pub hint: String,
    pub retryable: bool,
}

/// What a report error says.
#[verifier::ext_equal]
pub struct ReportErrorView {
    pub code: u8,
    pub kind: Seq<char>,
    pub message: Seq<char>,
    pub hint: Seq<char>,
    pub retryable: bool,
}

impl View for ReportError {
    type V = ReportErrorView;

    open spec fn view(&self) -> ReportErrorView {
        ReportErrorView {
            code: self.code,
            kind: self.kind@,
            message: self.message@,
            hint: self.hint@,
            retryable: self.retryable,
        }
    }
}

/// The view of an optional report error.
pub open spec fn opt_error_view(e: Option<ReportError>) -> Option<ReportErrorView> {
    match e {
        Some(error) => Some(error@),
        None => None,
    }
}

pub fn report_error(code: u8, kind: &str, message: &str, hint: &str) -> (r: ReportError)
    ensures
        r@ == (ReportErrorView {
            code,
            kind: kind@,
            message: message@,
            hint: hint@,
            retryable: false,
        }),
{
    ReportError {
        code,
        kind: kind.to_owned(),
        message: message.to_owned(),
        hint: hint.to_owned(),
        retryable: false,
    }
}

} // verus!
