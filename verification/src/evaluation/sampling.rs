//! Selecting the cases of a labeled frame before any label is consulted.

use crate::evaluation::explain::{DesignLoss, SampleSummary};
use crate::evaluation::frame::{sample_reported, DesignStatus, EvaluationBatchReport};
use crate::evaluation::labels::{
    CaseKey, CaseKeyView, EvaluationCaseRecord, EvaluationSplit, JudgedLabel,
};
use crate::evaluation::report::{EvaluationError, EvaluationErrorView};
use crate::tally::lemma_filter_step;
use vstd::prelude::*;
use vstd::string::*;

verus! {

/// A requested stratified sample of a labeled frame's task families.
#[derive(Clone, Copy, Debug, PartialEq, Eq, Structural)]
pub struct FrameSampling {
    /// Families to select, capped by the frame's family count.
    pub sample_size: usize,
    /// `None` draws a fresh recorded seed from OS randomness. A supplied seed
    /// reproduces a selection for diagnosis; it is not probability-sampling evidence.
    pub seed: Option<u64>,
}

/// Whether every record of a frame has one split and one policy.
pub open spec fn one_scope(
    records: Seq<EvaluationCaseRecord>,
    split: EvaluationSplit,
    policy: Seq<char>,
) -> bool {
    forall|i: int|
        0 <= i < records.len() ==> (#[trigger] records[i]).split == split
            && records[i].key.policy_id@ == policy
}

/// Why a frame cannot be sampled.
pub open spec fn sampling_refusal(
    records: Seq<EvaluationCaseRecord>,
    request: FrameSampling,
) -> Option<Seq<char>> {
    if request.sample_size == 0 {
        Some("sample size must be positive"@)
    } else if records.len() == 0 || !one_scope(
        records,
        records[0].split,
        records[0].key.policy_id@,
    ) {
        Some("sampling needs a non-empty frame with exactly one split and one policy"@)
    } else {
        None
    }
}

/// The one split and the one policy of a frame that may be sampled.
pub fn frame_scope(records: &Vec<EvaluationCaseRecord>, request: FrameSampling) -> (r: Result<
    (EvaluationSplit, String),
    EvaluationError,
>)
    ensures
        r is Ok <==> sampling_refusal(records@, request) is None,
        r is Ok ==> one_scope(records@, r->Ok_0.0, r->Ok_0.1@) && records@.len() > 0,
        r is Err ==> r->Err_0@ == EvaluationErrorView::SamplingFailure(
            sampling_refusal(records@, request)->0,
        ),
{
    if request.sample_size == 0 {
        return Err(EvaluationError::SamplingFailure("sample size must be positive".to_owned()));
    }
    let mut i: usize = 0;
    while i < records.len()
        invariant
            i <= records@.len(),
            request.sample_size > 0,
            forall|j: int|
                0 <= j < i ==> (#[trigger] records@[j]).split == records@[0].split
                    && records@[j].key.policy_id@ == records@[0].key.policy_id@,
        decreases records@.len() - i,
    {
        if records[i].split != records[0].split || records[i].key.policy_id
            != records[0].key.policy_id {
            return Err(
                EvaluationError::SamplingFailure(
                    "sampling needs a non-empty frame with exactly one split and one policy".to_owned(),
                ),
            );
        }
        i = i + 1;
    }
    if records.len() == 0 {
        return Err(
            EvaluationError::SamplingFailure(
                "sampling needs a non-empty frame with exactly one split and one policy".to_owned(),
            ),
        );
    }
    Ok((records[0].split, records[0].key.policy_id.clone()))
}

/// Where the randomness of a selection comes from.
#[derive(Clone, Copy, Debug, PartialEq, Eq, Structural)]
pub enum SeedSource {
    /// A supplied seed.
    Supplied(u64),
    /// Every family is selected: nothing is drawn, so no seed is read or
    /// recorded as if it had selected anything.
    Census,
    /// A fresh seed of the operating system.
    OsRandom,
}

/// Where the randomness of a selection among some families comes from.
pub open spec fn seed_source_of(request: FrameSampling, families: nat) -> SeedSource {
    match request.seed {
        Some(seed) => SeedSource::Supplied(seed),
        None => if request.sample_size >= families {
            SeedSource::Census
        } else {
            SeedSource::OsRandom
        },
    }
}

/// Where the randomness of a selection among some families comes from.
pub fn seed_source(request: FrameSampling, families: usize) -> (r: SeedSource)
    ensures
        r == seed_source_of(request, families as nat),
{
    match request.seed {
        Some(seed) => SeedSource::Supplied(seed),
        None => if request.sample_size >= families {
            SeedSource::Census
        } else {
            SeedSource::OsRandom
        },
    }
}

/// All that a draw is told besides the representatives it draws from. No
/// judgment and no outcome is among it.
#[derive(Clone, Debug, PartialEq, Eq)]
pub struct DrawPlan {
    pub split: EvaluationSplit,
    pub policy_id: String,
    pub sample_size: usize,
    pub source: SeedSource,
}

/// What a draw is told.
#[verifier::ext_equal]
pub struct DrawPlanView {
    pub split: EvaluationSplit,
    pub policy_id: Seq<char>,
    pub sample_size: usize,
    pub source: SeedSource,
}

impl View for DrawPlan {
    type V = DrawPlanView;

    open spec fn view(&self) -> DrawPlanView {
        DrawPlanView {
            split: self.split,
            policy_id: self.policy_id@,
            sample_size: self.sample_size,
            source: self.source,
        }
    }
}

/// What a draw among some families of a frame is told.
pub open spec fn draw_plan_of(
    split: EvaluationSplit,
    policy_id: Seq<char>,
    request: FrameSampling,
    families: nat,
) -> DrawPlanView {
    DrawPlanView {
        split,
        policy_id,
        sample_size: request.sample_size,
        source: seed_source_of(request, families),
    }
}

/// What a draw among some families of a frame is told.
pub fn plan_draw(
    split: EvaluationSplit,
    policy_id: String,
    request: FrameSampling,
    families: usize,
) -> (r: DrawPlan)
    ensures
        r@ == draw_plan_of(split, policy_id@, request, families as nat),
{
    DrawPlan {
        split,
        policy_id,
        sample_size: request.sample_size,
        source: seed_source(request, families),
    }
}

/// Whether a list of keys names a case.
pub open spec fn names_key(keys: Seq<CaseKey>, key: CaseKeyView) -> bool {
    exists|i: int| 0 <= i < keys.len() && (#[trigger] keys[i])@ == key
}

/// The records that a list of keys names.
pub open spec fn named_by(keys: Seq<CaseKey>) -> spec_fn(EvaluationCaseRecord) -> bool {
    |record: EvaluationCaseRecord| names_key(keys, record.key@)
}

fn is_named(keys: &Vec<CaseKey>, key: &CaseKey) -> (r: bool)
    ensures
        r == names_key(keys@, key@),
{
    let mut i: usize = 0;
    while i < keys.len()
        invariant
            i <= keys@.len(),
            forall|j: int| 0 <= j < i ==> (#[trigger] keys@[j])@ != key@,
        decreases keys@.len() - i,
    {
        if keys[i].same(key) {
            return true;
        }
        i = i + 1;
    }
    false
}

/// The representatives that a frozen manifest selected, in their own order.
pub fn sampled(representatives: Vec<EvaluationCaseRecord>, selected: &Vec<CaseKey>) -> (r: Vec<
    EvaluationCaseRecord,
>)
    ensures
        r@ == representatives@.filter(named_by(selected@)),
{
    let ghost all = representatives@;
    let ghost p = named_by(selected@);
    let mut kept: Vec<EvaluationCaseRecord> = Vec::new();
    proof {
        reveal(Seq::filter);
        assert(all.take(0) =~= Seq::<EvaluationCaseRecord>::empty());
    }
    for record in it: representatives.into_iter()
        invariant
            it.seq() == all,
            p == named_by(selected@),
            kept@ =~= all.take(it.index() as int).filter(p),
    {
        proof {
            lemma_filter_step(all, it.index() as int, p);
        }
        if is_named(selected, &record.key) {
            kept.push(record);
        }
    }
    assert(all.take(all.len() as int) =~= all);
    kept
}

/// A sampled evaluation: what it was given, what was drawn and what that
/// supports, its design-weighted loss where one was computed, the cases that were evaluated, and its report.
pub struct SampledEvaluation {
    pub records: Seq<EvaluationCaseRecord>,
    pub labels: Seq<JudgedLabel>,
    pub request: FrameSampling,
    pub representatives: Seq<EvaluationCaseRecord>,
    pub selected: Seq<CaseKey>,
    pub summary: SampleSummary,
    pub design: Option<DesignLoss>,
    pub evaluated: Seq<EvaluationCaseRecord>,
    pub report: EvaluationBatchReport,
}

impl SampledEvaluation {
    /// What the draw was told.
    pub open spec fn plan(self) -> DrawPlanView {
        draw_plan_of(
            self.records[0].split,
            self.records[0].key.policy_id@,
            self.request,
            self.representatives.len(),
        )
    }

    /// Whether an evaluation was made of a frame by some choice of
    /// representatives and some draw, each by what it is told alone.
    pub open spec fn made_by(
        self,
        represent: spec_fn(Seq<EvaluationCaseRecord>, EvaluationSplit) -> Seq<EvaluationCaseRecord>,
        draw: spec_fn(Seq<EvaluationCaseRecord>, DrawPlanView) -> (Seq<CaseKey>, DesignStatus),
    ) -> bool {
        &&& sampling_refusal(self.records, self.request) is None
        &&& self.representatives == represent(self.records, self.records[0].split)
        &&& (self.selected, self.summary.design_status) == draw(
            self.representatives,
            self.plan(),
        )
        &&& self.evaluated == self.representatives.filter(named_by(self.selected))
        &&& sample_reported(self.report, Some(self.summary), self.design)
    }
}

/// Whether a draw marks what a supplied seed selects from a larger frame as
/// diagnostic.
pub open spec fn marks_diagnostic(
    draw: spec_fn(Seq<EvaluationCaseRecord>, DrawPlanView) -> (Seq<CaseKey>, DesignStatus),
) -> bool {
    forall|list: Seq<EvaluationCaseRecord>, plan: DrawPlanView|
        plan.source is Supplied && plan.sample_size < list.len() ==> (#[trigger] draw(
            list,
            plan,
        )).1 is DiagnosticFixed
}

/// Labels cannot steer a seeded selection, and the seed reproduces it: two
/// evaluations of one frame under one supplied seed select and evaluate the
/// same cases, whatever their labels, and draw on that seed alone. Where the
/// draw marks such a selection as diagnostic, neither report weights its loss.
pub proof fn lemma_labels_cannot_steer_a_seeded_selection(
    a: SampledEvaluation,
    b: SampledEvaluation,
    seed: u64,
    represent: spec_fn(Seq<EvaluationCaseRecord>, EvaluationSplit) -> Seq<EvaluationCaseRecord>,
    draw: spec_fn(Seq<EvaluationCaseRecord>, DrawPlanView) -> (Seq<CaseKey>, DesignStatus),
)
    requires
        a.made_by(represent, draw),
        b.made_by(represent, draw),
        a.records == b.records,
        a.request == b.request,
        a.request.seed == Some(seed),
    ensures
        a.selected == b.selected,
        a.evaluated == b.evaluated,
        a.summary.design_status == b.summary.design_status,
        a.plan().source == SeedSource::Supplied(seed),
        b.plan().source == SeedSource::Supplied(seed),
        marks_diagnostic(draw) && a.request.sample_size < a.representatives.len() ==> {
            &&& a.summary.design_status is DiagnosticFixed
            &&& a.report.design_weighted_loss is None
            &&& b.report.design_weighted_loss is None
        },
{
    if marks_diagnostic(draw) && a.request.sample_size < a.representatives.len() {
        assert(draw(a.representatives, a.plan()).1 is DiagnosticFixed);
    }
}

/// A sample is drawn by the seed that was given; without one it is the whole
/// frame where the frame is no larger than the sample, and else left to chance.
/// The plan keeps the size that was asked for.
pub proof fn lemma_seed_source(
    split: EvaluationSplit,
    policy_id: Seq<char>,
    request: FrameSampling,
    families: nat,
)
    ensures
        ({
            let plan = draw_plan_of(split, policy_id, request, families);
            &&& plan.split == split && plan.policy_id == policy_id
            &&& plan.sample_size == request.sample_size
            &&& request.seed is Some ==> plan.source == SeedSource::Supplied(request.seed->0)
            &&& plan.source is Supplied ==> request.seed is Some
            &&& plan.source is Census <==> request.seed is None && families <= request.sample_size
            &&& plan.source is OsRandom <==> request.seed is None && families
                > request.sample_size
        }),
{
}

/// A frame can be sampled exactly where a case is asked for, there is one, and all
/// are of one split and one policy.
pub proof fn lemma_frames_that_can_be_sampled(
    records: Seq<EvaluationCaseRecord>,
    request: FrameSampling,
)
    ensures
        sampling_refusal(records, request) is None <==> {
            &&& request.sample_size > 0
            &&& records.len() > 0
            &&& forall|i: int, j: int|
                0 <= i < records.len() && 0 <= j < records.len() ==> (#[trigger] records[i]).split
                    == (#[trigger] records[j]).split && records[i].key.policy_id@
                    == records[j].key.policy_id@
        },
{
    if records.len() > 0 {
        let first = records[0];
        assert(records[0] == first);
    }
}

/// The sampled cases are the representatives that were selected, in their order.
pub proof fn lemma_sampled_are_the_selected(
    representatives: Seq<EvaluationCaseRecord>,
    selected: Seq<CaseKey>,
    record: EvaluationCaseRecord,
)
    requires
        representatives.contains(record),
    ensures
        representatives.filter(named_by(selected)).contains(record) <==> exists|i: int|
            0 <= i < selected.len() && (#[trigger] selected[i])@ == record.key@,
{
    broadcast use vstd::seq_lib::group_filter_ensures;

    if names_key(selected, record.key@) {
        assert(named_by(selected)(record));
    }
}

} // verus!
