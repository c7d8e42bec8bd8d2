//! Diagnostic review queues.
//!
//! A review queue picks cases worth a closer look: gate decisions near the
//! threshold, stages that disagree, overflow retrieval misses, sparse strata
//! and cases whose judgment is still unresolved. Selection depends on outcomes,
//! so a queue is never a sample. Its entries carry no inclusion probability,
//! keep their original split, and never enter a representative denominator or
//! change live advice.

use crate::evaluation::labels::{
    accepts_some, any_acceptable, positive_case, CaseKey, CaseKeyView, EvaluationSplit,
    JudgedLabel, RerankCandidate, StageEvidence,
};
use crate::evaluation::policies::{
    competes, find_leader, leader, leads, lemma_leader_unique, stands_above, RankBy,
};
use crate::score::Score;
use crate::text;
use crate::text::{lemma_precedes_total, text_precedes};
use vstd::prelude::*;
use vstd::string::*;

verus! {

/// Thresholds that decide what enters the queue, fixed before looking.
#[derive(Clone, Copy, Debug, PartialEq, Eq, Structural)]
pub struct ReviewPolicy {
    /// The production gate threshold.
    pub gate: Score,
    /// A gate mean within this distance of `gate` is near-threshold.
    pub near_gate_margin: Score,
    /// A stratum with fewer cases than this is sparse.
    pub sparse_below: usize,
}

impl Default for ReviewPolicy {
    /// A gate of 0.30, a margin of 0.05 and three cases.
    fn default() -> (r: ReviewPolicy)
        ensures
            r.gate.bits == 0x3fd3_3333_3333_3333,
            r.near_gate_margin.bits == 0x3fa9_9999_9999_999a,
            r.sparse_below == 3,
    {
        ReviewPolicy {
            gate: Score { bits: 0x3fd3_3333_3333_3333 },
            near_gate_margin: Score { bits: 0x3fa9_9999_9999_999a },
            sparse_below: 3,
        }
    }
}

/// One evaluated case as the queue sees it.
#[derive(Clone, Copy, Debug)]
pub struct ReviewInput<'a> {
    pub key: &'a CaseKey,
    pub split: EvaluationSplit,
    /// The observable stratum the case belongs to, when one was assigned.
    pub stratum: Option<&'a str>,
    pub evidence: Option<&'a StageEvidence>,
    /// How far the wide gate mean is from the policy's gate, without sign.
    pub gate_distance: Option<Score>,
    /// `None` while no independent judgment is resolved for the case.
    pub judgment: Option<&'a JudgedLabel>,
}

/// Why a case entered the queue.
#[derive(Clone, Debug, PartialEq, Eq)]
pub enum ReviewReason {
    /// The wide gate mean fell within the policy margin of the threshold.
    NearGate { needs_skill: Score, gate: Score },
    /// The wide stage's top candidate differs from the rerank's.
    StageDisagreement { wide_top: String, rerank_top: String },
    /// Quill ranked an overflowing roster and admitted no acceptable skill.
    OverflowMiss,
    /// The case's stratum has too few cases to say much on its own.
    SparseStratum { stratum: String, cases: usize },
    /// No independent judgment is resolved yet.
    UnresolvedJudgment,
}

/// What a reason says.
#[verifier::ext_equal]
pub enum ReasonView {
    NearGate { needs_skill: Score, gate: Score },
    StageDisagreement { wide_top: Seq<char>, rerank_top: Seq<char> },
    OverflowMiss,
    SparseStratum { stratum: Seq<char>, cases: nat },
    UnresolvedJudgment,
}

impl View for ReviewReason {
    type V = ReasonView;

    open spec fn view(&self) -> ReasonView {
        match self {
            ReviewReason::NearGate { needs_skill, gate } => ReasonView::NearGate {
                needs_skill: *needs_skill,
                gate: *gate,
            },
            ReviewReason::StageDisagreement { wide_top, rerank_top } =>
                ReasonView::StageDisagreement { wide_top: wide_top@, rerank_top: rerank_top@ },
            ReviewReason::OverflowMiss => ReasonView::OverflowMiss,
            ReviewReason::SparseStratum { stratum, cases } => ReasonView::SparseStratum {
                stratum: stratum@,
                cases: *cases as nat,
            },
            ReviewReason::UnresolvedJudgment => ReasonView::UnresolvedJudgment,
        }
    }
}

/// What each reason of a list says.
pub open spec fn reason_views(reasons: Seq<ReviewReason>) -> Seq<ReasonView> {
    Seq::new(reasons.len(), |i: int| reasons[i]@)
}

/// Whether two reasons are equal, numbers compared by value.
pub open spec fn same_reason(a: ReasonView, b: ReasonView) -> bool {
    match (a, b) {
        (
            ReasonView::NearGate { needs_skill: x, gate: g },
            ReasonView::NearGate { needs_skill: y, gate: h },
        ) => x.same_spec(y) && g.same_spec(h),
        (x, y) => !(x is NearGate) && x == y,
    }
}

/// One queued case, with every reason it was selected.
#[derive(Clone, Debug, PartialEq, Eq)]
pub struct ReviewEntry {
    pub key: CaseKey,
    /// The case's original split; a queue never moves a case between splits.
    pub split: EvaluationSplit,
    pub reasons: Vec<ReviewReason>,
}

/// What an entry says.
#[verifier::ext_equal]
pub struct EntryView {
    pub key: CaseKeyView,
    pub split: EvaluationSplit,
    pub reasons: Seq<ReasonView>,
}

impl View for ReviewEntry {
    type V = EntryView;

    open spec fn view(&self) -> EntryView {
        EntryView { key: self.key@, split: self.split, reasons: reason_views(self.reasons@) }
    }
}

/// What each entry of a queue says.
pub open spec fn entry_views(entries: Seq<ReviewEntry>) -> Seq<EntryView> {
    Seq::new(entries.len(), |i: int| entries[i]@)
}

/// A diagnostic queue. It is outcome-selected by construction.
#[derive(Clone, Debug, PartialEq, Eq)]
pub struct ReviewQueue {
    /// Always "diagnostic-outcome-selected": never a probability sample.
    pub selection: String,
    /// Always "none": queue entries never enter a representative denominator.
    pub denominator_effect: String,
    pub policy: ReviewPolicy,
    pub entries: Vec<ReviewEntry>,
}

/// Whether an input belongs to a stratum.
pub open spec fn in_stratum<'a>(input: ReviewInput<'a>, stratum: Seq<char>) -> bool {
    input.stratum is Some && input.stratum->0@ == stratum
}

/// The distinct cases of a stratum.
pub open spec fn stratum_keys<'a>(inputs: Seq<ReviewInput<'a>>, stratum: Seq<char>) -> Set<
    CaseKeyView,
>
    decreases inputs.len(),
{
    if inputs.len() == 0 {
        Set::empty()
    } else {
        let rest = stratum_keys(inputs.drop_last(), stratum);
        if in_stratum(inputs.last(), stratum) {
            rest.insert(inputs.last().key@)
        } else {
            rest
        }
    }
}

proof fn lemma_stratum_keys<'a>(inputs: Seq<ReviewInput<'a>>, stratum: Seq<char>, key: CaseKeyView)
    ensures
        stratum_keys(inputs, stratum).finite(),
        stratum_keys(inputs, stratum).len() <= inputs.len(),
        stratum_keys(inputs, stratum).contains(key) <==> exists|i: int|
            0 <= i < inputs.len() && in_stratum(#[trigger] inputs[i], stratum) && inputs[i].key@
                == key,
    decreases inputs.len(),
{
    if inputs.len() > 0 {
        let front = inputs.drop_last();
        lemma_stratum_keys(front, stratum, key);
        let n = inputs.len() - 1;
        if exists|i: int|
            0 <= i < front.len() && in_stratum(#[trigger] front[i], stratum) && front[i].key@
                == key {
            let i = choose|i: int|
                0 <= i < front.len() && in_stratum(#[trigger] front[i], stratum) && front[i].key@
                    == key;
            assert(inputs[i] == front[i]);
        }
        assert(inputs[n] == inputs.last());
        if exists|i: int|
            0 <= i < inputs.len() && in_stratum(#[trigger] inputs[i], stratum) && inputs[i].key@
                == key {
            let i = choose|i: int|
                0 <= i < inputs.len() && in_stratum(#[trigger] inputs[i], stratum)
                    && inputs[i].key@ == key;
            if i < n {
                assert(front[i] == inputs[i]);
            }
        }
    }
}

fn same_stratum<'a>(input: &ReviewInput<'a>, stratum: &str) -> (r: bool)
    ensures
        r == in_stratum(*input, stratum@),
{
    match input.stratum {
        Some(s) => text::eq(s, stratum),
        None => false,
    }
}

/// How many distinct cases a stratum holds: a duplicate delivery cannot fill it.
pub fn stratum_size<'a>(inputs: &Vec<ReviewInput<'a>>, stratum: &str) -> (r: usize)
    ensures
        r == stratum_keys(inputs@, stratum@).len(),
{
    let mut size: usize = 0;
    let mut i: usize = 0;
    assert(inputs@.take(0) =~= Seq::<ReviewInput<'a>>::empty());
    while i < inputs.len()
        invariant
            i <= inputs@.len(),
            size == stratum_keys(inputs@.take(i as int), stratum@).len(),
            size <= i,
        decreases inputs@.len() - i,
    {
        let ghost seen_inputs = inputs@.take(i as int);
        proof {
            assert(inputs@.take(i + 1).drop_last() =~= seen_inputs);
            assert(inputs@.take(i + 1).last() == inputs@[i as int]);
            lemma_stratum_keys(seen_inputs, stratum@, inputs@[i as int].key@);
        }
        if same_stratum(&inputs[i], stratum) {
            let mut seen: bool = false;
            let mut j: usize = 0;
            while j < i && !seen
                invariant
                    j <= i < inputs@.len(),
                    seen_inputs == inputs@.take(i as int),
                    seen ==> exists|k: int|
                        0 <= k < i && in_stratum(#[trigger] seen_inputs[k], stratum@)
                            && seen_inputs[k].key@ == inputs@[i as int].key@,
                    !seen ==> forall|k: int|
                        0 <= k < j ==> !(in_stratum(#[trigger] seen_inputs[k], stratum@)
                            && seen_inputs[k].key@ == inputs@[i as int].key@),
                decreases i - j + if seen {
                    0int
                } else {
                    1
                },
            {
                assert(seen_inputs[j as int] == inputs@[j as int]);
                seen = same_stratum(&inputs[j], stratum) && inputs[j].key.same(inputs[i].key);
                j = j + 1;
            }
            if !seen {
                size = size + 1;
            }
        }
        i = i + 1;
    }
    assert(inputs@.take(i as int) =~= inputs@);
    size
}

/// A list of one item, or none.
pub open spec fn when(condition: bool, reason: ReasonView) -> Seq<ReasonView> {
    if condition {
        seq![reason]
    } else {
        Seq::empty()
    }
}

/// Whether a gate mean of a case is near the threshold.
pub open spec fn near_gate<'a>(input: ReviewInput<'a>, policy: ReviewPolicy) -> bool {
    input.evidence is Some && input.evidence->0.wide is Some && input.gate_distance is Some
        && policy.near_gate_margin.at_least_spec(input.gate_distance->0)
}

/// The top candidates of the wide stage and of the rerank, where both answered.
pub open spec fn stage_tops<'a>(input: ReviewInput<'a>) -> Option<(Seq<char>, Seq<char>)> {
    match input.evidence {
        Some(evidence) => match (evidence.wide, evidence.rerank) {
            (Some(wide), Some(rerank)) => match leader(
                RankBy::Probability,
                rerank.candidates@,
                None,
                None,
            ) {
                Some(rerank_top) => if wide.shortlist@.len() > 0 {
                    Some((wide.shortlist@[0].0@, rerank_top))
                } else {
                    None
                },
                None => None,
            },
            _ => None,
        },
        None => None,
    }
}

/// Whether an overflowing roster was ranked and no acceptable skill admitted.
pub open spec fn overflow_miss<'a>(input: ReviewInput<'a>) -> bool {
    input.evidence is Some && input.judgment is Some && input.evidence->0.quill_ranked
        && input.judgment->0.positive() && !accepts_some(
        input.judgment->0,
        input.evidence->0.admitted@,
    )
}

/// Every reason to look at a case, in the order they are given.
pub open spec fn reasons_of<'a>(
    input: ReviewInput<'a>,
    policy: ReviewPolicy,
    inputs: Seq<ReviewInput<'a>>,
) -> Seq<ReasonView> {
    let tops = stage_tops(input);
    let size = match input.stratum {
        Some(stratum) => stratum_keys(inputs, stratum@).len(),
        None => 0,
    };
    when(
        near_gate(input, policy),
        ReasonView::NearGate {
            needs_skill: input.evidence->0.wide->0.needs_skill,
            gate: policy.gate,
        },
    ) + when(
        tops is Some && (tops->0).0 != (tops->0).1,
        ReasonView::StageDisagreement { wide_top: (tops->0).0, rerank_top: (tops->0).1 },
    ) + when(overflow_miss(input), ReasonView::OverflowMiss) + when(
        input.stratum is Some && size < policy.sparse_below,
        ReasonView::SparseStratum { stratum: input.stratum->0@, cases: size },
    ) + when(input.judgment is None, ReasonView::UnresolvedJudgment)
}

fn tops_of<'a>(input: &ReviewInput<'a>) -> (r: Option<(String, String)>)
    ensures
        stage_tops(*input) == match r {
            Some((a, b)) => Some((a@, b@)),
            None => None,
        },
{
    let evidence: &StageEvidence = match input.evidence {
        Some(evidence) => evidence,
        None => return None,
    };
    match (&evidence.wide, &evidence.rerank) {
        (Some(wide), Some(rerank)) => match find_leader(
            RankBy::Probability,
            &rerank.candidates,
            None,
            None,
        ) {
            Some(i) => if wide.shortlist.len() > 0 {
                Some((wide.shortlist[0].0.clone(), rerank.candidates[i].id.clone()))
            } else {
                None
            },
            None => None,
        },
        _ => None,
    }
}

/// Every reason to look at a case.
pub fn reasons_for<'a>(
    input: &ReviewInput<'a>,
    policy: ReviewPolicy,
    inputs: &Vec<ReviewInput<'a>>,
) -> (r: Vec<ReviewReason>)
    ensures
        reason_views(r@) == reasons_of(*input, policy, inputs@),
{
    let mut reasons: Vec<ReviewReason> = Vec::new();
    if let Some(evidence) = input.evidence {
        if let Some(wide) = &evidence.wide {
            if let Some(distance) = input.gate_distance {
                if policy.near_gate_margin.at_least(distance) {
                    reasons.push(
                        ReviewReason::NearGate { needs_skill: wide.needs_skill, gate: policy.gate },
                    );
                }
            }
        }
    }
    let ghost near = when(
        near_gate(*input, policy),
        ReasonView::NearGate {
            needs_skill: input.evidence->0.wide->0.needs_skill,
            gate: policy.gate,
        },
    );
    assert(reason_views(reasons@) =~= near);
    let tops: Option<(String, String)> = tops_of(input);
    let ghost top_views = stage_tops(*input);
    if let Some((wide_top, rerank_top)) = tops {
        if !text::eq(wide_top.as_str(), rerank_top.as_str()) {
            reasons.push(ReviewReason::StageDisagreement { wide_top, rerank_top });
        }
    }
    let ghost disagreement = when(
        top_views is Some && (top_views->0).0 != (top_views->0).1,
        ReasonView::StageDisagreement {
            wide_top: (top_views->0).0,
            rerank_top: (top_views->0).1,
        },
    );
    assert(reason_views(reasons@) =~= near + disagreement);
    if let Some(evidence) = input.evidence {
        if let Some(label) = input.judgment {
            if evidence.quill_ranked && positive_case(label) && !any_acceptable(
                label,
                &evidence.admitted,
            ) {
                reasons.push(ReviewReason::OverflowMiss);
            }
        }
    }
    let ghost miss = when(overflow_miss(*input), ReasonView::OverflowMiss);
    assert(reason_views(reasons@) =~= near + disagreement + miss);
    let ghost size = match input.stratum {
        Some(stratum) => stratum_keys(inputs@, stratum@).len(),
        None => 0,
    };
    if let Some(stratum) = input.stratum {
        let cases: usize = stratum_size(inputs, stratum);
        if cases < policy.sparse_below {
            reasons.push(ReviewReason::SparseStratum { stratum: stratum.to_owned(), cases });
        }
    }
    let ghost sparse = when(
        input.stratum is Some && size < policy.sparse_below,
        ReasonView::SparseStratum { stratum: input.stratum->0@, cases: size },
    );
    assert(reason_views(reasons@) =~= near + disagreement + miss + sparse);
    if input.judgment.is_none() {
        reasons.push(ReviewReason::UnresolvedJudgment);
    }
    assert(reason_views(reasons@) =~= near + disagreement + miss + sparse + when(
        input.judgment is None,
        ReasonView::UnresolvedJudgment,
    ));
    reasons
}

/// Whether a list holds a reason.
pub open spec fn holds_reason(reasons: Seq<ReasonView>, reason: ReasonView) -> bool {
    exists|i: int| 0 <= i < reasons.len() && same_reason(#[trigger] reasons[i], reason)
}

/// A list of reasons with more of them, each one once.
pub open spec fn merged(reasons: Seq<ReasonView>, more: Seq<ReasonView>) -> Seq<ReasonView>
    decreases more.len(),
{
    if more.len() == 0 {
        reasons
    } else {
        let rest = merged(reasons, more.drop_last());
        if holds_reason(rest, more.last()) {
            rest
        } else {
            rest.push(more.last())
        }
    }
}

/// The cases that inputs name, each once, in the order they are first named.
pub open spec fn named_keys<'a>(inputs: Seq<ReviewInput<'a>>) -> Seq<CaseKeyView>
    decreases inputs.len(),
{
    if inputs.len() == 0 {
        Seq::empty()
    } else {
        let rest = named_keys(inputs.drop_last());
        if rest.contains(inputs.last().key@) {
            rest
        } else {
            rest.push(inputs.last().key@)
        }
    }
}

/// The reasons that a prefix of the inputs gives to look at a case, each one
/// once.
pub open spec fn gathered<'a>(
    prefix: Seq<ReviewInput<'a>>,
    policy: ReviewPolicy,
    inputs: Seq<ReviewInput<'a>>,
    key: CaseKeyView,
) -> Seq<ReasonView>
    decreases prefix.len(),
{
    if prefix.len() == 0 {
        Seq::empty()
    } else {
        let rest = gathered(prefix.drop_last(), policy, inputs, key);
        if prefix.last().key@ == key {
            merged(rest, reasons_of(prefix.last(), policy, inputs))
        } else {
            rest
        }
    }
}

/// The split of the first input of a case that gives a reason to look at it.
pub open spec fn first_split<'a>(
    prefix: Seq<ReviewInput<'a>>,
    policy: ReviewPolicy,
    inputs: Seq<ReviewInput<'a>>,
    key: CaseKeyView,
) -> Option<EvaluationSplit>
    decreases prefix.len(),
{
    if prefix.len() == 0 {
        None
    } else {
        match first_split(prefix.drop_last(), policy, inputs, key) {
            Some(split) => Some(split),
            None => if prefix.last().key@ == key && reasons_of(
                prefix.last(),
                policy,
                inputs,
            ).len() > 0 {
                Some(prefix.last().split)
            } else {
                None
            },
        }
    }
}

/// The entries of those cases that there is a reason to look at, in order.
pub open spec fn entries_of<'a>(
    keys: Seq<CaseKeyView>,
    policy: ReviewPolicy,
    inputs: Seq<ReviewInput<'a>>,
) -> Seq<EntryView>
    decreases keys.len(),
{
    if keys.len() == 0 {
        Seq::empty()
    } else {
        let rest = entries_of(keys.drop_last(), policy, inputs);
        match first_split(inputs, policy, inputs, keys.last()) {
            Some(split) => rest.push(
                EntryView {
                    key: keys.last(),
                    split,
                    reasons: gathered(inputs, policy, inputs, keys.last()),
                },
            ),
            None => rest,
        }
    }
}

/// The queue of some inputs: every case with a reason, its reasons merged, in
/// the order the inputs first name it.
pub open spec fn queue_of<'a>(inputs: Seq<ReviewInput<'a>>, policy: ReviewPolicy) -> Seq<
    EntryView,
> {
    entries_of(named_keys(inputs), policy, inputs)
}

/// Whether a queue holds a case.
pub open spec fn queued_key(entries: Seq<EntryView>, key: CaseKeyView) -> bool {
    exists|i: int| 0 <= i < entries.len() && (#[trigger] entries[i]).key == key
}

/// Whether a queue holds each case at most once.
pub open spec fn once_each(entries: Seq<EntryView>) -> bool {
    forall|i: int, j: int|
        0 <= i < j < entries.len() ==> (#[trigger] entries[i]).key != (#[trigger] entries[j]).key
}

/// Whether every entry has the key and the split of one of the inputs.
pub open spec fn original_splits<'a>(
    entries: Seq<EntryView>,
    inputs: Seq<ReviewInput<'a>>,
) -> bool {
    forall|i: int|
        0 <= i < entries.len() ==> exists|j: int|
            0 <= j < inputs.len() && (#[trigger] inputs[j]).key@ == (#[trigger] entries[i]).key
                && inputs[j].split == entries[i].split
}

/// Whether a place holds the first input that names a case.
pub open spec fn named_first<'a>(
    inputs: Seq<ReviewInput<'a>>,
    key: CaseKeyView,
    place: int,
) -> bool {
    &&& 0 <= place < inputs.len()
    &&& inputs[place].key@ == key
    &&& forall|q: int| 0 <= q < place ==> (#[trigger] inputs[q]).key@ != key
}

/// Whether entries stand in the order the inputs first name their cases.
pub open spec fn in_naming_order<'a>(
    entries: Seq<EntryView>,
    inputs: Seq<ReviewInput<'a>>,
) -> bool {
    forall|i: int, j: int, p: int, q: int|
        0 <= i < j < entries.len() && #[trigger] named_first(inputs, entries[i].key, p)
            && #[trigger] named_first(inputs, entries[j].key, q) ==> p < q
}

proof fn lemma_named<'a>(inputs: Seq<ReviewInput<'a>>, key: CaseKeyView)
    ensures
        named_keys(inputs).contains(key) <==> exists|j: int|
            0 <= j < inputs.len() && (#[trigger] inputs[j]).key@ == key,
    decreases inputs.len(),
{
    if inputs.len() > 0 {
        let front = inputs.drop_last();
        let n = inputs.len() - 1;
        let rest = named_keys(front);
        lemma_named(front, key);
        assert(inputs[n] == inputs.last());
        assert forall|j: int| 0 <= j < n implies #[trigger] inputs[j] == front[j] by {}
        if rest.contains(key) {
            let j = choose|j: int| 0 <= j < front.len() && (#[trigger] front[j]).key@ == key;
            assert(inputs[j] == front[j]);
            let a = choose|a: int| 0 <= a < rest.len() && rest[a] == key;
            assert(named_keys(inputs)[a] == key);
        }
        if inputs.last().key@ == key && !rest.contains(key) {
            assert(named_keys(inputs)[rest.len() as int] == key);
        }
        if named_keys(inputs).contains(key) && !rest.contains(key) {
            let a = choose|a: int|
                0 <= a < named_keys(inputs).len() && named_keys(inputs)[a] == key;
            if a < rest.len() {
                assert(rest[a] == key);
            }
        }
    }
}

proof fn lemma_named_in_order<'a>(inputs: Seq<ReviewInput<'a>>)
    ensures
        named_keys(inputs).no_duplicates(),
        forall|a: int, b: int, p: int, q: int|
            0 <= a < b < named_keys(inputs).len() && #[trigger] named_first(
                inputs,
                named_keys(inputs)[a],
                p,
            ) && #[trigger] named_first(inputs, named_keys(inputs)[b], q) ==> p < q,
    decreases inputs.len(),
{
    if inputs.len() > 0 {
        let front = inputs.drop_last();
        let n = inputs.len() - 1;
        let rest = named_keys(front);
        let keys = named_keys(inputs);
        lemma_named_in_order(front);
        assert(inputs[n] == inputs.last());
        assert forall|a: int, b: int| 0 <= a < b < keys.len() implies keys[a] != keys[b] by {
            assert(rest.contains(rest[a]));
        }
        assert forall|a: int, b: int, p: int, q: int|
            0 <= a < b < keys.len() && #[trigger] named_first(inputs, keys[a], p)
                && #[trigger] named_first(inputs, keys[b], q) implies p < q by {
            assert(keys[a] == rest[a]);
            lemma_named(front, rest[a]);
            assert(rest.contains(rest[a]));
            let j = choose|j: int| 0 <= j < front.len() && (#[trigger] front[j]).key@ == rest[a];
            assert(inputs[j] == front[j]);
            assert(p <= j);
            assert(named_first(front, rest[a], p)) by {
                assert(front[p] == inputs[p]);
                assert forall|m: int| 0 <= m < p implies (#[trigger] front[m]).key@ != rest[a] by {
                    assert(inputs[m] == front[m]);
                }
            }
            if b < rest.len() {
                lemma_named(front, rest[b]);
                assert(rest.contains(rest[b]));
                let k = choose|k: int|
                    0 <= k < front.len() && (#[trigger] front[k]).key@ == rest[b];
                assert(inputs[k] == front[k]);
                assert(q <= k);
                assert(named_first(front, rest[b], q)) by {
                    assert(front[q] == inputs[q]);
                    assert forall|m: int| 0 <= m < q implies (#[trigger] front[m]).key@
                        != rest[b] by {
                        assert(inputs[m] == front[m]);
                    }
                }
            } else {
                assert(keys[b] == inputs.last().key@);
                if q < n {
                    assert(front[q] == inputs[q]);
                    lemma_named(front, keys[b]);
                    assert(rest.contains(keys[b]));
                    assert(false);
                }
            }
        }
    }
}

/// The entry of a case that there is a reason to look at.
spec fn entry_of<'a>(
    key: CaseKeyView,
    policy: ReviewPolicy,
    inputs: Seq<ReviewInput<'a>>,
) -> EntryView {
    EntryView {
        key,
        split: first_split(inputs, policy, inputs, key)->0,
        reasons: gathered(inputs, policy, inputs, key),
    }
}

proof fn lemma_entries<'a>(
    keys: Seq<CaseKeyView>,
    policy: ReviewPolicy,
    inputs: Seq<ReviewInput<'a>>,
)
    ensures
        ({
            let entries = entries_of(keys, policy, inputs);
            &&& forall|i: int|
                0 <= i < entries.len() ==> {
                    &&& keys.contains((#[trigger] entries[i]).key)
                    &&& first_split(inputs, policy, inputs, entries[i].key) is Some
                    &&& entries[i] == entry_of(entries[i].key, policy, inputs)
                }
            &&& forall|i: int, j: int|
                0 <= i < j < entries.len() ==> exists|a: int, b: int|
                    0 <= a < b < keys.len() && #[trigger] keys[a] == (#[trigger] entries[i]).key
                        && #[trigger] keys[b] == (#[trigger] entries[j]).key
            &&& forall|key: CaseKeyView| #[trigger]
                queued_key(entries, key) <==> keys.contains(key) && first_split(
                    inputs,
                    policy,
                    inputs,
                    key,
                ) is Some
        }),
    decreases keys.len(),
{
    let entries = entries_of(keys, policy, inputs);
    if keys.len() > 0 {
        let front = keys.drop_last();
        let n = keys.len() - 1;
        let rest = entries_of(front, policy, inputs);
        lemma_entries(front, policy, inputs);
        assert(keys[n] == keys.last());
        assert forall|key: CaseKeyView| front.contains(key) implies keys.contains(key) by {
            let a = choose|a: int| 0 <= a < front.len() && front[a] == key;
            assert(keys[a] == key);
        }
        assert forall|i: int| 0 <= i < rest.len() implies #[trigger] rest[i] == entries[i] by {}
        assert forall|i: int, j: int| 0 <= i < j < entries.len() implies exists|a: int, b: int|
            0 <= a < b < keys.len() && #[trigger] keys[a] == (#[trigger] entries[i]).key
                && #[trigger] keys[b] == (#[trigger] entries[j]).key by {
            assert(rest[i] == entries[i]);
            if j < rest.len() {
                assert(rest[j] == entries[j]);
                let (a, b) = choose|a: int, b: int|
                    0 <= a < b < front.len() && #[trigger] front[a] == rest[i].key
                        && #[trigger] front[b] == rest[j].key;
                assert(keys[a] == front[a] && keys[b] == front[b]);
            } else {
                assert(front.contains(rest[i].key));
                let a = choose|a: int| 0 <= a < front.len() && front[a] == rest[i].key;
                assert(keys[a] == entries[i].key && keys[n] == entries[j].key);
            }
        }
        assert forall|key: CaseKeyView| #[trigger]
            queued_key(entries, key) <==> keys.contains(key) && first_split(
                inputs,
                policy,
                inputs,
                key,
            ) is Some by {
            assert(queued_key(rest, key) <==> front.contains(key) && first_split(
                inputs,
                policy,
                inputs,
                key,
            ) is Some);
            if queued_key(rest, key) {
                let i = choose|i: int| 0 <= i < rest.len() && (#[trigger] rest[i]).key == key;
                assert(entries[i].key == key);
            }
            if keys.contains(key) && first_split(inputs, policy, inputs, key) is Some
                && !front.contains(key) {
                let a = choose|a: int| 0 <= a < keys.len() && keys[a] == key;
                if a < n {
                    assert(front[a] == key);
                }
                assert(entries[rest.len() as int].key == key);
            }
        }
    }
}

proof fn lemma_merged(reasons: Seq<ReasonView>, more: Seq<ReasonView>)
    ensures
        reasons.len() <= merged(reasons, more).len(),
        merged(reasons, more).take(reasons.len() as int) == reasons,
        forall|a: int|
            reasons.len() <= a < merged(reasons, more).len() ==> more.contains(
                #[trigger] merged(reasons, more)[a],
            ),
        forall|x: ReasonView|
            more.contains(x) ==> #[trigger] gives(merged(reasons, more), x),
        forall|x: ReasonView|
            gives(reasons, x) ==> #[trigger] gives(merged(reasons, more), x),
        merged(reasons, more).len() == 0 <==> reasons.len() == 0 && more.len() == 0,
        unlike(reasons) ==> unlike(merged(reasons, more)),
        (forall|x: ReasonView| #[trigger] more.contains(x) ==> holds_reason(reasons, x)) ==> merged(
            reasons,
            more,
        ) == reasons,
    decreases more.len(),
{
    let all = merged(reasons, more);
    if more.len() == 0 {
        assert(all.take(reasons.len() as int) =~= reasons);
    } else {
        let front = more.drop_last();
        let last = more.last();
        let rest = merged(reasons, front);
        lemma_merged(reasons, front);
        assert(more[more.len() - 1] == last);
        assert forall|x: ReasonView| front.contains(x) implies more.contains(x) by {
            let i = choose|i: int| 0 <= i < front.len() && front[i] == x;
            assert(more[i] == x);
        }
        assert(all.take(reasons.len() as int) =~= rest.take(reasons.len() as int));
        assert forall|x: ReasonView| gives(rest, x) implies #[trigger] gives(all, x) by {
            assert(all.take(rest.len() as int) =~= rest);
            lemma_gives_prefix(rest, all, x);
        }
        assert(gives(all, last)) by {
            if !holds_reason(rest, last) {
                assert(all[rest.len() as int] == last);
            }
        }
        assert forall|x: ReasonView| more.contains(x) implies #[trigger] gives(all, x) by {
            let i = choose|i: int| 0 <= i < more.len() && more[i] == x;
            if i < front.len() {
                assert(front[i] == x);
                assert(front.contains(x));
                assert(gives(rest, x));
            }
        }
        assert forall|x: ReasonView| gives(reasons, x) implies #[trigger] gives(all, x) by {
            assert(gives(rest, x));
        }
        assert forall|a: int| reasons.len() <= a < all.len() implies more.contains(
            #[trigger] all[a],
        ) by {
            if a < rest.len() {
                assert(front.contains(rest[a]));
            }
        }
        if unlike(reasons) {
            assert(unlike(rest));
            assert forall|a: int, b: int| 0 <= a < b < all.len() implies !same_reason(
                #[trigger] all[a],
                #[trigger] all[b],
            ) by {
                if b >= rest.len() {
                    assert(all[a] == rest[a]);
                }
            }
        }
        if rest.len() == 0 {
            assert(!holds_reason(rest, last));
        }
        if forall|x: ReasonView| #[trigger] more.contains(x) ==> holds_reason(reasons, x) {
            assert forall|x: ReasonView| #[trigger] front.contains(x) implies holds_reason(
                reasons,
                x,
            ) by {
                assert(more.contains(x));
            }
            assert(more.contains(last));
        }
    }
}

/// Whether a list gives a reason: the reason itself, or one equal to it.
pub open spec fn gives(reasons: Seq<ReasonView>, reason: ReasonView) -> bool {
    reasons.contains(reason) || holds_reason(reasons, reason)
}

/// Whether no two reasons of a list are equal.
pub open spec fn unlike(reasons: Seq<ReasonView>) -> bool {
    forall|a: int, b: int|
        0 <= a < b < reasons.len() ==> !same_reason(#[trigger] reasons[a], #[trigger] reasons[b])
}

proof fn lemma_gives_prefix(reasons: Seq<ReasonView>, all: Seq<ReasonView>, x: ReasonView)
    requires
        gives(reasons, x),
        reasons.len() <= all.len(),
        all.take(reasons.len() as int) == reasons,
    ensures
        gives(all, x),
{
    assert forall|i: int| 0 <= i < reasons.len() implies #[trigger] all[i] == reasons[i] by {
        assert(all.take(reasons.len() as int)[i] == all[i]);
    }
    if reasons.contains(x) {
        let i = choose|i: int| 0 <= i < reasons.len() && reasons[i] == x;
        assert(all[i] == x);
    } else {
        let i = choose|i: int| 0 <= i < reasons.len() && same_reason(#[trigger] reasons[i], x);
        assert(same_reason(all[i], x));
    }
}

proof fn lemma_gathered<'a>(
    prefix: Seq<ReviewInput<'a>>,
    policy: ReviewPolicy,
    inputs: Seq<ReviewInput<'a>>,
    key: CaseKeyView,
)
    ensures
        unlike(gathered(prefix, policy, inputs, key)),
        forall|a: int|
            0 <= a < gathered(prefix, policy, inputs, key).len() ==> exists|j: int|
                0 <= j < prefix.len() && (#[trigger] prefix[j]).key@ == key && reasons_of(
                    prefix[j],
                    policy,
                    inputs,
                ).contains(#[trigger] gathered(prefix, policy, inputs, key)[a]),
        forall|j: int, x: ReasonView|
            0 <= j < prefix.len() && prefix[j].key@ == key && #[trigger] reasons_of(
                prefix[j],
                policy,
                inputs,
            ).contains(x) ==> gives(gathered(prefix, policy, inputs, key), x),
        gathered(prefix, policy, inputs, key).len() > 0 <==> first_split(
            prefix,
            policy,
            inputs,
            key,
        ) is Some,
        first_split(prefix, policy, inputs, key) is Some <==> exists|j: int|
            0 <= j < prefix.len() && (#[trigger] prefix[j]).key@ == key && reasons_of(
                prefix[j],
                policy,
                inputs,
            ).len() > 0,
        first_split(prefix, policy, inputs, key) is Some ==> exists|j: int|
            0 <= j < prefix.len() && (#[trigger] prefix[j]).key@ == key && prefix[j].split
                == first_split(prefix, policy, inputs, key)->0,
    decreases prefix.len(),
{
    if prefix.len() > 0 {
        let front = prefix.drop_last();
        let last = prefix.last();
        let n = prefix.len() - 1;
        let rest = gathered(front, policy, inputs, key);
        let all = gathered(prefix, policy, inputs, key);
        let more = reasons_of(last, policy, inputs);
        lemma_gathered(front, policy, inputs, key);
        lemma_merged(rest, more);
        assert(prefix[n] == last);
        assert forall|j: int| 0 <= j < n implies #[trigger] prefix[j] == front[j] by {}
        assert forall|a: int| 0 <= a < all.len() implies exists|j: int|
            0 <= j < prefix.len() && (#[trigger] prefix[j]).key@ == key && reasons_of(
                prefix[j],
                policy,
                inputs,
            ).contains(#[trigger] all[a]) by {
            if a < rest.len() {
                assert(all.take(rest.len() as int)[a] == all[a]);
                assert(all[a] == rest[a]);
                let j = choose|j: int|
                    0 <= j < front.len() && (#[trigger] front[j]).key@ == key && reasons_of(
                        front[j],
                        policy,
                        inputs,
                    ).contains(rest[a]);
                assert(prefix[j] == front[j]);
            } else {
                assert(more.contains(all[a]));
                assert(reasons_of(prefix[n], policy, inputs).contains(all[a]));
            }
        }
        assert forall|j: int, x: ReasonView|
            0 <= j < prefix.len() && prefix[j].key@ == key && #[trigger] reasons_of(
                prefix[j],
                policy,
                inputs,
            ).contains(x) implies gives(all, x) by {
            if j < n {
                assert(front[j] == prefix[j]);
                assert(gives(rest, x));
            }
        }
        if first_split(front, policy, inputs, key) is Some {
            let j = choose|j: int|
                0 <= j < front.len() && (#[trigger] front[j]).key@ == key && reasons_of(
                    front[j],
                    policy,
                    inputs,
                ).len() > 0;
            assert(prefix[j] == front[j]);
            let k = choose|k: int|
                0 <= k < front.len() && (#[trigger] front[k]).key@ == key && front[k].split
                    == first_split(front, policy, inputs, key)->0;
            assert(prefix[k] == front[k]);
        }
        if exists|j: int|
            0 <= j < prefix.len() && (#[trigger] prefix[j]).key@ == key && reasons_of(
                prefix[j],
                policy,
                inputs,
            ).len() > 0 {
            let j = choose|j: int|
                0 <= j < prefix.len() && (#[trigger] prefix[j]).key@ == key && reasons_of(
                    prefix[j],
                    policy,
                    inputs,
                ).len() > 0;
            if j < n {
                assert(front[j] == prefix[j]);
            }
        }
    }
}

/// A queue holds each case at most once, in one of its own splits.
pub proof fn lemma_queue_holds_each_case_once<'a>(
    inputs: Seq<ReviewInput<'a>>,
    policy: ReviewPolicy,
)
    ensures
        once_each(queue_of(inputs, policy)),
        original_splits(queue_of(inputs, policy), inputs),
{
    let entries = queue_of(inputs, policy);
    let keys = named_keys(inputs);
    lemma_named_in_order(inputs);
    lemma_entries(keys, policy, inputs);
    assert forall|i: int, j: int| 0 <= i < j < entries.len() implies (#[trigger] entries[i]).key
        != (#[trigger] entries[j]).key by {
        let (a, b) = choose|a: int, b: int|
            0 <= a < b < keys.len() && #[trigger] keys[a] == entries[i].key && #[trigger] keys[b]
                == entries[j].key;
        assert(keys[a] != keys[b]);
    }
    assert forall|i: int| 0 <= i < entries.len() implies exists|j: int|
        0 <= j < inputs.len() && (#[trigger] inputs[j]).key@ == (#[trigger] entries[i]).key
            && inputs[j].split == entries[i].split by {
        lemma_gathered(inputs, policy, inputs, entries[i].key);
    }
}

/// A queue stands in the order the inputs first name its cases, whether or not
/// that first input gives a reason.
pub proof fn lemma_queue_in_naming_order<'a>(inputs: Seq<ReviewInput<'a>>, policy: ReviewPolicy)
    ensures
        in_naming_order(queue_of(inputs, policy), inputs),
{
    let entries = queue_of(inputs, policy);
    let keys = named_keys(inputs);
    lemma_named_in_order(inputs);
    lemma_entries(keys, policy, inputs);
    assert forall|i: int, j: int, p: int, q: int|
        0 <= i < j < entries.len() && #[trigger] named_first(inputs, entries[i].key, p)
            && #[trigger] named_first(inputs, entries[j].key, q) implies p < q by {
        let (a, b) = choose|a: int, b: int|
            0 <= a < b < keys.len() && #[trigger] keys[a] == entries[i].key && #[trigger] keys[b]
                == entries[j].key;
        assert(named_first(inputs, keys[a], p) && named_first(inputs, keys[b], q));
    }
}

/// A case is queued exactly where some input of it has a reason.
pub proof fn lemma_queued_with_reasons<'a>(
    inputs: Seq<ReviewInput<'a>>,
    policy: ReviewPolicy,
    key: CaseKeyView,
)
    ensures
        queued_key(queue_of(inputs, policy), key) <==> exists|j: int|
            0 <= j < inputs.len() && (#[trigger] inputs[j]).key@ == key && reasons_of(
                inputs[j],
                policy,
                inputs,
            ).len() > 0,
{
    lemma_entries(named_keys(inputs), policy, inputs);
    lemma_gathered(inputs, policy, inputs, key);
    lemma_named(inputs, key);
}

/// The reasons of an entry are those of its case: there is one at least, no
/// two are equal, each comes from an input of the case, and each reason of
/// such an input is among them.
pub proof fn lemma_entry_gathers_reasons<'a>(
    inputs: Seq<ReviewInput<'a>>,
    policy: ReviewPolicy,
    i: int,
)
    requires
        0 <= i < queue_of(inputs, policy).len(),
    ensures
        ({
            let entry = queue_of(inputs, policy)[i];
            &&& entry.reasons.len() > 0
            &&& unlike(entry.reasons)
            &&& forall|a: int|
                0 <= a < entry.reasons.len() ==> exists|j: int|
                    0 <= j < inputs.len() && (#[trigger] inputs[j]).key@ == entry.key
                        && reasons_of(inputs[j], policy, inputs).contains(
                        #[trigger] entry.reasons[a],
                    )
            &&& forall|j: int, x: ReasonView|
                0 <= j < inputs.len() && inputs[j].key@ == entry.key && #[trigger] reasons_of(
                    inputs[j],
                    policy,
                    inputs,
                ).contains(x) ==> gives(entry.reasons, x)
        }),
{
    lemma_entries(named_keys(inputs), policy, inputs);
    lemma_gathered(inputs, policy, inputs, queue_of(inputs, policy)[i].key);
}

/// Whether the numbers that a near-gate reason of a case quotes equal
/// themselves, as every number but NaN does.
pub open spec fn quotes_numbers<'a>(input: ReviewInput<'a>, policy: ReviewPolicy) -> bool {
    near_gate(input, policy) ==> {
        &&& policy.gate.same_spec(policy.gate)
        &&& input.evidence->0.wide->0.needs_skill.same_spec(
            input.evidence->0.wide->0.needs_skill,
        )
    }
}

proof fn lemma_same_reasons<'a>(
    prefix: Seq<ReviewInput<'a>>,
    policy: ReviewPolicy,
    inputs: Seq<ReviewInput<'a>>,
    others: Seq<ReviewInput<'a>>,
    key: CaseKeyView,
)
    requires
        forall|input: ReviewInput<'a>| #[trigger]
            reasons_of(input, policy, inputs) == reasons_of(input, policy, others),
    ensures
        gathered(prefix, policy, inputs, key) == gathered(prefix, policy, others, key),
        first_split(prefix, policy, inputs, key) == first_split(prefix, policy, others, key),
    decreases prefix.len(),
{
    if prefix.len() > 0 {
        lemma_same_reasons(prefix.drop_last(), policy, inputs, others, key);
        assert(reasons_of(prefix.last(), policy, inputs) == reasons_of(
            prefix.last(),
            policy,
            others,
        ));
    }
}

proof fn lemma_seen_again<'a>(
    inputs: Seq<ReviewInput<'a>>,
    n: int,
    policy: ReviewPolicy,
    key: CaseKeyView,
)
    requires
        0 <= n <= inputs.len(),
        forall|j: int| 0 <= j < inputs.len() ==> quotes_numbers(#[trigger] inputs[j], policy),
    ensures
        named_keys(inputs + inputs.take(n)) == named_keys(inputs),
        gathered(inputs + inputs.take(n), policy, inputs, key) == gathered(
            inputs,
            policy,
            inputs,
            key,
        ),
        first_split(inputs + inputs.take(n), policy, inputs, key) == first_split(
            inputs,
            policy,
            inputs,
            key,
        ),
    decreases n,
{
    let more = inputs + inputs.take(n);
    if n == 0 {
        assert(more =~= inputs);
    } else {
        lemma_seen_again(inputs, n - 1, policy, key);
        let last = inputs[n - 1];
        assert(more.drop_last() =~= inputs + inputs.take(n - 1));
        assert(more.last() == last);
        lemma_named(inputs, last.key@);
        assert(named_keys(inputs).contains(last.key@));
        if last.key@ == key {
            let rest = gathered(inputs, policy, inputs, key);
            let again = reasons_of(last, policy, inputs);
            lemma_gathered(inputs, policy, inputs, key);
            assert forall|x: ReasonView| #[trigger] again.contains(x) implies holds_reason(
                rest,
                x,
            ) by {
                assert(reasons_of(inputs[n - 1], policy, inputs).contains(x));
                assert(gives(rest, x));
                assert(same_reason(x, x)) by {
                    assert(quotes_numbers(inputs[n - 1], policy));
                }
                if rest.contains(x) {
                    let i = choose|i: int| 0 <= i < rest.len() && rest[i] == x;
                    assert(same_reason(rest[i], x));
                }
            }
            lemma_merged(rest, again);
        }
    }
}

proof fn lemma_same_entries<'a>(
    keys: Seq<CaseKeyView>,
    inputs: Seq<ReviewInput<'a>>,
    policy: ReviewPolicy,
)
    requires
        forall|j: int| 0 <= j < inputs.len() ==> quotes_numbers(#[trigger] inputs[j], policy),
        forall|input: ReviewInput<'a>| #[trigger]
            reasons_of(input, policy, inputs) == reasons_of(input, policy, inputs + inputs),
    ensures
        entries_of(keys, policy, inputs + inputs) == entries_of(keys, policy, inputs),
    decreases keys.len(),
{
    if keys.len() > 0 {
        let key = keys.last();
        let twice = inputs + inputs;
        lemma_same_entries(keys.drop_last(), inputs, policy);
        lemma_same_reasons(twice, policy, inputs, twice, key);
        lemma_seen_again(inputs, inputs.len() as int, policy, key);
        assert(inputs.take(inputs.len() as int) =~= inputs);
    }
}

/// Delivering every case a second time changes nothing in a queue, where the
/// numbers it quotes are numbers.
pub proof fn lemma_repeated_inputs_change_nothing<'a>(
    inputs: Seq<ReviewInput<'a>>,
    policy: ReviewPolicy,
)
    requires
        forall|j: int| 0 <= j < inputs.len() ==> quotes_numbers(#[trigger] inputs[j], policy),
    ensures
        queue_of(inputs + inputs, policy) == queue_of(inputs, policy),
{
    let twice = inputs + inputs;
    assert forall|input: ReviewInput<'a>| #[trigger]
        reasons_of(input, policy, inputs) == reasons_of(input, policy, twice) by {
        if input.stratum is Some {
            let stratum = input.stratum->0@;
            assert forall|key: CaseKeyView| #[trigger]
                stratum_keys(twice, stratum).contains(key) == stratum_keys(
                    inputs,
                    stratum,
                ).contains(key) by {
                lemma_stratum_keys(twice, stratum, key);
                lemma_stratum_keys(inputs, stratum, key);
                if stratum_keys(inputs, stratum).contains(key) {
                    let i = choose|i: int|
                        0 <= i < inputs.len() && in_stratum(#[trigger] inputs[i], stratum)
                            && inputs[i].key@ == key;
                    assert(twice[i] == inputs[i]);
                }
                if stratum_keys(twice, stratum).contains(key) {
                    let i = choose|i: int|
                        0 <= i < twice.len() && in_stratum(#[trigger] twice[i], stratum)
                            && twice[i].key@ == key;
                    if i < inputs.len() {
                        assert(twice[i] == inputs[i]);
                    } else {
                        assert(twice[i] == inputs[i - inputs.len()]);
                    }
                }
            }
            assert(stratum_keys(twice, stratum) =~= stratum_keys(inputs, stratum));
        }
    }
    if inputs.len() > 0 {
        lemma_seen_again(inputs, inputs.len() as int, policy, inputs[0].key@);
    }
    assert(inputs.take(inputs.len() as int) =~= inputs);
    assert(named_keys(twice) == named_keys(inputs)) by {
        if inputs.len() == 0 {
            assert(twice =~= inputs);
        }
    }
    lemma_same_entries(named_keys(inputs), inputs, policy);
}

fn equal_reasons(a: &ReviewReason, b: &ReviewReason) -> (r: bool)
    ensures
        r == same_reason(a@, b@),
{
    match (a, b) {
        (
            ReviewReason::NearGate { needs_skill: x, gate: g },
            ReviewReason::NearGate { needs_skill: y, gate: h },
        ) => x.same(*y) && g.same(*h),
        (
            ReviewReason::StageDisagreement { wide_top: w, rerank_top: q },
            ReviewReason::StageDisagreement { wide_top: v, rerank_top: s },
        ) => text::eq(w.as_str(), v.as_str()) && text::eq(q.as_str(), s.as_str()),
        (ReviewReason::OverflowMiss, ReviewReason::OverflowMiss) => true,
        (
            ReviewReason::SparseStratum { stratum: x, cases: m },
            ReviewReason::SparseStratum { stratum: y, cases: n },
        ) => text::eq(x.as_str(), y.as_str()) && *m == *n,
        (ReviewReason::UnresolvedJudgment, ReviewReason::UnresolvedJudgment) => true,
        _ => false,
    }
}

fn merge_reasons(reasons: Vec<ReviewReason>, more: Vec<ReviewReason>) -> (r: Vec<ReviewReason>)
    ensures
        reason_views(r@) == merged(reason_views(reasons@), reason_views(more@)),
{
    let ghost start = reason_views(reasons@);
    let ghost added = reason_views(more@);
    let ghost all = more@;
    let mut out: Vec<ReviewReason> = reasons;
    assert(added.take(0) =~= Seq::<ReasonView>::empty());
    for reason in it: more.into_iter()
        invariant
            it.seq() == all,
            added == reason_views(all),
            reason_views(out@) =~= merged(start, added.take(it.index() as int)),
    {
        let ghost i = it.index() as int;
        let ghost before = out@;
        proof {
            assert(added.take(i + 1).drop_last() =~= added.take(i));
            assert(added.take(i + 1).last() == reason@);
        }
        let mut held: bool = false;
        let mut j: usize = 0;
        while j < out.len() && !held
            invariant
                j <= out@.len(),
                out@ == before,
                held ==> holds_reason(reason_views(before), reason@),
                !held ==> forall|k: int|
                    0 <= k < j ==> !same_reason(#[trigger] reason_views(before)[k], reason@),
            decreases out@.len() - j + if held {
                0int
            } else {
                1
            },
        {
            held = equal_reasons(&out[j], &reason);
            assert(reason_views(before)[j as int] == out@[j as int]@);
            j = j + 1;
        }
        if !held {
            out.push(reason);
            assert(reason_views(out@) =~= reason_views(before).push(reason@));
        }
    }
    assert(added.take(added.len() as int) =~= added);
    out
}

/// The split and the reasons with which a case is queued, where there is a
/// reason to look at it.
fn gather<'a>(key: &CaseKey, policy: ReviewPolicy, inputs: &Vec<ReviewInput<'a>>) -> (r: (
    Option<EvaluationSplit>,
    Vec<ReviewReason>,
))
    ensures
        r.0 == first_split(inputs@, policy, inputs@, key@),
        reason_views(r.1@) == gathered(inputs@, policy, inputs@, key@),
{
    let mut split: Option<EvaluationSplit> = None;
    let mut reasons: Vec<ReviewReason> = Vec::new();
    let mut i: usize = 0;
    assert(inputs@.take(0) =~= Seq::<ReviewInput<'a>>::empty());
    assert(reason_views(reasons@) =~= Seq::<ReasonView>::empty());
    while i < inputs.len()
        invariant
            i <= inputs@.len(),
            split == first_split(inputs@.take(i as int), policy, inputs@, key@),
            reason_views(reasons@) == gathered(inputs@.take(i as int), policy, inputs@, key@),
        decreases inputs@.len() - i,
    {
        let input: &ReviewInput<'a> = &inputs[i];
        proof {
            assert(inputs@.take(i + 1).drop_last() =~= inputs@.take(i as int));
            assert(inputs@.take(i + 1).last() == *input);
        }
        if input.key.same(key) {
            let more: Vec<ReviewReason> = reasons_for(input, policy, inputs);
            assert(reason_views(more@).len() == more@.len());
            if split.is_none() && more.len() > 0 {
                split = Some(input.split);
            }
            reasons = merge_reasons(reasons, more);
        }
        i = i + 1;
    }
    assert(inputs@.take(i as int) =~= inputs@);
    (split, reasons)
}

/// Build the queue. Each case appears at most once, with its reasons merged,
/// in the order the inputs first name it.
pub fn review_queue<'a>(inputs: &Vec<ReviewInput<'a>>, policy: ReviewPolicy) -> (r: ReviewQueue)
    ensures
        r.selection@ == "diagnostic-outcome-selected"@,
        r.denominator_effect@ == "none"@,
        r.policy == policy,
        entry_views(r.entries@) == queue_of(inputs@, policy),
        once_each(entry_views(r.entries@)),
        original_splits(entry_views(r.entries@), inputs@),
        in_naming_order(entry_views(r.entries@), inputs@),
{
    let mut entries: Vec<ReviewEntry> = Vec::new();
    let mut i: usize = 0;
    assert(inputs@.take(0) =~= Seq::<ReviewInput<'a>>::empty());
    while i < inputs.len()
        invariant
            i <= inputs@.len(),
            entry_views(entries@) =~= entries_of(
                named_keys(inputs@.take(i as int)),
                policy,
                inputs@,
            ),
        decreases inputs@.len() - i,
    {
        let key: &CaseKey = inputs[i].key;
        let ghost front = inputs@.take(i as int);
        let ghost before = entries@;
        proof {
            assert(inputs@.take(i + 1).drop_last() =~= front);
            assert(inputs@.take(i + 1).last() == inputs@[i as int]);
            lemma_named(front, key@);
        }
        let mut named: bool = false;
        let mut j: usize = 0;
        while j < i && !named
            invariant
                j <= i < inputs@.len(),
                front == inputs@.take(i as int),
                named ==> exists|k: int| 0 <= k < i && (#[trigger] front[k]).key@ == key@,
                !named ==> forall|k: int| 0 <= k < j ==> (#[trigger] front[k]).key@ != key@,
            decreases i - j + if named {
                0int
            } else {
                1
            },
        {
            assert(front[j as int] == inputs@[j as int]);
            named = inputs[j].key.same(key);
            j = j + 1;
        }
        i = i + 1;
        if named {
            continue;
        }
        let ghost keys = named_keys(front).push(key@);
        assert(keys.drop_last() =~= named_keys(front));
        let (split, reasons): (Option<EvaluationSplit>, Vec<ReviewReason>) = gather(
            key,
            policy,
            inputs,
        );
        if let Some(split) = split {
            entries.push(ReviewEntry { key: key.copy(), split, reasons });
            assert(entry_views(entries@) =~= entry_views(before).push(entries@.last()@));
        }
    }
    proof {
        assert(inputs@.take(i as int) =~= inputs@);
        lemma_queue_holds_each_case_once(inputs@, policy);
        lemma_queue_in_naming_order(inputs@, policy);
    }
    ReviewQueue {
        selection: "diagnostic-outcome-selected".to_owned(),
        denominator_effect: "none".to_owned(),
        policy,
        entries,
    }
}

/// The place of a reason among those of one case.
pub open spec fn place_of(reason: ReasonView) -> int {
    match reason {
        ReasonView::NearGate { .. } => 0,
        ReasonView::StageDisagreement { .. } => 1,
        ReasonView::OverflowMiss => 2,
        ReasonView::SparseStratum { .. } => 3,
        ReasonView::UnresolvedJudgment => 4,
    }
}

proof fn lemma_contained_in_sum(a: Seq<ReasonView>, b: Seq<ReasonView>, x: ReasonView)
    ensures
        (a + b).contains(x) <==> a.contains(x) || b.contains(x),
{
    if a.contains(x) {
        let i = choose|i: int| 0 <= i < a.len() && a[i] == x;
        assert((a + b)[i] == x);
    }
    if b.contains(x) {
        let i = choose|i: int| 0 <= i < b.len() && b[i] == x;
        assert((a + b)[a.len() + i] == x);
    }
    if (a + b).contains(x) {
        let i = choose|i: int| 0 <= i < (a + b).len() && (a + b)[i] == x;
        if i < a.len() {
            assert(a[i] == x);
        } else {
            assert(b[i - a.len()] == x);
        }
    }
}

proof fn lemma_when(condition: bool, reason: ReasonView, x: ReasonView)
    ensures
        condition && x == reason <==> when(condition, reason).contains(x),
{
    if condition {
        assert(when(condition, reason)[0] == reason);
    }
}

/// Whether a candidate of a rerank is the one most likely to be chosen.
pub open spec fn likeliest(candidates: Seq<RerankCandidate>, i: int) -> bool {
    &&& 0 <= i < candidates.len()
    &&& forall|j: int|
        0 <= j < candidates.len() ==> {
            let (x, y) = (
                candidates[i].probability.total_key(),
                (#[trigger] candidates[j]).probability.total_key(),
            );
            x >= y && (x == y ==> !text_precedes(candidates[j].id@, candidates[i].id@))
        }
}

/// A case is queued for just these reasons. It is near its gate where the
/// distance to it is within the margin, and is then quoted with its own need. Its
/// stages disagree where the first of the shortlist is not the likeliest of the
/// rerank. Retrieval missed where a ranked roster admitted no acceptable skill of
/// a case that some skill would have helped. Its stratum is sparse where it holds
/// fewer cases than the policy asks for. Its judgment is unresolved where it has
/// none. Nothing else is a reason.
pub proof fn lemma_reasons_of_a_case<'a>(
    input: ReviewInput<'a>,
    policy: ReviewPolicy,
    inputs: Seq<ReviewInput<'a>>,
    reason: ReasonView,
)
    ensures
        reasons_of(input, policy, inputs).contains(reason) <==> match reason {
            ReasonView::NearGate { needs_skill, gate } => {
                &&& input.evidence is Some && input.evidence->0.wide is Some
                &&& input.gate_distance is Some
                &&& policy.near_gate_margin.at_least_spec(input.gate_distance->0)
                &&& needs_skill == input.evidence->0.wide->0.needs_skill
                &&& gate == policy.gate
            },
            ReasonView::StageDisagreement { wide_top, rerank_top } => {
                &&& input.evidence is Some && input.evidence->0.wide is Some
                &&& input.evidence->0.rerank is Some
                &&& input.evidence->0.wide->0.shortlist@.len() > 0
                &&& wide_top == input.evidence->0.wide->0.shortlist@[0].0@
                &&& exists|i: int| #[trigger]
                    likeliest(input.evidence->0.rerank->0.candidates@, i)
                        && input.evidence->0.rerank->0.candidates@[i].id@ == rerank_top
                &&& wide_top != rerank_top
            },
            ReasonView::OverflowMiss => {
                &&& input.evidence is Some && input.evidence->0.quill_ranked
                &&& input.judgment is Some && input.judgment->0.positive()
                &&& forall|i: int|
                    0 <= i < input.evidence->0.admitted@.len() ==> !input.judgment->0.accepts(
                        (#[trigger] input.evidence->0.admitted@[i])@,
                    )
            },
            ReasonView::SparseStratum { stratum, cases } => {
                &&& input.stratum is Some && input.stratum->0@ == stratum
                &&& cases == stratum_keys(inputs, stratum).len()
                &&& cases < policy.sparse_below
            },
            ReasonView::UnresolvedJudgment => input.judgment is None,
        },
{
    let tops = stage_tops(input);
    let size = match input.stratum {
        Some(stratum) => stratum_keys(inputs, stratum@).len(),
        None => 0,
    };
    let near = ReasonView::NearGate {
        needs_skill: input.evidence->0.wide->0.needs_skill,
        gate: policy.gate,
    };
    let apart = ReasonView::StageDisagreement {
        wide_top: (tops->0).0,
        rerank_top: (tops->0).1,
    };
    let sparse = ReasonView::SparseStratum { stratum: input.stratum->0@, cases: size };
    let a = when(near_gate(input, policy), near);
    let b = when(tops is Some && (tops->0).0 != (tops->0).1, apart);
    let c = when(overflow_miss(input), ReasonView::OverflowMiss);
    let d = when(input.stratum is Some && size < policy.sparse_below, sparse);
    let e = when(input.judgment is None, ReasonView::UnresolvedJudgment);
    lemma_contained_in_sum(a, b, reason);
    lemma_contained_in_sum(a + b, c, reason);
    lemma_contained_in_sum(a + b + c, d, reason);
    lemma_contained_in_sum(a + b + c + d, e, reason);
    lemma_when(near_gate(input, policy), near, reason);
    lemma_when(tops is Some && (tops->0).0 != (tops->0).1, apart, reason);
    lemma_when(overflow_miss(input), ReasonView::OverflowMiss, reason);
    lemma_when(input.stratum is Some && size < policy.sparse_below, sparse, reason);
    lemma_when(input.judgment is None, ReasonView::UnresolvedJudgment, reason);
    assert(reasons_of(input, policy, inputs) == a + b + c + d + e);
    if reason is StageDisagreement && input.evidence is Some && input.evidence->0.rerank is Some {
        lemma_rerank_top(input.evidence->0.rerank->0.candidates@);
    }
}

proof fn lemma_rerank_top(candidates: Seq<RerankCandidate>)
    ensures
        forall|i: int| #[trigger]
            likeliest(candidates, i) ==> leader(RankBy::Probability, candidates, None, None)
                == Some(candidates[i].id@),
        leader(RankBy::Probability, candidates, None, None) is Some ==> exists|i: int| #[trigger]
            likeliest(candidates, i) && Some(candidates[i].id@) == leader(
                RankBy::Probability,
                candidates,
                None,
                None,
            ),
{
    assert forall|i: int| #[trigger] likeliest(candidates, i) implies leader(
        RankBy::Probability,
        candidates,
        None,
        None,
    ) == Some(candidates[i].id@) by {
        assert forall|j: int| 0 <= j < candidates.len() implies stands_above(
            RankBy::Probability,
            candidates[i],
            #[trigger] candidates[j],
        ) by {
            lemma_precedes_total(candidates[i].id@, candidates[j].id@);
        }
        assert(leads(RankBy::Probability, candidates, None, None, i));
        let k = choose|k: int| leads(RankBy::Probability, candidates, None, None, k);
        lemma_leader_unique(RankBy::Probability, candidates, None, None, i, k);
    }
    if leader(RankBy::Probability, candidates, None, None) is Some {
        let k = choose|k: int| leads(RankBy::Probability, candidates, None, None, k);
        assert(likeliest(candidates, k)) by {
            assert forall|j: int| 0 <= j < candidates.len() implies !(text_precedes(
                #[trigger] candidates[j].id@,
                candidates[k].id@,
            ) && text_precedes(candidates[k].id@, candidates[j].id@)) by {
                lemma_precedes_total(candidates[k].id@, candidates[j].id@);
            }
            assert forall|j: int| 0 <= j < candidates.len() implies stands_above(
                RankBy::Probability,
                candidates[k],
                #[trigger] candidates[j],
            ) by {
                assert(competes(candidates[j], None, None));
            }
        }
    }
}

/// The reasons of a case stand in one order, each once.
pub proof fn lemma_reasons_in_order<'a>(
    input: ReviewInput<'a>,
    policy: ReviewPolicy,
    inputs: Seq<ReviewInput<'a>>,
)
    ensures
        forall|i: int, j: int|
            0 <= i < j < reasons_of(input, policy, inputs).len() ==> place_of(
                #[trigger] reasons_of(input, policy, inputs)[i],
            ) < place_of(#[trigger] reasons_of(input, policy, inputs)[j]),
{
}

/// The cases of a stratum are those that some input names in it, each counted
/// once.
pub proof fn lemma_stratum_holds_its_cases<'a>(
    inputs: Seq<ReviewInput<'a>>,
    stratum: Seq<char>,
    key: CaseKeyView,
)
    ensures
        stratum_keys(inputs, stratum).finite(),
        stratum_keys(inputs, stratum).contains(key) <==> exists|i: int|
            0 <= i < inputs.len() && (#[trigger] inputs[i]).stratum is Some
                && inputs[i].stratum->0@ == stratum && inputs[i].key@ == key,
{
    lemma_stratum_keys(inputs, stratum, key);
    if exists|i: int|
        0 <= i < inputs.len() && (#[trigger] inputs[i]).stratum is Some && inputs[i].stratum->0@
            == stratum && inputs[i].key@ == key {
        let i = choose|i: int|
            0 <= i < inputs.len() && (#[trigger] inputs[i]).stratum is Some
                && inputs[i].stratum->0@ == stratum && inputs[i].key@ == key;
        assert(in_stratum(inputs[i], stratum));
    }
}

/// Whether an input is the first of its case that has a reason.
pub open spec fn first_reasoned<'a>(
    inputs: Seq<ReviewInput<'a>>,
    policy: ReviewPolicy,
    all: Seq<ReviewInput<'a>>,
    key: CaseKeyView,
    i: int,
) -> bool {
    &&& 0 <= i < inputs.len()
    &&& inputs[i].key@ == key
    &&& reasons_of(inputs[i], policy, all).len() > 0
    &&& forall|j: int|
        0 <= j < i && (#[trigger] inputs[j]).key@ == key ==> reasons_of(
            inputs[j],
            policy,
            all,
        ).len() == 0
}

proof fn lemma_first_split<'a>(
    prefix: Seq<ReviewInput<'a>>,
    policy: ReviewPolicy,
    all: Seq<ReviewInput<'a>>,
    key: CaseKeyView,
    i: int,
)
    requires
        first_reasoned(prefix, policy, all, key, i),
    ensures
        first_split(prefix, policy, all, key) == Some(prefix[i].split),
    decreases prefix.len(),
{
    let front = prefix.drop_last();
    if i < prefix.len() - 1 {
        assert forall|j: int| 0 <= j < i && (#[trigger] front[j]).key@ == key implies reasons_of(
            front[j],
            policy,
            all,
        ).len() == 0 by {
            assert(front[j] == prefix[j]);
        }
        lemma_first_split(front, policy, all, key, i);
    } else {
        assert forall|j: int|
            0 <= j < front.len() && (#[trigger] front[j]).key@ == key implies reasons_of(
            front[j],
            policy,
            all,
        ).len() == 0 by {
            assert(front[j] == prefix[j]);
        }
        lemma_no_split(front, policy, all, key);
    }
}

proof fn lemma_no_split<'a>(
    prefix: Seq<ReviewInput<'a>>,
    policy: ReviewPolicy,
    all: Seq<ReviewInput<'a>>,
    key: CaseKeyView,
)
    requires
        forall|j: int|
            0 <= j < prefix.len() && (#[trigger] prefix[j]).key@ == key ==> reasons_of(
                prefix[j],
                policy,
                all,
            ).len() == 0,
    ensures
        first_split(prefix, policy, all, key) is None,
    decreases prefix.len(),
{
    if prefix.len() > 0 {
        let front = prefix.drop_last();
        assert forall|j: int|
            0 <= j < front.len() && (#[trigger] front[j]).key@ == key implies reasons_of(
            front[j],
            policy,
            all,
        ).len() == 0 by {
            assert(front[j] == prefix[j]);
        }
        lemma_no_split(front, policy, all, key);
        assert(prefix[prefix.len() - 1] == prefix.last());
    }
}

/// An entry keeps the split of the first input of its case that has a reason.
pub proof fn lemma_entry_keeps_the_first_split<'a>(
    inputs: Seq<ReviewInput<'a>>,
    policy: ReviewPolicy,
    e: int,
    i: int,
)
    requires
        0 <= e < queue_of(inputs, policy).len(),
        first_reasoned(inputs, policy, inputs, queue_of(inputs, policy)[e].key, i),
    ensures
        queue_of(inputs, policy)[e].split == inputs[i].split,
{
    lemma_entry_split(named_keys(inputs), policy, inputs, e);
    lemma_first_split(inputs, policy, inputs, queue_of(inputs, policy)[e].key, i);
}

proof fn lemma_entry_split<'a>(
    keys: Seq<CaseKeyView>,
    policy: ReviewPolicy,
    inputs: Seq<ReviewInput<'a>>,
    e: int,
)
    requires
        0 <= e < entries_of(keys, policy, inputs).len(),
    ensures
        first_split(inputs, policy, inputs, entries_of(keys, policy, inputs)[e].key) == Some(
            entries_of(keys, policy, inputs)[e].split,
        ),
    decreases keys.len(),
{
    let rest = entries_of(keys.drop_last(), policy, inputs);
    if e < rest.len() {
        lemma_entry_split(keys.drop_last(), policy, inputs, e);
    }
}

} // verus!
