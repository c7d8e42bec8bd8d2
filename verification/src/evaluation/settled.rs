//! What a settled live batch hands to scoring.

use crate::evaluation::comparison::{
    ablates, compare_baselines, compares, context_ablation, has_percentiles, latency_summary,
    BaselineComparison, ABLATION_NOTE,
};
use crate::evaluation::frame::FrameRun;
use crate::evaluation::labels::{
    find_judgment, judgment_of, CaseKey, CaseKeyView, EvaluationCaseRecord, JudgedLabel,
    StageEvidence,
};
use crate::evaluation::live::{ExecutedCase, LiveBatch};
use crate::evaluation::preflight::DisclosurePreflight;
use crate::evaluation::report::{skipped_views, SkippedCase, SkippedView};
use crate::evaluation::review::{
    entry_views, queue_of, review_queue, ReviewInput, ReviewPolicy, ReviewQueue,
};
use crate::score::Score;
use crate::tally::{lemma_filter_step, tally};
use crate::text;
use vstd::prelude::*;
use vstd::string::*;

verus! {

/// An executed case as the review queue sees it.
pub open spec fn review_input<'a>(
    judgments: Seq<JudgedLabel>,
    e: ExecutedCase,
    gate_distance: Option<Score>,
) -> ReviewInput<'a> {
    ReviewInput {
        key: &e.record.key,
        split: e.record.split,
        stratum: None,
        evidence: match e.evidence {
            Some(evidence) => Some(&evidence),
            None => None,
        },
        gate_distance,
        judgment: match judgment_of(judgments, e.record.key.case_id@) {
            Some(label) => Some(&label),
            None => None,
        },
    }
}

/// The executed cases as the review queue sees them.
pub open spec fn review_inputs<'a>(
    judgments: Seq<JudgedLabel>,
    executed: Seq<ExecutedCase>,
    gate_distances: Seq<Option<Score>>,
) -> Seq<ReviewInput<'a>> {
    Seq::new(executed.len(), |i: int| review_input(judgments, executed[i], gate_distances[i]))
}

/// Texts that do not begin with a prefix.
pub open spec fn lacks_prefix(prefix: Seq<char>) -> spec_fn(String) -> bool {
    |s: String| !text::has_prefix(s@, prefix)
}

fn without_prefix(notes: Vec<String>, prefix: &str) -> (r: Vec<String>)
    ensures
        r@ == notes@.filter(lacks_prefix(prefix@)),
{
    let ghost all = notes@;
    let ghost p = lacks_prefix(prefix@);
    let mut kept: Vec<String> = Vec::new();
    proof {
        reveal(Seq::filter);
        assert(all.take(0) =~= Seq::<String>::empty());
    }
    for note in it: notes.into_iter()
        invariant
            it.seq() == all,
            p == lacks_prefix(prefix@),
            kept@ =~= all.take(it.index() as int).filter(p),
    {
        proof {
            lemma_filter_step(all, it.index() as int, p);
        }
        if !text::starts_with(note.as_str(), prefix) {
            kept.push(note);
        }
    }
    assert(all.take(all.len() as int) =~= all);
    kept
}

fn queue_for(
    judgments: &Vec<JudgedLabel>,
    executed: &Vec<ExecutedCase>,
    gate_distances: &Vec<Option<Score>>,
    gate: Score,
) -> (r: ReviewQueue)
    requires
        gate_distances@.len() == executed@.len(),
    ensures
        r.selection@ == "diagnostic-outcome-selected"@,
        r.denominator_effect@ == "none"@,
        r.policy.gate == gate,
        r.policy.near_gate_margin.bits == 0x3fa9_9999_9999_999a,
        r.policy.sparse_below == 3,
        entry_views(r.entries@) == queue_of(
            review_inputs(judgments@, executed@, gate_distances@),
            r.policy,
        ),
{
    let mut inputs: Vec<ReviewInput> = Vec::new();
    let mut i: usize = 0;
    while i < executed.len()
        invariant
            i <= executed@.len(),
            gate_distances@.len() == executed@.len(),
            inputs@ =~= review_inputs(judgments@, executed@, gate_distances@).take(i as int),
        decreases executed@.len() - i,
    {
        let e: &ExecutedCase = &executed[i];
        let evidence: Option<&StageEvidence> = match &e.evidence {
            Some(evidence) => Some(evidence),
            None => None,
        };
        let input = ReviewInput {
            key: &e.record.key,
            split: e.record.split,
            stratum: None,
            evidence,
            gate_distance: gate_distances[i],
            judgment: find_judgment(judgments, e.record.key.case_id.as_str()),
        };
        assert(input == review_input(judgments@, *e, gate_distances@[i as int]));
        inputs.push(input);
        i = i + 1;
    }
    assert(inputs@ =~= review_inputs(judgments@, executed@, gate_distances@));
    let mut policy: ReviewPolicy = ReviewPolicy::default();
    policy.gate = gate;
    review_queue(&inputs, policy)
}

/// The baselines of a settled batch.
pub open spec fn batch_compared(batch: LiveBatch, r: BaselineComparison) -> bool {
    let executed = batch.executed@;
    let judgments = batch.judgments@;
    &&& compares(r, executed, judgments, batch.budget.limits.fit_threshold)
    &&& r.not_computed@.len() == 0
    &&& r.latency_ms is None <==> executed.len() == 0
    &&& r.latency_ms is Some ==> has_percentiles(r.latency_ms->0, batch.production_elapsed@)
    &&& r.context_ablation is Some
    &&& ablates(r.context_ablation->0, executed, judgments, batch.arms@)
    &&& r.robustness == if batch.budget.limits.robustness_variants {
        Some(batch.robustness)
    } else {
        None
    }
}

/// What keys say.
pub open spec fn key_views(keys: Seq<CaseKey>) -> Seq<CaseKeyView> {
    Seq::new(keys.len(), |i: int| keys[i]@)
}

pub open spec fn skipped_under(key: CaseKeyView) -> spec_fn(SkippedView) -> bool {
    |s: SkippedView| s.key == key
}

pub open spec fn skipped_beside(key: CaseKeyView) -> spec_fn(SkippedView) -> bool {
    |s: SkippedView| s.key != key
}

/// Skipped cases in the order of a selection: those of its first key, then
/// those of its next, and at the end what it does not name.
pub open spec fn in_selection_order(keys: Seq<CaseKeyView>, skipped: Seq<SkippedView>) -> Seq<
    SkippedView,
>
    decreases keys.len(),
{
    if keys.len() == 0 {
        skipped
    } else {
        skipped.filter(skipped_under(keys[0])) + in_selection_order(
            keys.skip(1),
            skipped.filter(skipped_beside(keys[0])),
        )
    }
}

/// The place of a key in a selection: the first that holds it, or its end.
pub open spec fn place_of(keys: Seq<CaseKeyView>, key: CaseKeyView) -> int
    decreases keys.len(),
{
    if keys.len() == 0 || keys[0] == key {
        0
    } else {
        1 + place_of(keys.skip(1), key)
    }
}

proof fn lemma_skipped_parts(skipped: Seq<SkippedView>, key: CaseKeyView)
    ensures
        skipped.filter(skipped_under(key)).to_multiset().add(
            skipped.filter(skipped_beside(key)).to_multiset(),
        ) == skipped.to_multiset(),
        forall|i: int|
            0 <= i < skipped.filter(skipped_under(key)).len() ==> (#[trigger] skipped.filter(
                skipped_under(key),
            )[i]).key == key,
        forall|i: int|
            0 <= i < skipped.filter(skipped_beside(key)).len() ==> (#[trigger] skipped.filter(
                skipped_beside(key),
            )[i]).key != key,
    decreases skipped.len(),
{
    broadcast use vstd::seq_lib::group_to_multiset_ensures;

    reveal(Seq::filter);
    if skipped.len() > 0 {
        let front = skipped.drop_last();
        let last = skipped.last();
        lemma_skipped_parts(front, key);
        assert(skipped =~= front.push(last));
        let under = front.filter(skipped_under(key));
        let beside = front.filter(skipped_beside(key));
        if last.key == key {
            assert(under.push(last).to_multiset().add(beside.to_multiset())
                =~= under.to_multiset().add(beside.to_multiset()).insert(last));
        } else {
            assert(under.to_multiset().add(beside.push(last).to_multiset())
                =~= under.to_multiset().add(beside.to_multiset()).insert(last));
        }
    } else {
        assert(skipped.filter(skipped_under(key)) =~= skipped);
        assert(skipped.filter(skipped_beside(key)) =~= skipped);
        assert(skipped.to_multiset().add(skipped.to_multiset()) =~= skipped.to_multiset());
    }
}

/// Ordering skipped cases loses and repeats none of them, and no case stands
/// before one that was selected before it.
pub proof fn lemma_skipped_in_selection_order(
    keys: Seq<CaseKeyView>,
    skipped: Seq<SkippedView>,
)
    ensures
        in_selection_order(keys, skipped).to_multiset() == skipped.to_multiset(),
        forall|i: int, j: int|
            0 <= i < j < in_selection_order(keys, skipped).len() ==> place_of(
                keys,
                (#[trigger] in_selection_order(keys, skipped)[i]).key,
            ) <= place_of(keys, (#[trigger] in_selection_order(keys, skipped)[j]).key),
    decreases keys.len(),
{
    if keys.len() > 0 {
        let under = skipped.filter(skipped_under(keys[0]));
        let beside = skipped.filter(skipped_beside(keys[0]));
        let rest = in_selection_order(keys.skip(1), beside);
        let all = in_selection_order(keys, skipped);
        lemma_skipped_parts(skipped, keys[0]);
        lemma_skipped_in_selection_order(keys.skip(1), beside);
        vstd::seq_lib::lemma_multiset_commutative(under, rest);
        assert forall|i: int| 0 <= i < rest.len() implies (#[trigger] rest[i]).key != keys[0] by {
            broadcast use vstd::seq_lib::group_to_multiset_ensures;

            assert(rest.contains(rest[i]));
            assert(rest.to_multiset().contains(rest[i]));
            assert(beside.to_multiset().contains(rest[i]));
            assert(beside.contains(rest[i]));
        }
        assert forall|i: int, j: int| 0 <= i < j < all.len() implies place_of(
            keys,
            (#[trigger] all[i]).key,
        ) <= place_of(keys, (#[trigger] all[j]).key) by {
            lemma_place_bound(keys, all[j].key);
            if i < under.len() {
                assert(all[i] == under[i]);
            } else {
                assert(all[i] == rest[i - under.len()]);
                assert(all[j] == rest[j - under.len()]);
            }
        }
    }
}

proof fn lemma_place_bound(keys: Seq<CaseKeyView>, key: CaseKeyView)
    ensures
        0 <= place_of(keys, key) <= keys.len(),
    decreases keys.len(),
{
    if keys.len() > 0 && keys[0] != key {
        lemma_place_bound(keys.skip(1), key);
    }
}

/// Skipped cases under a key, and beside it.
fn part_skipped(skipped: Vec<SkippedCase>, key: &CaseKey) -> (r: (Vec<SkippedCase>, Vec<
    SkippedCase,
>))
    ensures
        skipped_views(r.0@) == skipped_views(skipped@).filter(skipped_under(key@)),
        skipped_views(r.1@) == skipped_views(skipped@).filter(skipped_beside(key@)),
{
    let ghost all = skipped@;
    let ghost said = skipped_views(all);
    let mut under: Vec<SkippedCase> = Vec::new();
    let mut beside: Vec<SkippedCase> = Vec::new();
    proof {
        reveal(Seq::filter);
        assert(skipped_views(under@) =~= said.take(0).filter(skipped_under(key@)));
        assert(skipped_views(beside@) =~= said.take(0).filter(skipped_beside(key@)));
    }
    for case in it: skipped.into_iter()
        invariant
            it.seq() == all,
            said == skipped_views(all),
            skipped_views(under@) == said.take(it.index() as int).filter(skipped_under(key@)),
            skipped_views(beside@) == said.take(it.index() as int).filter(skipped_beside(key@)),
    {
        let ghost i = it.index() as int;
        let ghost before_under = under@;
        let ghost before_beside = beside@;
        proof {
            assert(said[i] == case@);
            lemma_filter_step(said, i, skipped_under(key@));
            lemma_filter_step(said, i, skipped_beside(key@));
        }
        if case.key.same(key) {
            under.push(case);
            assert(skipped_views(under@) =~= skipped_views(before_under).push(case@));
        } else {
            beside.push(case);
            assert(skipped_views(beside@) =~= skipped_views(before_beside).push(case@));
        }
    }
    assert(said.take(said.len() as int) =~= said);
    (under, beside)
}

/// Put skipped cases into the order of a selection.
pub fn order_skipped(selected: &Vec<CaseKey>, skipped: Vec<SkippedCase>) -> (r: Vec<SkippedCase>)
    ensures
        skipped_views(r@) == in_selection_order(key_views(selected@), skipped_views(skipped@)),
{
    let ghost keys = key_views(selected@);
    let ghost target = in_selection_order(keys, skipped_views(skipped@));
    let mut out: Vec<SkippedCase> = Vec::new();
    let mut rest: Vec<SkippedCase> = skipped;
    let mut i: usize = 0;
    proof {
        assert(keys.skip(0) =~= keys);
        assert(skipped_views(out@) + target =~= target);
    }
    while i < selected.len()
        invariant
            i <= selected@.len(),
            keys == key_views(selected@),
            skipped_views(out@) + in_selection_order(keys.skip(i as int), skipped_views(rest@))
                == target,
        decreases selected@.len() - i,
    {
        let ghost before = out@;
        let ghost left = keys.skip(i as int);
        proof {
            assert(left[0] == keys[i as int]);
            assert(keys[i as int] == selected@[i as int]@);
            assert(left.skip(1) =~= keys.skip(i + 1));
        }
        let (under, beside): (Vec<SkippedCase>, Vec<SkippedCase>) = part_skipped(
            rest,
            &selected[i],
        );
        let ghost taken = under@;
        let mut more: Vec<SkippedCase> = under;
        out.append(&mut more);
        rest = beside;
        i = i + 1;
        proof {
            assert(skipped_views(out@) =~= skipped_views(before) + skipped_views(taken));
            assert(skipped_views(out@) + in_selection_order(
                keys.skip(i as int),
                skipped_views(rest@),
            ) =~= skipped_views(before) + (skipped_views(taken) + in_selection_order(
                keys.skip(i as int),
                skipped_views(rest@),
            )));
        }
    }
    let ghost before = out@;
    let ghost last = rest@;
    out.append(&mut rest);
    assert(skipped_views(out@) =~= skipped_views(before) + skipped_views(last));
    out
}

/// What keyed times say.
pub open spec fn time_views(times: Seq<(CaseKey, u64)>) -> Seq<(CaseKeyView, u64)> {
    Seq::new(times.len(), |i: int| (times[i].0@, times[i].1))
}

/// Whether a frame run holds what a settled batch came to.
pub open spec fn batch_settled(
    batch: LiveBatch,
    selected: Seq<CaseKey>,
    gate_distances: Seq<Option<Score>>,
    preflight: DisclosurePreflight,
    records: Seq<EvaluationCaseRecord>,
    run: FrameRun,
) -> bool {
    let inputs = review_inputs(batch.judgments@, batch.executed@, gate_distances);
    &&& records == Seq::new(batch.executed@.len(), |i: int| batch.executed@[i].record)
    &&& run.evidence_origin@ == "live"@
    &&& run.accounting == batch.budget.accounting
    &&& skipped_views(run.skipped@) == in_selection_order(
        key_views(selected),
        skipped_views(batch.skipped@),
    )
    &&& run.error == match batch.budget.stopped {
        Some(cause) => Some(cause.error),
        None => None,
    }
    &&& time_views(run.elapsed@) == Seq::new(
        batch.executed@.len(),
        |i: int| (batch.executed@[i].record.key@, batch.executed@[i].elapsed_ms),
    )
    &&& run.preflight == Some(preflight)
    &&& run.baselines is Some
    &&& batch_compared(batch, run.baselines->0)
    &&& run.review_queue is Some
    &&& run.review_queue->0.policy.gate == batch.budget.limits.gate_threshold
    &&& run.review_queue->0.policy.near_gate_margin.bits == 0x3fa9_9999_9999_999a
    &&& run.review_queue->0.policy.sparse_below == 3
    &&& run.review_queue->0.selection@ == "diagnostic-outcome-selected"@
    &&& run.review_queue->0.denominator_effect@ == "none"@
    &&& entry_views(run.review_queue->0.entries@) == queue_of(
        inputs,
        run.review_queue->0.policy,
    )
}

impl LiveBatch {
    /// Close a batch: the records to score, and how they were produced. Its
    /// skipped cases come in the order they were selected, whenever they were
    /// skipped.
    pub fn finish(
        self,
        selected: &Vec<CaseKey>,
        gate_distances: &Vec<Option<Score>>,
        preflight: DisclosurePreflight,
    ) -> (r: (Vec<EvaluationCaseRecord>, FrameRun))
        requires
            self.wf(),
            gate_distances@.len() == self.executed@.len(),
            2 * self.executed@.len() <= u32::MAX,
        ensures
            batch_settled(self, selected@, gate_distances@, preflight, r.0@, r.1),
    {
        let review: ReviewQueue = queue_for(
            &self.judgments,
            &self.executed,
            gate_distances,
            self.budget.limits.gate_threshold,
        );
        let mut comparison: BaselineComparison = compare_baselines(
            &self.executed,
            &self.judgments,
            self.budget.limits.fit_threshold,
        );
        let notes: Vec<String> = without_prefix(comparison.not_computed, "context ablation");
        proof {
            reveal_strlit("context ablation");
            reveal_strlit(
                "context ablation: needs a second, latest-request-only run of every case",
            );
            let given = comparison.not_computed@;
            assert(text::views(given).len() == 1);
            assert(given[0]@ == text::views(given)[0]);
            assert(ABLATION_NOTE@.take("context ablation"@.len() as int) =~= "context ablation"@);
            assert(given.drop_last() =~= Seq::<String>::empty());
            reveal(Seq::filter);
            assert(given.drop_last().filter(lacks_prefix("context ablation"@)).len() == 0);
            assert(given.last() == given[0]);
            assert(!lacks_prefix("context ablation"@)(given.last()));
            assert(notes@.len() == 0);
        }
        let ablation = context_ablation(&self.executed, &self.judgments, &self.arms);
        let baselines = BaselineComparison {
            coverage: comparison.coverage,
            policies: comparison.policies,
            cases_without_evidence: comparison.cases_without_evidence,
            operational_failures: comparison.operational_failures,
            explicit_cases_excluded: comparison.explicit_cases_excluded,
            not_computed: notes,
            shared_cohort_cases: comparison.shared_cohort_cases,
            excluded_unscorable: comparison.excluded_unscorable,
            complete: comparison.complete,
            fit_calibration: comparison.fit_calibration,
            latency_ms: latency_summary(self.production_elapsed),
            context_ablation: Some(ablation),
            robustness: if self.budget.limits.robustness_variants {
                Some(self.robustness)
            } else {
                None
            },
        };
        let ghost all = self.executed@;
        let mut records: Vec<EvaluationCaseRecord> = Vec::new();
        let mut elapsed: Vec<(CaseKey, u64)> = Vec::new();
        for e in it: self.executed.into_iter()
            invariant
                it.seq() == all,
                records@ =~= Seq::new(it.index() as nat, |i: int| all[i].record),
                time_views(elapsed@) =~= Seq::new(
                    it.index() as nat,
                    |i: int| (all[i].record.key@, all[i].elapsed_ms),
                ),
        {
            let ghost before = elapsed@;
            elapsed.push((e.record.key.copy(), e.elapsed_ms));
            assert(time_views(elapsed@) =~= time_views(before).push(
                (e.record.key@, e.elapsed_ms),
            ));
            records.push(e.record);
        }
        let run = FrameRun {
            evidence_origin: "live".to_owned(),
            accounting: self.budget.accounting,
            skipped: order_skipped(selected, self.skipped),
            error: match self.budget.stopped {
                Some(cause) => Some(cause.error),
                None => None,
            },
            elapsed,
            preflight: Some(preflight),
            baselines: Some(baselines),
            review_queue: Some(review),
        };
        (records, run)
    }
}

/// The place of a key in a selection is the first that holds it, and behind the
/// last where none does.
pub proof fn lemma_place_is_the_first(keys: Seq<CaseKeyView>, key: CaseKeyView)
    ensures
        0 <= place_of(keys, key) <= keys.len(),
        place_of(keys, key) < keys.len() ==> keys[place_of(keys, key)] == key,
        forall|i: int| 0 <= i < place_of(keys, key) ==> #[trigger] keys[i] != key,
    decreases keys.len(),
{
    if keys.len() > 0 && keys[0] != key {
        let rest = keys.skip(1);
        lemma_place_is_the_first(rest, key);
        assert forall|i: int| 0 <= i < place_of(keys, key) implies #[trigger] keys[i] != key by {
            if i > 0 {
                assert(rest[i - 1] == keys[i]);
            }
        }
    }
}

/// A settled batch hands over each case it ranked with the time that the ranking
/// took, its own totals and the error that stopped it. Latencies are those of
/// production, the ablation and the variants stand in the comparison, the latter
/// where they were asked for, and each ranked case is offered to the review with
/// its own evidence, distance and judgment.
pub proof fn lemma_settled_batch_hands_over_its_cases(
    batch: LiveBatch,
    selected: Seq<CaseKey>,
    gate_distances: Seq<Option<Score>>,
    preflight: DisclosurePreflight,
    records: Seq<EvaluationCaseRecord>,
    run: FrameRun,
    i: int,
)
    requires
        batch_settled(batch, selected, gate_distances, preflight, records, run),
        0 <= i < batch.executed@.len(),
    ensures
        records.len() == batch.executed@.len() && run.elapsed@.len() == batch.executed@.len(),
        records[i] == batch.executed@[i].record,
        run.elapsed@[i].0@ == batch.executed@[i].record.key@,
        run.elapsed@[i].1 == batch.executed@[i].elapsed_ms,
        run.accounting == batch.budget.accounting,
        run.preflight == Some(preflight),
        run.error is Some <==> batch.budget.stopped is Some,
        run.error is Some ==> run.error->0 == batch.budget.stopped->0.error,
        run.skipped@.len() == batch.skipped@.len(),
        run.baselines->0.latency_ms is Some && has_percentiles(
            run.baselines->0.latency_ms->0,
            batch.production_elapsed@,
        ),
        run.baselines->0.robustness is Some <==> batch.budget.limits.robustness_variants,
        run.baselines->0.robustness is Some ==> run.baselines->0.robustness->0
            == batch.robustness,
        run.review_queue->0.policy.gate == batch.budget.limits.gate_threshold,
        ({
            let input = review_inputs(batch.judgments@, batch.executed@, gate_distances)[i];
            let case = batch.executed@[i];
            &&& input.key@ == case.record.key@ && input.split == case.record.split
            &&& input.stratum is None
            &&& input.gate_distance == gate_distances[i]
            &&& input.evidence is Some <==> case.evidence is Some
            &&& input.evidence is Some ==> *input.evidence->0 == case.evidence->0
            &&& input.judgment is Some <==> judgment_of(
                batch.judgments@,
                case.record.key.case_id@,
            ) is Some
            &&& input.judgment is Some ==> *input.judgment->0 == judgment_of(
                batch.judgments@,
                case.record.key.case_id@,
            )->0
        }),
{
    assert(time_views(run.elapsed@).len() == run.elapsed@.len());
    assert(time_views(run.elapsed@)[i] == (run.elapsed@[i].0@, run.elapsed@[i].1));
    lemma_skipped_in_selection_order(key_views(selected), skipped_views(batch.skipped@));
    let ordered = in_selection_order(key_views(selected), skipped_views(batch.skipped@));
    broadcast use vstd::seq_lib::group_to_multiset_ensures;

    assert(ordered.to_multiset().len() == ordered.len());
    assert(skipped_views(batch.skipped@).to_multiset().len() == skipped_views(
        batch.skipped@,
    ).len());
    assert(skipped_views(run.skipped@).len() == run.skipped@.len());
}

} // verus!
