//! What a live batch will disclose, frozen before its first request.

use crate::digest::{blake3_digest, hex, hex_digest};
use crate::evaluation::labels::{
    find_judgment, judgment_of, CaseKey, CaseKeyView, EvaluationCaseRecord, JudgedLabel,
};
use crate::evaluation::live::QueuedCase;
use crate::evaluation::report::{
    skipped_views, SkipStatus, SkippedCase, SkippedView, StatusView,
};
use crate::evaluation::variants::LiveEvaluationCase;
use crate::json;
use crate::json::{json_bytes, json_of, natural_or_zero};
use crate::tally::{lemma_filter_step, lemma_tally_step, lemma_total_step, tally, total};
use crate::text;
use crate::text::{lemma_occurs_between, occurs};
use serde_json::Value;
use vstd::bytes::{spec_u64_to_le_bytes, u64_to_le_bytes};
use vstd::prelude::*;
use vstd::string::*;
use vstd::utf8::encode_utf8;

verus! {

/// A case waiting for its ranking.
pub fn pending_case(case: LiveEvaluationCase) -> (r: QueuedCase)
    ensures
        r.case == case,
        r.record.key == case.key,
        r.record.split == case.split,
        r.record.decision@ == "pending"@,
        r.record.suggested_skills@.len() == 0,
        !r.record.relevance_abstention,
        !r.record.operational_failure,
{
    QueuedCase {
        record: EvaluationCaseRecord {
            key: case.key.copy(),
            split: case.split,
            decision: "pending".to_owned(),
            suggested_skills: Vec::new(),
            relevance_abstention: false,
            operational_failure: false,
        },
        case,
    }
}

/// Whether a case at a place is the one a key names: the last with that key.
pub open spec fn named_at(cases: Seq<LiveEvaluationCase>, key: CaseKeyView, i: int) -> bool {
    &&& 0 <= i < cases.len()
    &&& cases[i].key@ == key
    &&& forall|j: int| i < j < cases.len() ==> (#[trigger] cases[j]).key@ != key
}

/// Whether a key names one of some cases.
pub open spec fn has_case(cases: Seq<LiveEvaluationCase>, key: CaseKeyView) -> bool {
    exists|i: int| 0 <= i < cases.len() && (#[trigger] cases[i]).key@ == key
}

/// Whether a queued case is what a key names among some cases.
pub open spec fn queued_for(
    cases: Seq<LiveEvaluationCase>,
    key: CaseKeyView,
    queued: QueuedCase,
) -> bool {
    exists|i: int|
        #[trigger] named_at(cases, key, i) && cases[i].varied_to(
            queued.case,
            json_of(cases[i].context),
        ) && queued.record.key == queued.case.key && queued.record.split == queued.case.split
            && queued.record.decision@ == "pending"@ && queued.record.suggested_skills@.len() == 0
            && !queued.record.relevance_abstention && !queued.record.operational_failure
}

fn find_case(cases: &Vec<LiveEvaluationCase>, key: &CaseKey) -> (r: Option<usize>)
    ensures
        r is Some ==> named_at(cases@, key@, r->0 as int),
        r is Some <==> has_case(cases@, key@),
{
    let mut i: usize = cases.len();
    while i > 0
        invariant
            i <= cases@.len(),
            forall|j: int| i <= j < cases@.len() ==> (#[trigger] cases@[j]).key@ != key@,
        decreases i,
    {
        if cases[i - 1].key.same(key) {
            return Some(i - 1);
        }
        i = i - 1;
    }
    None
}

/// Queue the selected cases, in selection order. Nothing where a selected key
/// names no case.
pub fn queue_selected(cases: &Vec<LiveEvaluationCase>, selected: &Vec<CaseKey>) -> (r: Option<
    Vec<QueuedCase>,
>)
    ensures
        r is Some <==> forall|k: int|
            0 <= k < selected@.len() ==> has_case(cases@, (#[trigger] selected@[k])@),
        r is Some ==> r->0@.len() == selected@.len(),
        r is Some ==> forall|k: int|
            0 <= k < selected@.len() ==> queued_for(
                cases@,
                selected@[k]@,
                #[trigger] r->0@[k],
            ),
{
    let mut queue: Vec<QueuedCase> = Vec::new();
    let mut k: usize = 0;
    while k < selected.len()
        invariant
            k <= selected@.len(),
            queue@.len() == k,
            forall|j: int|
                0 <= j < k ==> queued_for(cases@, selected@[j]@, #[trigger] queue@[j]),
            forall|j: int| 0 <= j < k ==> has_case(cases@, (#[trigger] selected@[j])@),
        decreases selected@.len() - k,
    {
        let at: usize = match find_case(cases, &selected[k]) {
            Some(at) => at,
            None => {
                assert(!has_case(cases@, selected@[k as int]@));
                return None;
            },
        };
        let case: &LiveEvaluationCase = &cases[at];
        let copy = LiveEvaluationCase {
            schema_version: case.schema_version,
            key: case.key.copy(),
            split: case.split,
            context: json::copy(&case.context),
        };
        let queued: QueuedCase = pending_case(copy);
        assert(named_at(cases@, selected@[k as int]@, at as int));
        assert(queued_for(cases@, selected@[k as int]@, queued));
        queue.push(queued);
        k = k + 1;
    }
    Some(queue)
}

/// Whether a judgment names a skill that a roster lacks.
pub open spec fn off_roster(label: JudgedLabel, roster: Seq<String>) -> bool {
    ||| exists|i: int|
        0 <= i < label.acceptable_skills@.len() && !text::lists(
            roster,
            (#[trigger] label.acceptable_skills@[i])@,
        )
    ||| label.explicit_directive is Some && !text::lists(roster, label.explicit_directive->0@)
}

/// Why a selected case is not sent at all.
pub open spec fn unsendable(
    judgments: Seq<JudgedLabel>,
    roster: Seq<String>,
    case_id: Seq<char>,
) -> Option<Seq<char>> {
    match judgment_of(judgments, case_id) {
        None => Some("no independent judgment for this case; not sent"@),
        Some(label) => if off_roster(label, roster) {
            Some("a judged skill is absent from the current roster; not sent"@)
        } else {
            None
        },
    }
}

fn leaves_roster(label: &JudgedLabel, roster: &Vec<String>) -> (r: bool)
    ensures
        r == off_roster(*label, roster@),
{
    let mut i: usize = 0;
    while i < label.acceptable_skills.len()
        invariant
            i <= label.acceptable_skills@.len(),
            forall|j: int|
                0 <= j < i ==> text::lists(roster@, (#[trigger] label.acceptable_skills@[j])@),
        decreases label.acceptable_skills@.len() - i,
    {
        if !text::contains(roster, label.acceptable_skills[i].as_str()) {
            return true;
        }
        i = i + 1;
    }
    match &label.explicit_directive {
        Some(skill) => !text::contains(roster, skill.as_str()),
        None => false,
    }
}

/// Whether a queued case may be sent.
pub open spec fn sendable(judgments: Seq<JudgedLabel>, roster: Seq<String>) -> spec_fn(
    QueuedCase,
) -> bool {
    |q: QueuedCase| unsendable(judgments, roster, q.record.key.case_id@) is None
}

/// Whether a queued case may not be sent.
pub open spec fn withheld(judgments: Seq<JudgedLabel>, roster: Seq<String>) -> spec_fn(
    QueuedCase,
) -> bool {
    |q: QueuedCase| unsendable(judgments, roster, q.record.key.case_id@) is Some
}

/// What is reported of cases that may not be sent.
pub open spec fn withheld_views(
    judgments: Seq<JudgedLabel>,
    roster: Seq<String>,
    cases: Seq<QueuedCase>,
) -> Seq<SkippedView> {
    Seq::new(
        cases.len(),
        |i: int|
            SkippedView {
                key: cases[i].record.key@,
                status: StatusView::NotEstimable {
                    reason: unsendable(judgments, roster, cases[i].record.key.case_id@)->0,
                },
            },
    )
}

/// Part the selected cases: those to preview, and those without an independent
/// judgment or whose judgment names a skill absent from the roster. The latter
/// are not estimable and are never sent.
pub fn part_selected(
    selected: Vec<QueuedCase>,
    judgments: &Vec<JudgedLabel>,
    roster: &Vec<String>,
) -> (r: (Vec<QueuedCase>, Vec<SkippedCase>))
    ensures
        r.0@ == selected@.filter(sendable(judgments@, roster@)),
        skipped_views(r.1@) == withheld_views(
            judgments@,
            roster@,
            selected@.filter(withheld(judgments@, roster@)),
        ),
{
    let ghost all = selected@;
    let ghost yes = sendable(judgments@, roster@);
    let ghost no = withheld(judgments@, roster@);
    let mut pending: Vec<QueuedCase> = Vec::new();
    let mut skipped: Vec<SkippedCase> = Vec::new();
    proof {
        reveal(Seq::filter);
        assert(all.take(0) =~= Seq::<QueuedCase>::empty());
    }
    for queued in it: selected.into_iter()
        invariant
            it.seq() == all,
            yes == sendable(judgments@, roster@),
            no == withheld(judgments@, roster@),
            pending@ =~= all.take(it.index() as int).filter(yes),
            skipped_views(skipped@) =~= withheld_views(
                judgments@,
                roster@,
                all.take(it.index() as int).filter(no),
            ),
    {
        let ghost i = it.index() as int;
        let ghost before = skipped@;
        proof {
            lemma_filter_step(all, i, yes);
            lemma_filter_step(all, i, no);
        }
        assert(queued == all[i]);
        let reason: Option<&str> = match find_judgment(
            judgments,
            queued.record.key.case_id.as_str(),
        ) {
            None => Some("no independent judgment for this case; not sent"),
            Some(label) => if leaves_roster(label, roster) {
                Some("a judged skill is absent from the current roster; not sent")
            } else {
                None
            },
        };
        match reason {
            Some(reason) => {
                skipped.push(
                    SkippedCase {
                        key: queued.record.key,
                        status: SkipStatus::NotEstimable { reason: reason.to_owned() },
                    },
                );
                assert(skipped_views(skipped@) =~= skipped_views(before).push(skipped@.last()@));
            },
            None => {
                pending.push(queued);
            },
        }
    }
    assert(all.take(all.len() as int) =~= all);
    (pending, skipped)
}

/// What a case's local preview came to.
pub enum Preview {
    /// The receipt of the request a live run would send.
    Receipt(Value),
    /// The preview ends locally: a live run sends nothing.
    Local,
    /// The preview was refused, with the kind of its error.
    Refused(String),
}

/// The frozen disclosure of a batch: every case to be sent was previewed
/// locally, and a case whose preview was refused is never sent.
#[derive(Clone, Debug, PartialEq, Eq)]
pub struct DisclosurePreflight {
    /// What this preflight covers and what it does not.
    pub scope: String,
    pub cases_checked: usize,
    pub cases_refused: usize,
    /// Cases whose preview ends locally, so a live run sends nothing for them.
    pub cases_without_request: usize,
    /// Exact bytes of every previewed wide request, as sent.
    pub wide_request_bytes: u64,
    /// The rendered context before per-stage trimming.
    pub disclosed_bytes: u64,
    pub total_redactions: u64,
    pub total_truncated: u64,
    pub total_omitted: u64,
    /// The digest of each checked case's identity and receipt, in selection order.
    pub receipts_digest: String,
}

pub const PREFLIGHT_SCOPE: &'static str = "Wide requests exactly as previewed, each bound to its send by digest; receipt counts describe the context before per-stage trimming. Rerank requests (which add shortlisted skill descriptions and excerpts), context-ablation arms (a subset of the previewed context) and robustness variants (fixed synthetic text added) are not previewed.";

pub open spec fn preview_refused() -> spec_fn(Preview) -> bool {
    |p: Preview| p is Refused
}

pub open spec fn preview_local() -> spec_fn(Preview) -> bool {
    |p: Preview| p is Local
}

/// A count that the receipt of a preview gives, or zero.
pub open spec fn receipt_count(name: Seq<char>) -> spec_fn(Preview) -> nat {
    |p: Preview|
        match p {
            Preview::Receipt(receipt) => natural_or_zero(json_of(receipt).member(name)) as nat,
            _ => 0,
        }
}

/// A length as the eight bytes that stand before what it measures.
pub open spec fn framed(bytes: Seq<u8>) -> Seq<u8> {
    spec_u64_to_le_bytes(bytes.len() as u64) + bytes
}

/// What one previewed case adds to the digested bytes.
pub open spec fn preview_bytes(case_id: Seq<char>, preview: Preview) -> Seq<u8> {
    framed(encode_utf8(case_id)) + match preview {
        Preview::Receipt(receipt) => framed(json_bytes(json_of(receipt))),
        Preview::Local => framed(encode_utf8("null"@)),
        Preview::Refused(kind) => encode_utf8("refused\0"@) + encode_utf8(kind@),
    }
}

/// The digested bytes of a batch: what it is, then each case in order.
pub open spec fn preflight_bytes(cases: Seq<QueuedCase>, previews: Seq<Preview>) -> Seq<u8>
    decreases previews.len(),
{
    if previews.len() == 0 {
        encode_utf8("skillranker:live_disclosure_preflight:v1\n"@)
    } else {
        preflight_bytes(cases, previews.drop_last()) + preview_bytes(
            cases[previews.len() - 1].record.key.case_id@,
            previews.last(),
        )
    }
}

/// The cases whose preview was not refused, in order.
pub open spec fn cleared(cases: Seq<QueuedCase>, previews: Seq<Preview>) -> Seq<QueuedCase>
    decreases previews.len(),
{
    if previews.len() == 0 {
        Seq::empty()
    } else {
        let rest = cleared(cases, previews.drop_last());
        if previews.last() is Refused {
            rest
        } else {
            rest.push(cases[previews.len() - 1])
        }
    }
}

/// What is reported of the cases whose preview was refused, in order.
pub open spec fn refusals(cases: Seq<QueuedCase>, previews: Seq<Preview>) -> Seq<SkippedView>
    decreases previews.len(),
{
    if previews.len() == 0 {
        Seq::empty()
    } else {
        let rest = refusals(cases, previews.drop_last());
        match previews.last() {
            Preview::Refused(kind) => rest.push(
                SkippedView {
                    key: cases[previews.len() - 1].record.key@,
                    status: StatusView::NotEstimable {
                        reason: "disclosure preflight refused ("@ + kind@ + "); not sent"@,
                    },
                },
            ),
            _ => rest,
        }
    }
}

/// Whether the totals of the receipts can be held.
pub open spec fn receipts_fit(previews: Seq<Preview>) -> bool {
    &&& total(previews, receipt_count("disclosed_bytes"@)) <= u64::MAX
    &&& total(previews, receipt_count("wide_request_bytes"@)) <= u64::MAX
    &&& total(previews, receipt_count("total_redactions"@)) <= u64::MAX
    &&& total(previews, receipt_count("total_truncated"@)) <= u64::MAX
    &&& total(previews, receipt_count("total_omitted"@)) <= u64::MAX
}

fn count_of(preview: &Preview, name: &str) -> (r: u64)
    ensures
        r == receipt_count(name@)(*preview),
{
    match preview {
        Preview::Receipt(receipt) => json::member_natural(receipt, name),
        _ => 0,
    }
}

/// The total of a receipt count over a batch, where it can be held.
pub fn receipt_total(previews: &Vec<Preview>, name: &str) -> (r: Option<u64>)
    ensures
        r is Some <==> total(previews@, receipt_count(name@)) <= u64::MAX,
        r is Some ==> r->0 == total(previews@, receipt_count(name@)),
{
    let ghost f = receipt_count(name@);
    let mut sum: u64 = 0;
    let mut i: usize = 0;
    while i < previews.len()
        invariant
            i <= previews@.len(),
            f == receipt_count(name@),
            sum == total(previews@.take(i as int), f),
        decreases previews@.len() - i,
    {
        let more: u64 = count_of(&previews[i], name);
        proof {
            lemma_total_step(previews@, i as int, f);
        }
        match sum.checked_add(more) {
            Some(next) => {
                sum = next;
            },
            None => {
                proof {
                    lemma_total_prefix(previews@, (i + 1) as int, f);
                }
                return None;
            },
        }
        i = i + 1;
    }
    assert(previews@.take(i as int) =~= previews@);
    Some(sum)
}

proof fn lemma_total_prefix<A>(s: Seq<A>, i: int, f: spec_fn(A) -> nat)
    requires
        0 <= i <= s.len(),
    ensures
        total(s.take(i), f) <= total(s, f),
    decreases s.len() - i,
{
    if i == s.len() {
        assert(s.take(i) =~= s);
    } else {
        lemma_total_step(s, i, f);
        lemma_total_prefix(s, i + 1, f);
    }
}

fn push_framed(out: &mut Vec<u8>, bytes: &[u8])
    ensures
        final(out)@ == old(out)@ + framed(bytes@),
{
    let mut length: Vec<u8> = u64_to_le_bytes(bytes.len() as u64);
    let ghost before = out@;
    out.append(&mut length);
    push_bytes(out, bytes);
    assert(out@ =~= before + framed(bytes@));
}

fn push_bytes(out: &mut Vec<u8>, bytes: &[u8])
    ensures
        final(out)@ == old(out)@ + bytes@,
{
    let ghost before = out@;
    let mut i: usize = 0;
    while i < bytes.len()
        invariant
            i <= bytes@.len(),
            out@ =~= before + bytes@.take(i as int),
        decreases bytes@.len() - i,
    {
        out.push(bytes[i]);
        i = i + 1;
    }
    assert(bytes@.take(i as int) =~= bytes@);
}

/// Whether a preflight says of previewed cases what it is to say: how many were
/// checked, refused and made no request, what the receipts of the others sum up
/// to, which cases go on and which were refused.
pub open spec fn frozen(
    preflight: DisclosurePreflight,
    admitted: Seq<QueuedCase>,
    refused: Seq<SkippedCase>,
    pending: Seq<QueuedCase>,
    previews: Seq<Preview>,
) -> bool {
    &&& preflight.scope@ == PREFLIGHT_SCOPE@
    &&& preflight.cases_checked == pending.len()
    &&& preflight.cases_refused == tally(previews, preview_refused())
    &&& preflight.cases_without_request == tally(previews, preview_local())
    &&& preflight.disclosed_bytes == total(previews, receipt_count("disclosed_bytes"@))
    &&& preflight.wide_request_bytes == total(previews, receipt_count("wide_request_bytes"@))
    &&& preflight.total_redactions == total(previews, receipt_count("total_redactions"@))
    &&& preflight.total_truncated == total(previews, receipt_count("total_truncated"@))
    &&& preflight.total_omitted == total(previews, receipt_count("total_omitted"@))
    &&& preflight.receipts_digest@ == hex(blake3_digest(preflight_bytes(pending, previews)))
    &&& admitted == cleared(pending, previews)
    &&& skipped_views(refused) == refusals(pending, previews)
}

/// Freeze the disclosure of a batch from the preview of each pending case: the
/// preflight, the cases that may be ranked, and those that were refused.
pub fn freeze_preflight(pending: Vec<QueuedCase>, previews: &Vec<Preview>) -> (r: (
    DisclosurePreflight,
    Vec<QueuedCase>,
    Vec<SkippedCase>,
))
    requires
        previews@.len() == pending@.len(),
        receipts_fit(previews@),
    ensures
        frozen(r.0, r.1@, r.2@, pending@, previews@),
        r.1@.len() + r.0.cases_refused == r.0.cases_checked,
{
    let ghost all = pending@;
    let ghost seen = previews@;
    let count: usize = previews.len();
    let mut checked: usize = 0;
    let mut refused: usize = 0;
    let mut local: usize = 0;
    let mut bytes: Vec<u8> = Vec::new();
    push_bytes(&mut bytes, "skillranker:live_disclosure_preflight:v1\n".as_bytes());
    let mut admitted: Vec<QueuedCase> = Vec::new();
    let mut skipped: Vec<SkippedCase> = Vec::new();
    proof {
        assert(seen.take(0) =~= Seq::<Preview>::empty());
    }
    for queued in it: pending.into_iter()
        invariant
            it.seq() == all,
            seen == previews@,
            count == seen.len(),
            all.len() == seen.len(),
            checked == it.index(),
            refused == tally(seen.take(it.index() as int), preview_refused()),
            local == tally(seen.take(it.index() as int), preview_local()),
            refused <= checked,
            local <= checked,
            bytes@ =~= preflight_bytes(all, seen.take(it.index() as int)),
            admitted@ =~= cleared(all, seen.take(it.index() as int)),
            admitted@.len() + refused == checked,
            skipped_views(skipped@) =~= refusals(all, seen.take(it.index() as int)),
    {
        let ghost i = it.index() as int;
        let ghost before = skipped@;
        let ghost so_far = bytes@;
        proof {
            lemma_tally_step(seen, i, preview_refused());
            lemma_tally_step(seen, i, preview_local());
            assert(seen.take(i + 1).drop_last() =~= seen.take(i));
            assert(seen.take(i + 1).last() == seen[i]);
        }
        assert(queued == all[i]);
        let preview: &Preview = &previews[checked];
        checked = checked + 1;
        push_framed(&mut bytes, queued.record.key.case_id.as_str().as_bytes());
        match preview {
            Preview::Receipt(receipt) => {
                let receipt: Vec<u8> = json::to_bytes(receipt);
                push_framed(&mut bytes, receipt.as_slice());
                admitted.push(queued);
            },
            Preview::Local => {
                push_framed(&mut bytes, "null".as_bytes());
                local = local + 1;
                admitted.push(queued);
            },
            Preview::Refused(kind) => {
                push_bytes(&mut bytes, "refused\0".as_bytes());
                push_bytes(&mut bytes, kind.as_str().as_bytes());
                refused = refused + 1;
                let mut reason: String = "disclosure preflight refused (".to_owned();
                reason.append(kind.as_str());
                reason.append("); not sent");
                skipped.push(
                    SkippedCase {
                        key: queued.record.key,
                        status: SkipStatus::NotEstimable { reason },
                    },
                );
                assert(skipped_views(skipped@) =~= skipped_views(before).push(skipped@.last()@));
            },
        }
        assert(bytes@ =~= so_far + preview_bytes(all[i].record.key.case_id@, seen[i]));
    }
    assert(seen.take(seen.len() as int) =~= seen);
    (
        DisclosurePreflight {
            scope: PREFLIGHT_SCOPE.to_owned(),
            cases_checked: checked,
            cases_refused: refused,
            cases_without_request: local,
            wide_request_bytes: receipt_total(previews, "wide_request_bytes").unwrap(),
            disclosed_bytes: receipt_total(previews, "disclosed_bytes").unwrap(),
            total_redactions: receipt_total(previews, "total_redactions").unwrap(),
            total_truncated: receipt_total(previews, "total_truncated").unwrap(),
            total_omitted: receipt_total(previews, "total_omitted").unwrap(),
            receipts_digest: hex_digest(bytes.as_slice()),
        },
        admitted,
        skipped,
    )
}

proof fn lemma_cleared_places(cases: Seq<QueuedCase>, previews: Seq<Preview>, q: QueuedCase)
    requires
        previews.len() <= cases.len(),
        cleared(cases, previews).contains(q),
    ensures
        exists|i: int|
            0 <= i < previews.len() && #[trigger] cases[i] == q && !(previews[i] is Refused),
    decreases previews.len(),
{
    if previews.len() > 0 {
        let rest = cleared(cases, previews.drop_last());
        let last = cases[previews.len() - 1];
        if rest.contains(q) {
            lemma_cleared_places(cases, previews.drop_last(), q);
            let i = choose|i: int|
                0 <= i < previews.drop_last().len() && #[trigger] cases[i] == q && !(
                previews.drop_last()[i] is Refused);
            assert(previews[i] == previews.drop_last()[i]);
        } else {
            assert(!(previews.last() is Refused));
            let at = choose|at: int|
                0 <= at < cleared(cases, previews).len() && cleared(cases, previews)[at] == q;
            if at < rest.len() {
                assert(rest[at] == q);
            }
            assert(last == q);
        }
    } else {
        assert(cleared(cases, previews) =~= Seq::<QueuedCase>::empty());
    }
}

/// A case that goes on to be ranked was judged, by skills that the roster has,
/// and its preview was not refused.
pub proof fn lemma_only_cleared_cases_are_ranked(
    selected: Seq<QueuedCase>,
    judgments: Seq<JudgedLabel>,
    roster: Seq<String>,
    previews: Seq<Preview>,
    q: QueuedCase,
)
    requires
        previews.len() == selected.filter(sendable(judgments, roster)).len(),
        cleared(selected.filter(sendable(judgments, roster)), previews).contains(q),
    ensures
        selected.contains(q),
        judgment_of(judgments, q.record.key.case_id@) is Some,
        !off_roster(judgment_of(judgments, q.record.key.case_id@)->0, roster),
        exists|i: int|
            0 <= i < previews.len() && #[trigger] selected.filter(sendable(judgments, roster))[i]
                == q && !(previews[i] is Refused),
{
    let pending = selected.filter(sendable(judgments, roster));
    lemma_cleared_places(pending, previews, q);
    let i = choose|i: int|
        0 <= i < previews.len() && #[trigger] pending[i] == q && !(previews[i] is Refused);
    selected.lemma_filter_pred(sendable(judgments, roster), i);
    selected.lemma_filter_contains_rev(sendable(judgments, roster), q);
}

/// Each previewed case is either cleared or reported as refused.
pub proof fn lemma_each_preview_counts_once(cases: Seq<QueuedCase>, previews: Seq<Preview>)
    ensures
        cleared(cases, previews).len() + refusals(cases, previews).len() == previews.len(),
        refusals(cases, previews).len() == tally(previews, preview_refused()),
    decreases previews.len(),
{
    if previews.len() > 0 {
        lemma_each_preview_counts_once(cases, previews.drop_last());
    }
}

/// A case is sent exactly where it is judged and the roster holds every skill its
/// judgment accepts and the one it names, if it names one. What is not judged is
/// held back for that, whatever the roster.
pub proof fn lemma_only_judged_cases_on_the_roster_are_sent(
    judgments: Seq<JudgedLabel>,
    roster: Seq<String>,
    case: QueuedCase,
)
    ensures
        ({
            let label = judgment_of(judgments, case.record.key.case_id@);
            &&& sendable(judgments, roster)(case) <==> {
                &&& label is Some
                &&& forall|i: int|
                    0 <= i < label->0.acceptable_skills@.len() ==> text::lists(
                        roster,
                        (#[trigger] label->0.acceptable_skills@[i])@,
                    )
                &&& label->0.explicit_directive is Some ==> text::lists(
                    roster,
                    label->0.explicit_directive->0@,
                )
            }
            &&& withheld(judgments, roster)(case) <==> !sendable(judgments, roster)(case)
            &&& withheld(judgments, roster)(case) ==> unsendable(
                judgments,
                roster,
                case.record.key.case_id@,
            ) == Some(
                if label is None {
                    "no independent judgment for this case; not sent"@
                } else {
                    "a judged skill is absent from the current roster; not sent"@
                },
            )
        }),
{
}

/// What one receipt adds to a total of the preflight.
pub open spec fn receipt_adds(preview: Preview, name: Seq<char>) -> int {
    match preview {
        Preview::Receipt(receipt) => match json_of(receipt).member(name).natural() {
            Some(n) => n as int,
            None => 0,
        },
        _ => 0,
    }
}

/// One more previewed case is checked, and counts as what its preview is: a
/// refusal keeps it back and says of which kind it was, and any other preview lets
/// it go on. A receipt adds each of its numbers to the total of its name.
pub proof fn lemma_one_more_preview(
    pending: Seq<QueuedCase>,
    previews: Seq<Preview>,
    case: QueuedCase,
    preview: Preview,
    before: (DisclosurePreflight, Seq<QueuedCase>, Seq<SkippedCase>),
    after: (DisclosurePreflight, Seq<QueuedCase>, Seq<SkippedCase>),
)
    requires
        pending.len() == previews.len(),
        frozen(before.0, before.1, before.2, pending, previews),
        frozen(after.0, after.1, after.2, pending.push(case), previews.push(preview)),
    ensures
        after.0.cases_checked == before.0.cases_checked + 1,
        after.0.cases_refused - before.0.cases_refused == if preview is Refused {
            1int
        } else {
            0
        },
        after.0.cases_without_request - before.0.cases_without_request == if preview is Local {
            1int
        } else {
            0
        },
        after.0.disclosed_bytes - before.0.disclosed_bytes == receipt_adds(
            preview,
            "disclosed_bytes"@,
        ),
        after.0.wide_request_bytes - before.0.wide_request_bytes == receipt_adds(
            preview,
            "wide_request_bytes"@,
        ),
        after.0.total_redactions - before.0.total_redactions == receipt_adds(
            preview,
            "total_redactions"@,
        ),
        after.0.total_truncated - before.0.total_truncated == receipt_adds(
            preview,
            "total_truncated"@,
        ),
        after.0.total_omitted - before.0.total_omitted == receipt_adds(
            preview,
            "total_omitted"@,
        ),
        !(preview is Refused) ==> after.1 == before.1.push(case) && after.2.len()
            == before.2.len(),
        preview is Refused ==> {
            &&& after.1 == before.1
            &&& after.2.len() == before.2.len() + 1
            &&& after.2.last().key@ == case.record.key@
            &&& after.2.last().status is NotEstimable
            &&& occurs(
                after.2.last().status->NotEstimable_reason@,
                "refused ("@ + preview->Refused_0@ + "); not sent"@,
            )
        },
        skipped_views(after.2).take(before.2.len() as int) == skipped_views(before.2),
{
    let n = pending.len() as int;
    let cases = pending.push(case);
    let seen = previews.push(preview);
    assert(seen.take(n) =~= previews);
    assert(seen.take(n + 1) =~= seen);
    assert(seen.drop_last() =~= previews);
    lemma_tally_step(seen, n, preview_refused());
    lemma_tally_step(seen, n, preview_local());
    lemma_total_step(seen, n, receipt_count("disclosed_bytes"@));
    lemma_total_step(seen, n, receipt_count("wide_request_bytes"@));
    lemma_total_step(seen, n, receipt_count("total_redactions"@));
    lemma_total_step(seen, n, receipt_count("total_truncated"@));
    lemma_total_step(seen, n, receipt_count("total_omitted"@));
    assert(cases.take(n) =~= pending);
    lemma_previewed_alone(pending, cases, previews);
    assert(skipped_views(before.2).len() == before.2.len());
    assert(skipped_views(after.2).len() == after.2.len());
    assert(skipped_views(after.2).take(before.2.len() as int) =~= skipped_views(before.2));
    if preview is Refused {
        assert(skipped_views(after.2).last() == after.2.last()@);
        let kind = preview->Refused_0@;
        let part = "refused ("@ + kind + "); not sent"@;
        reveal_strlit("disclosure preflight refused (");
        reveal_strlit("disclosure preflight ");
        reveal_strlit("refused (");
        assert("disclosure preflight refused ("@ + kind + "); not sent"@
            =~= "disclosure preflight "@ + part);
        lemma_occurs_between("disclosure preflight "@, part, Seq::empty());
    }
}

proof fn lemma_previewed_alone(
    pending: Seq<QueuedCase>,
    cases: Seq<QueuedCase>,
    previews: Seq<Preview>,
)
    requires
        previews.len() <= pending.len() <= cases.len(),
        cases.take(pending.len() as int) == pending,
    ensures
        cleared(cases, previews) == cleared(pending, previews),
        refusals(cases, previews) == refusals(pending, previews),
    decreases previews.len(),
{
    if previews.len() > 0 {
        lemma_previewed_alone(pending, cases, previews.drop_last());
        assert(cases.take(pending.len() as int)[previews.len() - 1] == cases[previews.len() - 1]);
    }
}

/// A case that is queued is the one named last under its key, unchanged, and has
/// no outcome yet.
pub proof fn lemma_queued_case_is_pending(
    cases: Seq<LiveEvaluationCase>,
    key: CaseKeyView,
    queued: QueuedCase,
)
    requires
        queued_for(cases, key, queued),
    ensures
        queued.record.key@ == key,
        exists|i: int|
            0 <= i < cases.len() && (#[trigger] cases[i]).key@ == key && (forall|j: int|
                i < j < cases.len() ==> (#[trigger] cases[j]).key@ != key) && json_of(
                queued.case.context,
            ) == json_of(cases[i].context) && queued.record.split == cases[i].split
                && queued.case.schema_version == cases[i].schema_version,
        !queued.record.relevance_abstention && !queued.record.operational_failure,
        queued.record.suggested_skills@.len() == 0,
{
    let i = choose|i: int|
        #[trigger] named_at(cases, key, i) && cases[i].varied_to(
            queued.case,
            json_of(cases[i].context),
        ) && queued.record.key == queued.case.key && queued.record.split == queued.case.split
            && queued.record.decision@ == "pending"@ && queued.record.suggested_skills@.len() == 0
            && !queued.record.relevance_abstention && !queued.record.operational_failure;
    assert(cases[i].key@ == key);
}

} // verus!
