//! What a live case's documents say: its preview before it is sent, and its
//! decision after.

use crate::digest::{blake3_digest, digest};
use crate::evaluation::labels::StageEvidence;
use crate::evaluation::live::LiveRankOutcome;
use crate::evaluation::preflight::Preview;
use crate::evaluation::report::opt_view;
use crate::json;
use crate::json::{json_bytes, json_of, natural_or_zero, Json, JsonNumber};
use crate::text;
use serde_json::Value;
use vstd::prelude::*;
use vstd::string::*;
use vstd::utf8::encode_utf8;

verus! {

/// Whether a place holds the first wide stage.
pub open spec fn wide_at(stages: Seq<Json>, i: int) -> bool {
    &&& 0 <= i < stages.len()
    &&& stages[i].member("stage"@).text() == Some("wide"@)
    &&& forall|j: int|
        0 <= j < i ==> (#[trigger] stages[j]).member("stage"@).text() != Some("wide"@)
}

/// The stages of a preview.
pub open spec fn stages_of(document: Json) -> Seq<Json> {
    match document.member("provider_request"@).member("stages"@) {
        Json::Array(stages) => stages,
        _ => Seq::empty(),
    }
}

/// The exact wide request a preview would send.
pub open spec fn wide_text(document: Json) -> Option<Seq<char>> {
    let stages = stages_of(document);
    if exists|i: int| wide_at(stages, i) {
        stages[choose|i: int| wide_at(stages, i)].member("request"@).text()
    } else {
        None
    }
}

/// The exact wide request a preview would send.
pub fn wide_request(document: &Value) -> (r: Option<&str>)
    ensures
        r is Some <==> wide_text(json_of(*document)) is Some,
        r is Some ==> r->0@ == wide_text(json_of(*document))->0,
{
    let ghost seen = stages_of(json_of(*document));
    let request: &Value = match json::get(document, "provider_request") {
        Some(request) => request,
        None => return None,
    };
    let stages: &Vec<Value> = match json::get(request, "stages") {
        Some(value) => match json::as_items(value) {
            Some(stages) => stages,
            None => return None,
        },
        None => return None,
    };
    assert(seen.len() == stages@.len());
    let mut i: usize = 0;
    while i < stages.len()
        invariant
            i <= stages@.len(),
            seen == stages_of(json_of(*document)),
            seen.len() == stages@.len(),
            forall|j: int| 0 <= j < stages@.len() ==> json_of(#[trigger] stages@[j]) == seen[j],
            forall|j: int|
                0 <= j < i ==> (#[trigger] seen[j]).member("stage"@).text() != Some("wide"@),
        decreases stages@.len() - i,
    {
        let stage: &Value = &stages[i];
        assert(json_of(stages@[i as int]) == seen[i as int]);
        let wide: bool = match json::member_text(stage, "stage") {
            Some(name) => text::eq(name, "wide"),
            None => false,
        };
        if wide {
            assert(wide_at(seen, i as int));
            assert forall|k: int| #[trigger] wide_at(seen, k) implies k == i by {
                if k > i {
                    assert(seen[i as int].member("stage"@).text() != Some("wide"@));
                }
            }
            return json::member_text(stage, "request");
        }
        i = i + 1;
    }
    None
}

/// What a preview came to.
pub enum PreviewView {
    Receipt(Json),
    Local,
    Refused(Seq<char>),
}

/// What a preview says.
pub open spec fn preview_view(preview: Preview) -> PreviewView {
    match preview {
        Preview::Receipt(receipt) => PreviewView::Receipt(json_of(receipt)),
        Preview::Local => PreviewView::Local,
        Preview::Refused(kind) => PreviewView::Refused(kind@),
    }
}

/// A receipt with the size of its wide request, where it is an object and
/// there is one.
pub open spec fn sized_receipt(receipt: Json, wide: Option<Seq<char>>) -> Json {
    match receipt {
        Json::Object(members) => match wide {
            Some(request) => Json::Object(
                members.insert(
                    "wide_request_bytes"@,
                    Json::Number(JsonNumber::Natural(encode_utf8(request).len() as u64)),
                ),
            ),
            None => receipt,
        },
        _ => receipt,
    }
}

/// The decision of a document, or the local one it holds.
pub open spec fn local_of(document: Json) -> Json {
    if document.has("local_decision"@) {
        document.member("local_decision"@)
    } else {
        document
    }
}

/// What the preview of a case came to: its receipt, nothing to send where it
/// ends locally, or the kind of its refusal. A null disclosure is no receipt.
pub open spec fn previewed(document: Json) -> PreviewView {
    let receipt = document.member("disclosure"@);
    let local = local_of(document);
    if !(receipt is Null) {
        PreviewView::Receipt(sized_receipt(receipt, wide_text(document)))
    } else {
        let decision = local.member("decision"@).text();
        if decision is None || decision == Some("unavailable"@) {
            PreviewView::Refused(
                match local.member("error"@).member("kind"@).text() {
                    Some(kind) => kind,
                    None => "unavailable"@,
                },
            )
        } else {
            PreviewView::Local
        }
    }
}

/// Read what the preview of a case came to.
pub fn read_preview(document: &Value) -> (r: Preview)
    ensures
        preview_view(r) == previewed(json_of(*document)),
{
    if let Some(receipt) = json::get(document, "disclosure") {
        if !json::is_null(receipt) {
            let mut receipt: Value = json::copy(receipt);
            if json::is_object(&receipt) {
                if let Some(request) = wide_request(document) {
                    let size: usize = request.as_bytes().len();
                    json::set_member(
                        &mut receipt,
                        "wide_request_bytes",
                        json::natural_value(size as u64),
                    );
                }
            }
            return Preview::Receipt(receipt);
        }
    }
    let local: &Value = match json::get(document, "local_decision") {
        Some(local) => local,
        None => document,
    };
    let ends: bool = match json::member_text(local, "decision") {
        Some(decision) => !text::eq(decision, "unavailable"),
        None => false,
    };
    if ends {
        return Preview::Local;
    }
    let kind: Option<&str> = match json::get(local, "error") {
        Some(error) => json::member_text(error, "kind"),
        None => None,
    };
    match kind {
        Some(kind) => Preview::Refused(kind.to_owned()),
        None => Preview::Refused("unavailable".to_owned()),
    }
}

/// What binds a case's send to its preview: the context that was previewed and
/// the digest of the exact wide request.
pub struct PreviewedRequest {
    pub case_id: String,
    pub context: Vec<u8>,
    pub digest: [u8; 32],
}

/// Bind a case to its preview, where that would send a wide request.
pub fn bind_preview(case_id: &str, context: &Value, document: &Value) -> (r: Option<
    PreviewedRequest,
>)
    ensures
        r is Some <==> wide_text(json_of(*document)) is Some,
        r is Some ==> {
            &&& r->0.case_id@ == case_id@
            &&& r->0.context@ == json_bytes(json_of(*context))
            &&& r->0.digest@ == blake3_digest(encode_utf8(wide_text(json_of(*document))->0))
        },
{
    match wide_request(document) {
        Some(request) => Some(
            PreviewedRequest {
                case_id: case_id.to_owned(),
                context: json::to_bytes(context),
                digest: digest(request.as_bytes()),
            },
        ),
        None => None,
    }
}

/// The digest that a send is held to: that of the last preview of its case,
/// where it is of the very context that is sent. An ablation arm or a variant
/// of the same case is a different request, and is held to none.
pub open spec fn digest_for(
    previews: Seq<PreviewedRequest>,
    case_id: Seq<char>,
    context: Seq<u8>,
) -> Option<Seq<u8>>
    decreases previews.len(),
{
    if previews.len() == 0 {
        None
    } else if previews.last().case_id@ == case_id {
        if previews.last().context@ == context {
            Some(previews.last().digest@)
        } else {
            None
        }
    } else {
        digest_for(previews.drop_last(), case_id, context)
    }
}

/// A send of the context that was last previewed for its case is held to the
/// digest of that preview's wide request, and a send of another context of the
/// case to none.
pub proof fn lemma_send_is_held_to_its_preview(
    previews: Seq<PreviewedRequest>,
    i: int,
    context: Seq<u8>,
)
    requires
        0 <= i < previews.len(),
        forall|j: int|
            i < j < previews.len() ==> (#[trigger] previews[j]).case_id@ != previews[i].case_id@,
    ensures
        digest_for(previews, previews[i].case_id@, context) == if context == previews[i].context@ {
            Some(previews[i].digest@)
        } else {
            None
        },
    decreases previews.len(),
{
    if i < previews.len() - 1 {
        let rest = previews.drop_last();
        assert(previews.last() == previews[previews.len() - 1]);
        assert forall|j: int| i < j < rest.len() implies (#[trigger] rest[j]).case_id@
            != rest[i].case_id@ by {
            assert(rest[j] == previews[j]);
        }
        lemma_send_is_held_to_its_preview(rest, i, context);
    }
}

fn same_bytes(a: &Vec<u8>, b: &Vec<u8>) -> (r: bool)
    ensures
        r == (a@ == b@),
{
    if a.len() != b.len() {
        return false;
    }
    let mut i: usize = 0;
    while i < a.len()
        invariant
            i <= a@.len() == b@.len(),
            forall|j: int| 0 <= j < i ==> a@[j] == b@[j],
        decreases a@.len() - i,
    {
        if a[i] != b[i] {
            return false;
        }
        i = i + 1;
    }
    assert(a@ =~= b@);
    true
}

/// The digest that a send is held to.
pub fn expected_digest(previews: &Vec<PreviewedRequest>, case_id: &str, context: &Value) -> (r:
    Option<[u8; 32]>)
    ensures
        digest_for(previews@, case_id@, json_bytes(json_of(*context))) == match r {
            Some(bytes) => Some(bytes@),
            None => None,
        },
{
    let sent: Vec<u8> = json::to_bytes(context);
    let mut i: usize = previews.len();
    assert(previews@.take(i as int) =~= previews@);
    while i > 0
        invariant
            i <= previews@.len(),
            sent@ == json_bytes(json_of(*context)),
            digest_for(previews@, case_id@, sent@) == digest_for(
                previews@.take(i as int),
                case_id@,
                sent@,
            ),
        decreases i,
    {
        proof {
            assert(previews@.take(i as int).drop_last() =~= previews@.take(i - 1));
            assert(previews@.take(i as int).last() == previews@[i - 1]);
        }
        let p: &PreviewedRequest = &previews[i - 1];
        if text::eq(p.case_id.as_str(), case_id) {
            return if same_bytes(&p.context, &sent) {
                Some(p.digest)
            } else {
                None
            };
        }
        i = i - 1;
    }
    None
}

/// A usage count of a decision document, or zero.
pub open spec fn usage_of(document: Json, name: Seq<char>) -> u64 {
    natural_or_zero(document.member("usage"@).member(name))
}

/// A count as far as counts go.
pub open spec fn as_count(n: u64) -> usize {
    if n <= usize::MAX {
        n as usize
    } else {
        usize::MAX
    }
}

fn count_from(n: u64) -> (r: usize)
    ensures
        r == as_count(n),
{
    if n <= usize::MAX as u64 {
        n as usize
    } else {
        usize::MAX
    }
}

fn usage(document: &Value, name: &str) -> (r: u64)
    ensures
        r == usage_of(json_of(*document), name@),
{
    match json::get(document, "usage") {
        Some(usage) => json::member_natural(usage, name),
        None => 0,
    }
}

/// The identities of the skills a document lists, in order.
pub open spec fn skill_ids(skills: Seq<Json>) -> Seq<Seq<char>>
    decreases skills.len(),
{
    if skills.len() == 0 {
        Seq::empty()
    } else {
        let rest = skill_ids(skills.drop_last());
        match skills.last().member("skill_id"@).text() {
            Some(id) => rest.push(id),
            None => rest,
        }
    }
}

/// The skills of a document.
pub open spec fn skills_of(document: Json) -> Seq<Json> {
    match document.member("skills"@) {
        Json::Array(skills) => skills,
        _ => Seq::empty(),
    }
}

fn suggested(document: &Value) -> (r: Vec<String>)
    ensures
        text::views(r@) == skill_ids(skills_of(json_of(*document))),
{
    let ghost seen = skills_of(json_of(*document));
    let mut ids: Vec<String> = Vec::new();
    assert(text::views(ids@) =~= Seq::<Seq<char>>::empty());
    let skills: &Vec<Value> = match json::get(document, "skills") {
        Some(value) => match json::as_items(value) {
            Some(skills) => skills,
            None => return ids,
        },
        None => return ids,
    };
    let mut i: usize = 0;
    assert(seen.take(0) =~= Seq::<Json>::empty());
    while i < skills.len()
        invariant
            i <= skills@.len(),
            seen.len() == skills@.len(),
            forall|j: int| 0 <= j < skills@.len() ==> json_of(#[trigger] skills@[j]) == seen[j],
            text::views(ids@) =~= skill_ids(seen.take(i as int)),
        decreases skills@.len() - i,
    {
        let ghost before = ids@;
        proof {
            assert(seen.take(i + 1).drop_last() =~= seen.take(i as int));
            assert(seen.take(i + 1).last() == seen[i as int]);
            assert(json_of(skills@[i as int]) == seen[i as int]);
        }
        if let Some(id) = json::member_text(&skills[i], "skill_id") {
            ids.push(id.to_owned());
            assert(text::views(ids@) =~= text::views(before).push(id@));
        }
        i = i + 1;
    }
    assert(seen.take(i as int) =~= seen);
    ids
}

/// Whether an outcome is what a decision document says. The document reports
/// its own usage, so no attempt is unknown.
pub open spec fn outcome_read(
    r: LiveRankOutcome,
    document: Json,
    elapsed_ms: u64,
    evidence: StageEvidence,
) -> bool {
    &&& r.decision@ == match document.member("decision"@).text() {
        Some(decision) => decision,
        None => "unavailable"@,
    }
    &&& text::views(r.suggested_skills@) == skill_ids(skills_of(document))
    &&& r.requests == as_count(usage_of(document, "requests"@))
    &&& r.http_attempts == as_count(usage_of(document, "http_attempts"@))
    &&& r.unknown_usage_attempts == as_count(usage_of(document, "unknown_usage_attempts"@))
    &&& r.input_tokens == usage_of(document, "input_tokens"@)
    &&& r.output_tokens == usage_of(document, "output_tokens"@)
    &&& opt_view(r.error_kind) == document.member("error"@).member("kind"@).text()
    &&& r.elapsed_ms == elapsed_ms
    &&& r.evidence == Some(evidence)
    &&& !r.attempts_unknown
}

/// Read the outcome of a ranking off its decision document.
pub fn read_outcome(document: &Value, elapsed_ms: u64, evidence: StageEvidence) -> (r:
    LiveRankOutcome)
    ensures
        outcome_read(r, json_of(*document), elapsed_ms, evidence),
{
    let decision: String = match json::member_text(document, "decision") {
        Some(decision) => decision.to_owned(),
        None => "unavailable".to_owned(),
    };
    let error_kind: Option<String> = match json::get(document, "error") {
        Some(error) => match json::member_text(error, "kind") {
            Some(kind) => Some(kind.to_owned()),
            None => None,
        },
        None => None,
    };
    LiveRankOutcome {
        decision,
        suggested_skills: suggested(document),
        requests: count_from(usage(document, "requests")),
        http_attempts: count_from(usage(document, "http_attempts")),
        unknown_usage_attempts: count_from(usage(document, "unknown_usage_attempts")),
        input_tokens: usage(document, "input_tokens"),
        output_tokens: usage(document, "output_tokens"),
        error_kind,
        elapsed_ms,
        evidence: Some(evidence),
        attempts_unknown: false,
    }
}

/// Whether an outcome is that of a ranking that ended without a document.
pub open spec fn outcome_failed(
    r: LiveRankOutcome,
    kind: Seq<char>,
    elapsed_ms: u64,
    evidence: StageEvidence,
) -> bool {
    &&& r.decision@ == "unavailable"@
    &&& r.suggested_skills@.len() == 0
    &&& r.requests == 0
    &&& r.http_attempts == 0
    &&& r.unknown_usage_attempts == 0
    &&& r.input_tokens == 0
    &&& r.output_tokens == 0
    &&& opt_view(r.error_kind) == Some(kind)
    &&& r.elapsed_ms == elapsed_ms
    &&& r.evidence is None
    &&& r.attempts_unknown == (evidence.admitted@.len() > 0)
}

/// The outcome of a ranking that ended without a decision document. Candidates
/// are admitted just before the first request, so a run that got that far may
/// have sent some: its attempts are unknown, never zero.
pub fn failed_outcome(kind: &str, elapsed_ms: u64, evidence: &StageEvidence) -> (r:
    LiveRankOutcome)
    ensures
        outcome_failed(r, kind@, elapsed_ms, *evidence),
{
    LiveRankOutcome {
        decision: "unavailable".to_owned(),
        suggested_skills: Vec::new(),
        requests: 0,
        http_attempts: 0,
        unknown_usage_attempts: 0,
        input_tokens: 0,
        output_tokens: 0,
        error_kind: Some(kind.to_owned()),
        elapsed_ms,
        evidence: None,
        attempts_unknown: evidence.admitted.len() > 0,
    }
}

/// The wide request of a document is that of its first wide stage.
pub proof fn lemma_wide_request_is_the_first(document: Json, i: int)
    requires
        document.member("provider_request"@).member("stages"@) is Array,
    ensures
        ({
            let stages = document.member("provider_request"@).member("stages"@)->Array_0;
            &&& 0 <= i < stages.len() && stages[i].member("stage"@).text() == Some("wide"@) && (
            forall|j: int|
                0 <= j < i ==> (#[trigger] stages[j]).member("stage"@).text() != Some("wide"@))
                ==> wide_text(document) == stages[i].member("request"@).text()
            &&& (forall|j: int|
                0 <= j < stages.len() ==> (#[trigger] stages[j]).member("stage"@).text() != Some(
                    "wide"@,
                )) ==> wide_text(document) is None
        }),
{
    let stages = document.member("provider_request"@).member("stages"@)->Array_0;
    if exists|k: int| wide_at(stages, k) {
        let k = choose|k: int| wide_at(stages, k);
        if wide_at(stages, i) {
            if i < k {
                assert(stages[i].member("stage"@).text() != Some("wide"@));
            } else if k < i {
                assert(stages[k].member("stage"@).text() != Some("wide"@));
            }
        }
    }
    if 0 <= i < stages.len() && stages[i].member("stage"@).text() == Some("wide"@) && (forall|
        j: int,
    |
        0 <= j < i ==> (#[trigger] stages[j]).member("stage"@).text() != Some("wide"@)) {
        assert(wide_at(stages, i));
    }
}

/// A document with a receipt previews as that receipt, whatever it decided. Without
/// one it previews as local where it decided something, and as refused, under the
/// kind of its error, where it is unavailable.
pub proof fn lemma_what_a_document_previews(document: Json)
    ensures
        ({
            let receipt = document.member("disclosure"@);
            let local = if document.has("local_decision"@) {
                document.member("local_decision"@)
            } else {
                document
            };
            let decision = local.member("decision"@).text();
            let kind = local.member("error"@).member("kind"@).text();
            let unavailable = decision is None || decision->0 == "unavailable"@;
            &&& previewed(document) is Receipt <==> !(receipt is Null)
            &&& previewed(document) is Local <==> receipt is Null && !unavailable
            &&& previewed(document) is Refused <==> receipt is Null && unavailable
            &&& previewed(document) is Refused && kind is Some
                ==> previewed(document)->Refused_0 == kind->0
            &&& previewed(document) is Refused && kind is None
                ==> previewed(document)->Refused_0 == "unavailable"@
        }),
{
}

/// A receipt is previewed as it is, with the size of the wide request added to it
/// where there is one.
pub proof fn lemma_receipts_are_sized(receipt: Json, wide: Option<Seq<char>>, name: Seq<char>)
    ensures
        wide is None || !(receipt is Object) ==> sized_receipt(receipt, wide) == receipt,
        wide is Some && receipt is Object ==> sized_receipt(receipt, wide).member(
            "wide_request_bytes"@,
        ) == Json::Number(JsonNumber::Natural(encode_utf8(wide->0).len() as u64)),
        name != "wide_request_bytes"@ ==> sized_receipt(receipt, wide).member(name)
            == receipt.member(name),
{
}

/// One more skill of a decision is suggested last, where it has an identity.
pub proof fn lemma_one_more_suggestion(skills: Seq<Json>, skill: Json)
    ensures
        skill.member("skill_id"@).text() is Some ==> skill_ids(skills.push(skill)) == skill_ids(
            skills,
        ).push(skill.member("skill_id"@).text()->0),
        skill.member("skill_id"@).text() is None ==> skill_ids(skills.push(skill)) == skill_ids(
            skills,
        ),
        skill_ids(Seq::empty()).len() == 0,
{
    assert(skills.push(skill).drop_last() =~= skills);
}

/// The outcome of a ranking quotes its document: what was decided, what was used,
/// each quantity under its own name, and the kind of its error. A document without a
/// decision is unavailable, and what it does not count is zero.
pub proof fn lemma_outcome_quotes_its_document(
    r: LiveRankOutcome,
    document: Json,
    elapsed_ms: u64,
    evidence: StageEvidence,
)
    requires
        outcome_read(r, document, elapsed_ms, evidence),
    ensures
        ({
            let usage = document.member("usage"@);
            let decision = document.member("decision"@).text();
            let kind = document.member("error"@).member("kind"@).text();
            &&& decision is Some ==> r.decision@ == decision->0
            &&& decision is None ==> r.decision@ == "unavailable"@
            &&& counted_as(usage.member("requests"@), r.requests as int)
            &&& counted_as(usage.member("http_attempts"@), r.http_attempts as int)
            &&& counted_as(
                usage.member("unknown_usage_attempts"@),
                r.unknown_usage_attempts as int,
            )
            &&& counted_as(usage.member("input_tokens"@), r.input_tokens as int)
            &&& counted_as(usage.member("output_tokens"@), r.output_tokens as int)
            &&& r.error_kind is Some <==> kind is Some
            &&& kind is Some ==> r.error_kind->0@ == kind->0
            &&& r.elapsed_ms == elapsed_ms
            &&& r.evidence == Some(evidence)
            &&& !r.attempts_unknown
            &&& document.member("skills"@) is Array ==> text::views(r.suggested_skills@)
                == skill_ids(document.member("skills"@)->Array_0)
            &&& !(document.member("skills"@) is Array) ==> r.suggested_skills@.len() == 0
        }),
{
    assert(text::views(r.suggested_skills@).len() == r.suggested_skills@.len());
}

/// Whether a count is that of a member, where that is a natural number that fits, and
/// zero where it is none.
pub open spec fn counted_as(member: Json, n: int) -> bool {
    match member {
        Json::Number(JsonNumber::Natural(given)) => given <= usize::MAX ==> n == given,
        _ => n == 0,
    }
}

/// A ranking that ended without a document is unavailable under the kind of its error,
/// and suggests nothing. What it may have sent is unknown exactly where it had admitted
/// a skill.
pub proof fn lemma_failed_rankings_suggest_nothing(
    r: LiveRankOutcome,
    kind: Seq<char>,
    elapsed_ms: u64,
    evidence: StageEvidence,
)
    requires
        outcome_failed(r, kind, elapsed_ms, evidence),
    ensures
        r.decision@ == "unavailable"@ && r.suggested_skills@.len() == 0,
        r.error_kind is Some && r.error_kind->0@ == kind,
        r.requests == 0 && r.http_attempts == 0 && r.unknown_usage_attempts == 0,
        r.input_tokens == 0 && r.output_tokens == 0,
        r.elapsed_ms == elapsed_ms && r.evidence is None,
        r.attempts_unknown <==> evidence.admitted@.len() > 0,
{
}

} // verus!
