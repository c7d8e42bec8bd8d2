//! Case identities, independent judgments and the stage evidence of a ranking.

use crate::score::Score;
use crate::text;
use vstd::prelude::*;

verus! {

/// Identity of one case in an evaluation frame.
#[derive(Clone, Debug, PartialEq, Eq)]
pub struct CaseKey {
    pub frame_id: String,
    pub family_id: String,
    pub case_id: String,
    pub replicate: u32,
    pub policy_id: String,
}

/// What a case key says.
#[verifier::ext_equal]
pub struct CaseKeyView {
    pub frame_id: Seq<char>,
    pub family_id: Seq<char>,
    pub case_id: Seq<char>,
    pub replicate: u32,
    pub policy_id: Seq<char>,
}

impl View for CaseKey {
    type V = CaseKeyView;

    open spec fn view(&self) -> CaseKeyView {
        CaseKeyView {
            frame_id: self.frame_id@,
            family_id: self.family_id@,
            case_id: self.case_id@,
            replicate: self.replicate,
            policy_id: self.policy_id@,
        }
    }
}

impl CaseKey {
    pub fn new(
        frame_id: &str,
        family_id: &str,
        case_id: &str,
        replicate: u32,
        policy_id: &str,
    ) -> (r: CaseKey)
        ensures
            r@ == (CaseKeyView {
                frame_id: frame_id@,
                family_id: family_id@,
                case_id: case_id@,
                replicate,
                policy_id: policy_id@,
            }),
    {
        CaseKey {
            frame_id: frame_id.to_owned(),
            family_id: family_id.to_owned(),
            case_id: case_id.to_owned(),
            replicate,
            policy_id: policy_id.to_owned(),
        }
    }

    /// Whether two keys name the same case.
    pub fn same(&self, other: &CaseKey) -> (r: bool)
        ensures
            r == (self@ == other@),
    {
        self.frame_id == other.frame_id && self.family_id == other.family_id && self.case_id
            == other.case_id && self.replicate == other.replicate && self.policy_id
            == other.policy_id
    }

    /// The same key.
    pub fn copy(&self) -> (r: CaseKey)
        ensures
            r == *self,
    {
        CaseKey {
            frame_id: self.frame_id.clone(),
            family_id: self.family_id.clone(),
            case_id: self.case_id.clone(),
            replicate: self.replicate,
            policy_id: self.policy_id.clone(),
        }
    }
}

/// The part of the evaluation data a case belongs to.
#[derive(Clone, Copy, Debug, PartialEq, Eq, Structural)]
pub enum EvaluationSplit {
    Development,
    Validation,
    Holdout,
}

/// An independent judgment of one case.
#[derive(Clone, Debug, PartialEq, Eq)]
pub struct JudgedLabel {
    pub case_id: String,
    pub revision: u32,
    /// Skills any of which would have helped.
    pub acceptable_skills: Vec<String>,
    /// The skill the user asked for by name, when they did.
    pub explicit_directive: Option<String>,
    pub no_skill_needed: bool,
}

impl JudgedLabel {
    /// Whether the judgment accepts a skill.
    pub open spec fn accepts(&self, id: Seq<char>) -> bool {
        !self.no_skill_needed && text::lists(self.acceptable_skills@, id)
    }

    /// Whether the judgment says some skill would have helped.
    pub open spec fn positive(&self) -> bool {
        !self.no_skill_needed && self.acceptable_skills@.len() > 0
    }

    /// Whether the case asks for advice rather than naming its skill.
    pub open spec fn advisory(&self) -> bool {
        self.explicit_directive is None
    }
}

/// Whether the judgment accepts a skill.
pub fn acceptable_for(label: &JudgedLabel, id: &str) -> (r: bool)
    ensures
        r == label.accepts(id@),
{
    !label.no_skill_needed && text::contains(&label.acceptable_skills, id)
}

/// Whether the judgment says some skill would have helped.
pub fn positive_case(label: &JudgedLabel) -> (r: bool)
    ensures
        r == label.positive(),
{
    !label.no_skill_needed && label.acceptable_skills.len() > 0
}

/// Whether the judgment accepts some skill of a list.
pub open spec fn accepts_some(label: &JudgedLabel, ids: Seq<String>) -> bool {
    exists|i: int| 0 <= i < ids.len() && label.accepts((#[trigger] ids[i])@)
}

/// Whether the judgment accepts some skill of a list.
pub fn any_acceptable(label: &JudgedLabel, ids: &Vec<String>) -> (r: bool)
    ensures
        r == accepts_some(label, ids@),
{
    let mut i: usize = 0;
    while i < ids.len()
        invariant
            i <= ids@.len(),
            forall|j: int| 0 <= j < i ==> !label.accepts((#[trigger] ids@[j])@),
        decreases ids@.len() - i,
    {
        if acceptable_for(label, ids[i].as_str()) {
            return true;
        }
        i = i + 1;
    }
    false
}

/// Whether `i` is the place of the first judgment of a case.
pub open spec fn judged_at(judgments: Seq<JudgedLabel>, case_id: Seq<char>, i: int) -> bool {
    &&& 0 <= i < judgments.len()
    &&& judgments[i].case_id@ == case_id
    &&& forall|j: int| 0 <= j < i ==> (#[trigger] judgments[j]).case_id@ != case_id
}

/// The judgment of a case, where there is one.
pub open spec fn judgment_of(judgments: Seq<JudgedLabel>, case_id: Seq<char>) -> Option<
    JudgedLabel,
> {
    if exists|i: int| judged_at(judgments, case_id, i) {
        Some(judgments[choose|i: int| judged_at(judgments, case_id, i)])
    } else {
        None
    }
}

/// At most one place is the first judgment of a case.
pub proof fn lemma_judged_at_unique(judgments: Seq<JudgedLabel>, case_id: Seq<char>, i: int, j: int)
    requires
        judged_at(judgments, case_id, i),
        judged_at(judgments, case_id, j),
    ensures
        i == j,
{
}

/// Find the judgment of a case.
pub fn find_judgment<'a>(judgments: &'a Vec<JudgedLabel>, case_id: &str) -> (r: Option<
    &'a JudgedLabel,
>)
    ensures
        r is Some <==> judgment_of(judgments@, case_id@) is Some,
        r is Some ==> *r->0 == judgment_of(judgments@, case_id@)->0,
{
    let mut i: usize = 0;
    while i < judgments.len()
        invariant
            i <= judgments@.len(),
            forall|j: int| 0 <= j < i ==> (#[trigger] judgments@[j]).case_id@ != case_id@,
        decreases judgments@.len() - i,
    {
        if text::eq(judgments[i].case_id.as_str(), case_id) {
            proof {
                assert(judged_at(judgments@, case_id@, i as int));
                let k = choose|k: int| judged_at(judgments@, case_id@, k);
                lemma_judged_at_unique(judgments@, case_id@, i as int, k);
            }
            return Some(&judgments[i]);
        }
        i = i + 1;
    }
    None
}

/// A case record whose decision is scored.
#[derive(Clone, Debug, PartialEq, Eq)]
pub struct EvaluationCaseRecord {
    pub key: CaseKey,
    pub split: EvaluationSplit,
    pub decision: String,
    pub suggested_skills: Vec<String>,
    pub relevance_abstention: bool,
    pub operational_failure: bool,
}

/// What the wide stage answered.
#[derive(Clone, Debug, PartialEq, Eq)]
pub struct WideEvidence {
    /// Its gate mean.
    pub needs_skill: Score,
    /// A gate stopped the run before a shortlist.
    pub low_need: bool,
    /// Shortlisted skills with their raw probability, best first.
    pub shortlist: Vec<(String, Score)>,
    /// Top candidates by raw probability, irrespective of any gate.
    pub intrinsic_shortlist: Vec<String>,
}

/// One reranked skill: its choice probability and its fit.
#[derive(Clone, Debug, PartialEq, Eq)]
pub struct RerankCandidate {
    pub id: String,
    pub probability: Score,
    pub fit: Score,
}

/// What the rerank stage answered.
#[derive(Clone, Debug, PartialEq, Eq)]
pub struct RerankEvidence {
    pub candidates: Vec<RerankCandidate>,
}

/// What each stage of one ranking answered.
#[derive(Clone, Debug, PartialEq, Eq)]
pub struct StageEvidence {
    /// Skills admitted to the wide stage.
    pub admitted: Vec<String>,
    /// Whether the lexical index chose the admitted skills of an overflowing roster.
    pub quill_ranked: bool,
    /// Lexical matches among the admitted skills, best first.
    pub lexical: Option<Vec<String>>,
    /// Time of the evaluation-only lexical pass.
    pub lexical_elapsed_ms: u64,
    pub wide: Option<WideEvidence>,
    pub rerank: Option<RerankEvidence>,
}

/// A judgment accepts exactly the skills it names, and none at all where no
/// skill was needed. A case is positive exactly where some skill is accepted.
pub proof fn lemma_judgment_accepts_what_it_names(label: JudgedLabel, id: Seq<char>, q: int)
    ensures
        !label.no_skill_needed && 0 <= q < label.acceptable_skills@.len() ==> label.accepts(
            label.acceptable_skills@[q]@,
        ) && label.positive(),
        label.accepts(id) ==> !label.no_skill_needed && (exists|i: int|
            0 <= i < label.acceptable_skills@.len() && (#[trigger] label.acceptable_skills@[i])@
                == id),
        label.positive() ==> label.accepts(label.acceptable_skills@[0]@),
        label.accepts(id) ==> label.positive(),
{
}

/// The judgment of a case is one of the judgments, is about that case, and is
/// the first that is. There is none exactly where no judgment is about it.
pub proof fn lemma_judgment_is_about_its_case(judgments: Seq<JudgedLabel>, case_id: Seq<char>, i: int)
    requires
        0 <= i < judgments.len(),
        judgments[i].case_id@ == case_id,
    ensures
        judgment_of(judgments, case_id) is Some,
        judgment_of(judgments, case_id)->0.case_id@ == case_id,
        (forall|j: int| 0 <= j < i ==> (#[trigger] judgments[j]).case_id@ != case_id)
            ==> judgment_of(judgments, case_id) == Some(judgments[i]),
    decreases i,
{
    if exists|j: int| 0 <= j < i && (#[trigger] judgments[j]).case_id@ == case_id {
        let j = choose|j: int| 0 <= j < i && (#[trigger] judgments[j]).case_id@ == case_id;
        lemma_judgment_is_about_its_case(judgments, case_id, j);
    } else {
        assert(judged_at(judgments, case_id, i));
        let k = choose|k: int| judged_at(judgments, case_id, k);
        lemma_judged_at_unique(judgments, case_id, i, k);
    }
}

/// A case that no judgment is about has none.
pub proof fn lemma_unjudged_has_no_judgment(judgments: Seq<JudgedLabel>, case_id: Seq<char>)
    requires
        forall|i: int| 0 <= i < judgments.len() ==> (#[trigger] judgments[i]).case_id@ != case_id,
    ensures
        judgment_of(judgments, case_id) is None,
{
}

} // verus!
