//! The selection policies that one run's stage answers are compared under.

use crate::evaluation::labels::{EvaluationCaseRecord, RerankCandidate, StageEvidence};
use crate::score::{lemma_total_key_injective, Score};
use crate::text;
use crate::text::{lemma_precedes_total, lemma_precedes_transitive, precedes, text_precedes};
use vstd::prelude::*;
use vstd::string::*;

verus! {

/// What orders reranked skills.
#[derive(Clone, Copy, Debug, PartialEq, Eq, Structural)]
pub enum RankBy {
    Probability,
    Fit,
}

/// The number a reranked skill is ordered by.
pub open spec fn ranked_by(by: RankBy, c: RerankCandidate) -> Score {
    match by {
        RankBy::Probability => c.probability,
        RankBy::Fit => c.fit,
    }
}

/// Whether one reranked skill stands at or above another: by its number in the
/// total order, and between equal numbers by the smaller identity.
pub open spec fn stands_above(by: RankBy, a: RerankCandidate, b: RerankCandidate) -> bool {
    let (x, y) = (ranked_by(by, a).total_key(), ranked_by(by, b).total_key());
    x > y || (x == y && (a.id@ == b.id@ || text_precedes(a.id@, b.id@)))
}

/// Which reranked skills compete: those with at least a fit, where one is
/// asked for, among a list of identities, where one is given.
pub open spec fn competes(
    c: RerankCandidate,
    least_fit: Option<Score>,
    among: Option<Seq<String>>,
) -> bool {
    &&& least_fit is Some ==> c.fit.at_least_spec(least_fit->0)
    &&& among is Some ==> text::lists(among->0, c.id@)
}

/// Whether the skill at a place leads all that compete.
pub open spec fn leads(
    by: RankBy,
    candidates: Seq<RerankCandidate>,
    least_fit: Option<Score>,
    among: Option<Seq<String>>,
    i: int,
) -> bool {
    &&& 0 <= i < candidates.len()
    &&& competes(candidates[i], least_fit, among)
    &&& forall|j: int|
        0 <= j < candidates.len() && competes(#[trigger] candidates[j], least_fit, among)
            ==> stands_above(by, candidates[i], candidates[j])
}

/// The identity of the leading skill, where any competes.
pub open spec fn leader(
    by: RankBy,
    candidates: Seq<RerankCandidate>,
    least_fit: Option<Score>,
    among: Option<Seq<String>>,
) -> Option<Seq<char>> {
    if exists|i: int| leads(by, candidates, least_fit, among, i) {
        Some(candidates[choose|i: int| leads(by, candidates, least_fit, among, i)].id@)
    } else {
        None
    }
}

/// Two leading skills are the same skill with the same number.
pub proof fn lemma_leader_unique(
    by: RankBy,
    candidates: Seq<RerankCandidate>,
    least_fit: Option<Score>,
    among: Option<Seq<String>>,
    i: int,
    j: int,
)
    requires
        leads(by, candidates, least_fit, among, i),
        leads(by, candidates, least_fit, among, j),
    ensures
        candidates[i].id@ == candidates[j].id@,
        ranked_by(by, candidates[i]) == ranked_by(by, candidates[j]),
{
    assert(stands_above(by, candidates[i], candidates[j]));
    assert(stands_above(by, candidates[j], candidates[i]));
    lemma_precedes_total(candidates[i].id@, candidates[j].id@);
    lemma_total_key_injective(ranked_by(by, candidates[i]), ranked_by(by, candidates[j]));
}

proof fn lemma_stands_above_transitive(
    by: RankBy,
    a: RerankCandidate,
    b: RerankCandidate,
    c: RerankCandidate,
)
    requires
        stands_above(by, a, b),
        stands_above(by, b, c),
    ensures
        stands_above(by, a, c),
{
    if text_precedes(a.id@, b.id@) && text_precedes(b.id@, c.id@) {
        lemma_precedes_transitive(a.id@, b.id@, c.id@);
    }
}

fn number_of(by: RankBy, c: &RerankCandidate) -> (r: Score)
    ensures
        r == ranked_by(by, *c),
{
    match by {
        RankBy::Probability => c.probability,
        RankBy::Fit => c.fit,
    }
}

/// The place of a leading skill, where any competes.
pub fn find_leader(
    by: RankBy,
    candidates: &Vec<RerankCandidate>,
    least_fit: Option<Score>,
    among: Option<&Vec<String>>,
) -> (r: Option<usize>)
    ensures
        ({
            let ids = match among {
                Some(list) => Some(list@),
                None => None,
            };
            &&& r is Some ==> leads(by, candidates@, least_fit, ids, r->0 as int)
            &&& r is Some <==> exists|i: int|
                0 <= i < candidates@.len() && competes(
                    #[trigger] candidates@[i],
                    least_fit,
                    ids,
                )
            &&& leader(by, candidates@, least_fit, ids) == match r {
                Some(i) => Some(candidates@[i as int].id@),
                None => None,
            }
        }),
{
    let ghost ids = match among {
        Some(list) => Some(list@),
        None => None,
    };
    let mut best: Option<usize> = None;
    let mut i: usize = 0;
    while i < candidates.len()
        invariant
            i <= candidates@.len(),
            ids == match among {
                Some(list) => Some(list@),
                None => None,
            },
            best is None ==> forall|j: int|
                0 <= j < i ==> !competes(#[trigger] candidates@[j], least_fit, ids),
            best is Some ==> {
                &&& best->0 < i
                &&& competes(candidates@[best->0 as int], least_fit, ids)
                &&& forall|j: int|
                    0 <= j < i && competes(#[trigger] candidates@[j], least_fit, ids)
                        ==> stands_above(by, candidates@[best->0 as int], candidates@[j])
            },
        decreases candidates@.len() - i,
    {
        let c: &RerankCandidate = &candidates[i];
        let fits: bool = match least_fit {
            Some(least) => c.fit.at_least(least),
            None => true,
        };
        let listed: bool = match among {
            Some(list) => text::contains(list, c.id.as_str()),
            None => true,
        };
        let ghost before = best;
        if fits && listed {
            match best {
                None => {
                    best = Some(i);
                },
                Some(b) => {
                    let x: Score = number_of(by, c);
                    let y: Score = number_of(by, &candidates[b]);
                    let id: &str = c.id.as_str();
                    let leading: &str = candidates[b].id.as_str();
                    let above: bool = x.total_above(y) || (!y.total_above(x) && (text::eq(
                        id,
                        leading,
                    ) || precedes(id, leading)));
                    proof {
                        lemma_precedes_total(id@, leading@);
                        assert(above == stands_above(by, *c, candidates@[b as int]));
                        assert(!above ==> stands_above(by, candidates@[b as int], *c));
                    }
                    if above {
                        best = Some(i);
                        proof {
                            assert forall|j: int|
                                0 <= j < i + 1 && competes(
                                    #[trigger] candidates@[j],
                                    least_fit,
                                    ids,
                                ) implies stands_above(by, *c, candidates@[j]) by {
                                if j < i {
                                    lemma_stands_above_transitive(
                                        by,
                                        *c,
                                        candidates@[b as int],
                                        candidates@[j],
                                    );
                                }
                            }
                        }
                    }
                },
            }
        }
        i = i + 1;
    }
    proof {
        if best is Some {
            assert(leads(by, candidates@, least_fit, ids, best->0 as int));
            lemma_leader_unique(
                by,
                candidates@,
                least_fit,
                ids,
                best->0 as int,
                choose|k: int| leads(by, candidates@, least_fit, ids, k),
            );
        }
    }
    best
}

/// How many policies there are.
pub const POLICY_COUNT: usize = 5;

/// The names of the policies, in the order they are reported.
pub open spec fn policy_name(k: int) -> Seq<char> {
    if k == 0 {
        "quill-only"@
    } else if k == 1 {
        "choice-only"@
    } else if k == 2 {
        "fit-only"@
    } else if k == 3 {
        "cookbook-approx"@
    } else {
        "blend"@
    }
}

pub const QUILL_DEFINITION: &'static str = "Quill's top lexical match among the admitted skills; no gate and no Jev answer.";

pub const CHOICE_DEFINITION: &'static str = "The wide gate, then the shortlist's highest raw wide probability; no rerank.";

pub const FIT_DEFINITION: &'static str = "The wide gate, then the reranked skill with the highest fit at or above the fit threshold; the rerank choice distribution is ignored.";

/// Where the fourth policy comes from, and its first step.
pub const COOKBOOK_SOURCE: &'static str = "The TypeSafe skill-suggestion cookbook's rule: the";

/// The steps of the fourth policy from there.
pub const COOKBOOK_STEPS: &'static str = " gate, the wide top three, nothing when their best fit is below the fit threshold, else the highest rerank choice probability among them. Approximate: this run reranked the whole shortlist, so the probabilities come from a larger choice than the cookbook's three.";

pub const BLEND_DEFINITION: &'static str = "The production decision: gate, rerank choice, per-candidate none check, fit eligibility and blended score.";

/// What each policy does, in words.
pub open spec fn policy_definition(k: int) -> Seq<char> {
    if k == 0 {
        QUILL_DEFINITION@
    } else if k == 1 {
        CHOICE_DEFINITION@
    } else if k == 2 {
        FIT_DEFINITION@
    } else if k == 3 {
        COOKBOOK_SOURCE@ + COOKBOOK_STEPS@
    } else {
        BLEND_DEFINITION@
    }
}

/// The name and the definition of a policy.
pub fn policy_texts(k: usize) -> (r: (&'static str, String))
    ensures
        r.0@ == policy_name(k as int),
        r.1@ == policy_definition(k as int),
{
    if k == 0 {
        ("quill-only", QUILL_DEFINITION.to_owned())
    } else if k == 1 {
        ("choice-only", CHOICE_DEFINITION.to_owned())
    } else if k == 2 {
        ("fit-only", FIT_DEFINITION.to_owned())
    } else if k == 3 {
        let mut definition: String = COOKBOOK_SOURCE.to_owned();
        definition.append(COOKBOOK_STEPS);
        ("cookbook-approx", definition)
    } else {
        ("blend", BLEND_DEFINITION.to_owned())
    }
}

/// The first text of a list.
pub open spec fn first_text(list: Seq<String>) -> Option<Seq<char>> {
    if list.len() > 0 {
        Some(list[0]@)
    } else {
        None
    }
}

/// The identities of the first few of a shortlist.
pub open spec fn top_ids(shortlist: Seq<(String, Score)>, most: int) -> Seq<String> {
    Seq::new(
        if shortlist.len() < most {
            shortlist.len()
        } else {
            most as nat
        },
        |i: int| shortlist[i].0,
    )
}

/// Whether any reranked skill of a list reaches the fit threshold.
pub open spec fn finalist_fits(
    candidates: Seq<RerankCandidate>,
    among: Seq<String>,
    threshold: Score,
) -> bool {
    exists|i: int|
        0 <= i < candidates.len() && competes(
            #[trigger] candidates[i],
            Some(threshold),
            Some(among),
        )
}

/// A policy's top-one pick (`None` abstains), or `Err` where the stage
/// evidence of the case cannot score it.
pub open spec fn policy_pick(
    k: int,
    evidence: StageEvidence,
    record: EvaluationCaseRecord,
    threshold: Score,
) -> Result<Option<Seq<char>>, ()> {
    if k == 0 {
        match evidence.lexical {
            Some(hits) => Ok(first_text(hits@)),
            None => Err(()),
        }
    } else if k == 4 {
        Ok(first_text(record.suggested_skills@))
    } else {
        match evidence.wide {
            None => Err(()),
            Some(wide) => if k == 1 {
                if wide.low_need || wide.shortlist@.len() == 0 {
                    Ok(None)
                } else {
                    Ok(Some(wide.shortlist@[0].0@))
                }
            } else if k == 2 {
                // A gate that stopped the run stops this policy with it.
                if wide.low_need {
                    Ok(None)
                } else {
                    match evidence.rerank {
                        None => Err(()),
                        Some(rerank) => Ok(
                            leader(RankBy::Fit, rerank.candidates@, Some(threshold), None),
                        ),
                    }
                }
            } else {
                if wide.low_need {
                    Ok(None)
                } else {
                    match evidence.rerank {
                        None => Err(()),
                        Some(rerank) => {
                            let finalists = top_ids(wide.shortlist@, 3);
                            if finalist_fits(rerank.candidates@, finalists, threshold) {
                                Ok(
                                    leader(
                                        RankBy::Probability,
                                        rerank.candidates@,
                                        None,
                                        Some(finalists),
                                    ),
                                )
                            } else {
                                Ok(None)
                            }
                        },
                    }
                }
            },
        }
    }
}

/// What a pick says.
pub open spec fn pick_view(pick: Result<Option<String>, ()>) -> Result<Option<Seq<char>>, ()> {
    match pick {
        Ok(Some(id)) => Ok(Some(id@)),
        Ok(None) => Ok(None),
        Err(e) => Err(e),
    }
}

fn first_copy(list: &Vec<String>) -> (r: Option<String>)
    ensures
        r is Some <==> first_text(list@) is Some,
        r is Some ==> r->0@ == first_text(list@)->0,
{
    if list.len() == 0 {
        None
    } else {
        Some(list[0].clone())
    }
}

fn top_three(shortlist: &Vec<(String, Score)>) -> (r: Vec<String>)
    ensures
        r@ == top_ids(shortlist@, 3),
{
    let mut ids: Vec<String> = Vec::new();
    let mut i: usize = 0;
    while i < shortlist.len() && i < 3
        invariant
            i <= shortlist@.len(),
            i <= 3,
            ids@ =~= Seq::new(i as nat, |j: int| shortlist@[j].0),
        decreases 3 - i,
    {
        ids.push(shortlist[i].0.clone());
        i = i + 1;
    }
    ids
}

/// A policy's top-one pick on one case.
pub fn pick_under(
    k: usize,
    evidence: &StageEvidence,
    record: &EvaluationCaseRecord,
    threshold: Score,
) -> (r: Result<Option<String>, ()>)
    requires
        k < POLICY_COUNT,
    ensures
        pick_view(r) == policy_pick(k as int, *evidence, *record, threshold),
{
    if k == 0 {
        return match &evidence.lexical {
            Some(hits) => Ok(first_copy(hits)),
            None => Err(()),
        };
    }
    if k == 4 {
        return Ok(first_copy(&record.suggested_skills));
    }
    let wide = match &evidence.wide {
        Some(wide) => wide,
        None => return Err(()),
    };
    if k == 1 {
        if wide.low_need || wide.shortlist.len() == 0 {
            return Ok(None);
        }
        return Ok(Some(wide.shortlist[0].0.clone()));
    }
    if wide.low_need {
        return Ok(None);
    }
    if k == 2 {
        return match &evidence.rerank {
            None => Err(()),
            Some(rerank) => match find_leader(
                RankBy::Fit,
                &rerank.candidates,
                Some(threshold),
                None,
            ) {
                Some(i) => Ok(Some(rerank.candidates[i].id.clone())),
                None => Ok(None),
            },
        };
    }
    match &evidence.rerank {
        None => Err(()),
        Some(rerank) => {
            let finalists: Vec<String> = top_three(&wide.shortlist);
            match find_leader(
                RankBy::Fit,
                &rerank.candidates,
                Some(threshold),
                Some(&finalists),
            ) {
                None => Ok(None),
                Some(_) => match find_leader(
                    RankBy::Probability,
                    &rerank.candidates,
                    None,
                    Some(&finalists),
                ) {
                    Some(i) => Ok(Some(rerank.candidates[i].id.clone())),
                    None => Ok(None),
                },
            }
        },
    }
}

/// Whether every policy can score a case.
pub open spec fn scorable(
    evidence: StageEvidence,
    record: EvaluationCaseRecord,
    threshold: Score,
) -> bool {
    forall|k: int|
        0 <= k < POLICY_COUNT ==> (#[trigger] policy_pick(k, evidence, record, threshold)) is Ok
}

/// Whether every policy can score a case.
pub fn all_score(
    evidence: &StageEvidence,
    record: &EvaluationCaseRecord,
    threshold: Score,
) -> (r: bool)
    ensures
        r == scorable(*evidence, *record, threshold),
{
    let mut k: usize = 0;
    while k < POLICY_COUNT
        invariant
            k <= POLICY_COUNT,
            forall|j: int|
                0 <= j < k ==> (#[trigger] policy_pick(j, *evidence, *record, threshold)) is Ok,
        decreases POLICY_COUNT - k,
    {
        let pick: Result<Option<String>, ()> = pick_under(k, evidence, record, threshold);
        if pick.is_err() {
            assert(policy_pick(k as int, *evidence, *record, threshold) is Err);
            return false;
        }
        k = k + 1;
    }
    true
}

/// Whether a reranked skill is one of the first three shortlisted.
pub open spec fn shortlisted_top(
    shortlist: Seq<(String, Score)>,
    candidates: Seq<RerankCandidate>,
    i: int,
) -> bool {
    &&& 0 <= i < candidates.len()
    &&& exists|p: int|
        0 <= p < 3 && p < shortlist.len() && (#[trigger] shortlist[p]).0@ == candidates[i].id@
}

/// The stages of a case that passed its gate and was reranked.
pub open spec fn reranked(evidence: StageEvidence) -> bool {
    evidence.wide is Some && !evidence.wide->0.low_need && evidence.rerank is Some
}

/// Whether some reranked skill of the wide top three reaches a fit.
pub open spec fn top_three_reach(evidence: StageEvidence, threshold: Score) -> bool {
    exists|i: int|
        #[trigger] shortlisted_top(
            evidence.wide->0.shortlist@,
            evidence.rerank->0.candidates@,
            i,
        ) && evidence.rerank->0.candidates@[i].fit.at_least_spec(threshold)
}

/// No skill of a list has the greater choice probability, and none with the
/// same one has the smaller identity.
pub open spec fn best_choice(
    candidates: Seq<RerankCandidate>,
    i: int,
    j: int,
) -> bool {
    let (x, y) = (candidates[i].probability.total_key(), candidates[j].probability.total_key());
    x >= y && (x == y ==> !text_precedes(candidates[j].id@, candidates[i].id@))
}

/// Whether a reranked skill is one of the wide top three and no other one of
/// them is likelier.
pub open spec fn likeliest_finalist(evidence: StageEvidence, i: int) -> bool {
    let shortlist = evidence.wide->0.shortlist@;
    let candidates = evidence.rerank->0.candidates@;
    &&& shortlisted_top(shortlist, candidates, i)
    &&& forall|j: int| #[trigger]
        shortlisted_top(shortlist, candidates, j) ==> best_choice(candidates, i, j)
}

/// Whether a reranked skill reaches a fit and no other one that does fits better.
pub open spec fn best_fit(candidates: Seq<RerankCandidate>, threshold: Score, i: int) -> bool {
    &&& 0 <= i < candidates.len()
    &&& candidates[i].fit.at_least_spec(threshold)
    &&& forall|j: int|
        0 <= j < candidates.len() && (#[trigger] candidates[j]).fit.at_least_spec(threshold) ==> {
            &&& candidates[j].fit.total_key() <= candidates[i].fit.total_key()
            &&& candidates[j].fit.total_key() == candidates[i].fit.total_key() ==> !text_precedes(
                candidates[j].id@,
                candidates[i].id@,
            )
        }
}

proof fn lemma_finalists(
    evidence: StageEvidence,
    i: int,
)
    requires
        reranked(evidence),
        0 <= i < evidence.rerank->0.candidates@.len(),
    ensures
        text::lists(
            top_ids(evidence.wide->0.shortlist@, 3),
            evidence.rerank->0.candidates@[i].id@,
        ) <==> shortlisted_top(
            evidence.wide->0.shortlist@,
            evidence.rerank->0.candidates@,
            i,
        ),
{
    let shortlist = evidence.wide->0.shortlist@;
    let ids = top_ids(shortlist, 3);
    let id = evidence.rerank->0.candidates@[i].id@;
    if text::lists(ids, id) {
        let p = choose|p: int| 0 <= p < ids.len() && (#[trigger] ids[p])@ == id;
        assert(shortlist[p].0@ == id);
    }
    if shortlisted_top(shortlist, evidence.rerank->0.candidates@, i) {
        let p = choose|p: int|
            0 <= p < 3 && p < shortlist.len() && (#[trigger] shortlist[p]).0@ == id;
        assert(ids[p]@ == id);
    }
}

proof fn lemma_leader_exists(
    by: RankBy,
    candidates: Seq<RerankCandidate>,
    least_fit: Option<Score>,
    among: Option<Seq<String>>,
    n: int,
) -> (best: int)
    requires
        0 <= n <= candidates.len(),
        exists|i: int| 0 <= i < n && competes(#[trigger] candidates[i], least_fit, among),
    ensures
        0 <= best < n,
        competes(candidates[best], least_fit, among),
        forall|j: int|
            0 <= j < n && competes(#[trigger] candidates[j], least_fit, among) ==> stands_above(
                by,
                candidates[best],
                candidates[j],
            ),
    decreases n,
{
    let last = candidates[n - 1];
    if exists|i: int| 0 <= i < n - 1 && competes(#[trigger] candidates[i], least_fit, among) {
        let best = lemma_leader_exists(by, candidates, least_fit, among, n - 1);
        lemma_precedes_total(last.id@, candidates[best].id@);
        if competes(last, least_fit, among) && stands_above(by, last, candidates[best]) {
            assert forall|j: int|
                0 <= j < n && competes(#[trigger] candidates[j], least_fit, among) implies
                stands_above(by, last, candidates[j]) by {
                if j < n - 1 {
                    lemma_stands_above_transitive(by, last, candidates[best], candidates[j]);
                }
            }
            n - 1
        } else {
            assert(competes(last, least_fit, among) ==> stands_above(by, candidates[best], last));
            best
        }
    } else {
        n - 1
    }
}

/// Whether a pick is a skill of a list of reranked ones that stands out among
/// those of them that compete.
proof fn lemma_leader_is(
    by: RankBy,
    candidates: Seq<RerankCandidate>,
    least_fit: Option<Score>,
    among: Option<Seq<String>>,
) -> (best: int)
    requires
        exists|i: int|
            0 <= i < candidates.len() && competes(#[trigger] candidates[i], least_fit, among),
    ensures
        leads(by, candidates, least_fit, among, best),
        leader(by, candidates, least_fit, among) == Some(candidates[best].id@),
{
    let first = lemma_leader_exists(
        by,
        candidates,
        least_fit,
        among,
        candidates.len() as int,
    );
    assert(leads(by, candidates, least_fit, among, first));
    let best = choose|i: int| leads(by, candidates, least_fit, among, i);
    best
}

/// The fourth policy picks, where an open gate admits the case and one of the wide top three
/// fits, the one of those three with the greatest choice probability: between
/// equal ones that with the smallest identity. It abstains where none of the
/// three fits.
pub proof fn lemma_cookbook_picks_the_likeliest_finalist(
    evidence: StageEvidence,
    record: EvaluationCaseRecord,
    threshold: Score,
)
    requires
        reranked(evidence),
    ensures
        !top_three_reach(evidence, threshold) ==> policy_pick(3, evidence, record, threshold) == Ok::<
            Option<Seq<char>>,
            (),
        >(None),
        top_three_reach(evidence, threshold) ==> exists|i: int| #[trigger]
            likeliest_finalist(evidence, i) && policy_pick(3, evidence, record, threshold) == Ok::<
                Option<Seq<char>>,
                (),
            >(Some(evidence.rerank->0.candidates@[i].id@)),
{
    let shortlist = evidence.wide->0.shortlist@;
    let candidates = evidence.rerank->0.candidates@;
    let ids = top_ids(shortlist, 3);
    assert forall|i: int| 0 <= i < candidates.len() implies text::lists(
        ids,
        (#[trigger] candidates[i]).id@,
    ) == shortlisted_top(shortlist, candidates, i) by {
        lemma_finalists(evidence, i);
    }
    if top_three_reach(evidence, threshold) {
        let f = choose|i: int|
            #[trigger] shortlisted_top(shortlist, candidates, i)
                && candidates[i].fit.at_least_spec(threshold);
        assert(competes(candidates[f], Some(threshold), Some(ids)));
        assert(finalist_fits(candidates, ids, threshold));
        assert(competes(candidates[f], None, Some(ids)));
        let best = lemma_leader_is(RankBy::Probability, candidates, None, Some(ids));
        assert(shortlisted_top(shortlist, candidates, best));
        assert forall|j: int| #[trigger]
            shortlisted_top(shortlist, candidates, j) implies best_choice(candidates, best, j) by {
            assert(competes(candidates[j], None, Some(ids)));
            assert(stands_above(RankBy::Probability, candidates[best], candidates[j]));
            lemma_precedes_total(candidates[best].id@, candidates[j].id@);
        }
        assert(likeliest_finalist(evidence, best));
    } else if finalist_fits(candidates, ids, threshold) {
        let f = choose|i: int|
            0 <= i < candidates.len() && competes(
                #[trigger] candidates[i],
                Some(threshold),
                Some(ids),
            );
        assert(shortlisted_top(shortlist, candidates, f));
    }
}

/// Whether two reranks name the same skills with the same choice probabilities.
pub open spec fn same_choices(a: Seq<RerankCandidate>, b: Seq<RerankCandidate>) -> bool {
    &&& a.len() == b.len()
    &&& forall|i: int|
        0 <= i < a.len() ==> (#[trigger] a[i]).id@ == b[i].id@ && a[i].probability
            == b[i].probability
}

/// Whether two reranks name the same skills with the same fits.
pub open spec fn same_fits(a: Seq<RerankCandidate>, b: Seq<RerankCandidate>) -> bool {
    &&& a.len() == b.len()
    &&& forall|i: int|
        0 <= i < a.len() ==> (#[trigger] a[i]).id@ == b[i].id@ && a[i].fit == b[i].fit
}

/// The fits decide whether the fourth policy picks, and nothing of what it
/// picks: as long as one of the wide top three fits, changing the fits leaves
/// the pick as it was.
pub proof fn lemma_cookbook_pick_ignores_fits(
    a: StageEvidence,
    b: StageEvidence,
    a_record: EvaluationCaseRecord,
    b_record: EvaluationCaseRecord,
    a_threshold: Score,
    b_threshold: Score,
)
    requires
        reranked(a),
        reranked(b),
        a.wide->0.shortlist@ == b.wide->0.shortlist@,
        same_choices(a.rerank->0.candidates@, b.rerank->0.candidates@),
        top_three_reach(a, a_threshold),
        top_three_reach(b, b_threshold),
    ensures
        policy_pick(3, a, a_record, a_threshold) == policy_pick(3, b, b_record, b_threshold),
{
    let shortlist = a.wide->0.shortlist@;
    let x = a.rerank->0.candidates@;
    let y = b.rerank->0.candidates@;
    lemma_cookbook_picks_the_likeliest_finalist(a, a_record, a_threshold);
    lemma_cookbook_picks_the_likeliest_finalist(b, b_record, b_threshold);
    let i = choose|i: int| #[trigger]
        likeliest_finalist(a, i) && policy_pick(3, a, a_record, a_threshold) == Ok::<
            Option<Seq<char>>,
            (),
        >(Some(x[i].id@));
    let k = choose|k: int| #[trigger]
        likeliest_finalist(b, k) && policy_pick(3, b, b_record, b_threshold) == Ok::<
            Option<Seq<char>>,
            (),
        >(Some(y[k].id@));
    assert(shortlisted_top(shortlist, x, k)) by {
        assert(x[k].id@ == y[k].id@);
    }
    assert(shortlisted_top(shortlist, y, i)) by {
        assert(x[i].id@ == y[i].id@);
    }
    assert(best_choice(x, i, k));
    assert(best_choice(y, k, i));
    lemma_precedes_total(x[i].id@, x[k].id@);
}

/// The third policy picks, where an open gate admits the case, the reranked skill with the
/// greatest fit of those at or above the threshold: between equal ones that
/// with the smallest identity. It abstains where none is.
pub proof fn lemma_fit_only_picks_the_best_fit(
    evidence: StageEvidence,
    record: EvaluationCaseRecord,
    threshold: Score,
)
    requires
        reranked(evidence),
    ensures
        ({
            let candidates = evidence.rerank->0.candidates@;
            let pick = policy_pick(2, evidence, record, threshold);
            &&& pick is Ok
            &&& pick->Ok_0 is None <==> forall|j: int|
                0 <= j < candidates.len() ==> !(#[trigger] candidates[j]).fit.at_least_spec(
                    threshold,
                )
            &&& pick->Ok_0 is Some ==> exists|i: int| #[trigger]
                best_fit(candidates, threshold, i) && candidates[i].id@ == pick->Ok_0->0
        }),
{
    let candidates = evidence.rerank->0.candidates@;
    if exists|j: int|
        0 <= j < candidates.len() && (#[trigger] candidates[j]).fit.at_least_spec(threshold) {
        let f = choose|j: int|
            0 <= j < candidates.len() && (#[trigger] candidates[j]).fit.at_least_spec(threshold);
        assert(competes(candidates[f], Some(threshold), None));
        let best = lemma_leader_is(RankBy::Fit, candidates, Some(threshold), None);
        assert forall|j: int|
            0 <= j < candidates.len() && (#[trigger] candidates[j]).fit.at_least_spec(
                threshold,
            ) implies candidates[j].fit.total_key() <= candidates[best].fit.total_key() && (
        candidates[j].fit.total_key() == candidates[best].fit.total_key() ==> !text_precedes(
            candidates[j].id@,
            candidates[best].id@,
        )) by {
            assert(competes(candidates[j], Some(threshold), None));
            lemma_precedes_total(candidates[best].id@, candidates[j].id@);
        }
        assert(best_fit(candidates, threshold, best));
    }
}

/// The third policy ignores the choice distribution: changing the choice
/// probabilities, and the shortlist, leaves its pick as it was.
pub proof fn lemma_fit_only_ignores_choices(
    a: StageEvidence,
    b: StageEvidence,
    a_record: EvaluationCaseRecord,
    b_record: EvaluationCaseRecord,
    threshold: Score,
)
    requires
        reranked(a),
        reranked(b),
        same_fits(a.rerank->0.candidates@, b.rerank->0.candidates@),
    ensures
        policy_pick(2, a, a_record, threshold) == policy_pick(2, b, b_record, threshold),
{
    let x = a.rerank->0.candidates@;
    let y = b.rerank->0.candidates@;
    lemma_fit_only_picks_the_best_fit(a, a_record, threshold);
    lemma_fit_only_picks_the_best_fit(b, b_record, threshold);
    assert forall|j: int| 0 <= j < x.len() implies (#[trigger] x[j]).fit.at_least_spec(threshold)
        == y[j].fit.at_least_spec(threshold) by {
        assert(x[j].fit == y[j].fit);
    }
    assert forall|j: int| 0 <= j < y.len() implies (#[trigger] y[j]).id@ == x[j].id@ by {
        assert(x[j].id@ == y[j].id@);
    }
    let p = policy_pick(2, a, a_record, threshold)->Ok_0;
    let q = policy_pick(2, b, b_record, threshold)->Ok_0;
    if p is Some {
        let i = choose|i: int| #[trigger] best_fit(x, threshold, i) && x[i].id@ == p->0;
        assert(x[i].fit == y[i].fit);
        assert(y[i].fit.at_least_spec(threshold));
        assert(q is Some);
        let k = choose|k: int| #[trigger] best_fit(y, threshold, k) && y[k].id@ == q->0;
        assert(x[k].fit == y[k].fit && x[i].fit == y[i].fit);
        assert(x[k].fit.at_least_spec(threshold));
        lemma_precedes_total(x[i].id@, x[k].id@);
    } else if q is Some {
        let k = choose|k: int| #[trigger] best_fit(y, threshold, k) && y[k].id@ == q->0;
        assert(x[k].fit == y[k].fit);
        assert(x[k].fit.at_least_spec(threshold));
        assert(false);
    }
}

/// The first policy is the lexical pass alone, the second an open gate with the head
/// of the shortlist, the last the production decision: each picks the first of
/// its list, abstains where that is empty, and depends on nothing else.
pub proof fn lemma_listed_policies_pick_the_head(
    evidence: StageEvidence,
    record: EvaluationCaseRecord,
    threshold: Score,
)
    ensures
        evidence.lexical is Some && evidence.lexical->0@.len() > 0 ==> policy_pick(
            0,
            evidence,
            record,
            threshold,
        ) == Ok::<Option<Seq<char>>, ()>(Some(evidence.lexical->0@[0]@)),
        evidence.lexical is Some && evidence.lexical->0@.len() == 0 ==> policy_pick(
            0,
            evidence,
            record,
            threshold,
        ) == Ok::<Option<Seq<char>>, ()>(None),
        evidence.wide is Some && !evidence.wide->0.low_need && evidence.wide->0.shortlist@.len()
            > 0 ==> policy_pick(1, evidence, record, threshold) == Ok::<Option<Seq<char>>, ()>(
            Some(evidence.wide->0.shortlist@[0].0@),
        ),
        evidence.wide is Some && evidence.wide->0.shortlist@.len() == 0 ==> policy_pick(
            1,
            evidence,
            record,
            threshold,
        ) == Ok::<Option<Seq<char>>, ()>(None),
        record.suggested_skills@.len() > 0 ==> policy_pick(4, evidence, record, threshold) == Ok::<
            Option<Seq<char>>,
            (),
        >(Some(record.suggested_skills@[0]@)),
        record.suggested_skills@.len() == 0 ==> policy_pick(4, evidence, record, threshold) == Ok::<
            Option<Seq<char>>,
            (),
        >(None),
{
}

/// A gate that stopped a run stops every policy behind it, whatever else was
/// answered.
pub proof fn lemma_closed_gate_abstains(
    k: int,
    evidence: StageEvidence,
    record: EvaluationCaseRecord,
    threshold: Score,
)
    requires
        1 <= k <= 3,
        evidence.wide is Some,
        evidence.wide->0.low_need,
    ensures
        policy_pick(k, evidence, record, threshold) == Ok::<Option<Seq<char>>, ()>(None),
{
}

/// A policy cannot score a case exactly where the answer it reads is missing:
/// the lexical pass for the first, the wide answer for the three behind a gate,
/// and behind an open gate the rerank for the third and the fourth.
pub proof fn lemma_unscorable_exactly_without_evidence(
    evidence: StageEvidence,
    record: EvaluationCaseRecord,
    threshold: Score,
)
    ensures
        policy_pick(0, evidence, record, threshold) is Err <==> evidence.lexical is None,
        policy_pick(1, evidence, record, threshold) is Err <==> evidence.wide is None,
        forall|k: int|
            2 <= k <= 3 ==> (#[trigger] policy_pick(k, evidence, record, threshold) is Err <==> (
            evidence.wide is None || (!evidence.wide->0.low_need && evidence.rerank is None))),
        policy_pick(4, evidence, record, threshold) is Ok,
        scorable(evidence, record, threshold) <==> evidence.lexical is Some && evidence.wide is Some
            && (evidence.wide->0.low_need || evidence.rerank is Some),
{
    if evidence.lexical is None {
        assert(policy_pick(0, evidence, record, threshold) is Err);
    }
    if evidence.wide is None {
        assert(policy_pick(1, evidence, record, threshold) is Err);
    }
    if evidence.wide is Some && !evidence.wide->0.low_need && evidence.rerank is None {
        assert(policy_pick(2, evidence, record, threshold) is Err);
    }
    assert forall|k: int|
        0 <= k < POLICY_COUNT && evidence.lexical is Some && evidence.wide is Some && (
        evidence.wide->0.low_need || evidence.rerank is Some) implies (#[trigger] policy_pick(
        k,
        evidence,
        record,
        threshold,
    )) is Ok by {}
}

/// Every policy goes by a name of its own, and is defined by what it does.
pub proof fn lemma_policies_go_by_their_names(j: int, k: int)
    requires
        0 <= j < POLICY_COUNT,
        0 <= k < POLICY_COUNT,
    ensures
        policy_name(j) == policy_name(k) ==> j == k,
        policy_name(0) == "quill-only"@ && policy_definition(0) == QUILL_DEFINITION@,
        policy_name(1) == "choice-only"@ && policy_definition(1) == CHOICE_DEFINITION@,
        policy_name(2) == "fit-only"@ && policy_definition(2) == FIT_DEFINITION@,
        policy_name(3) == "cookbook-approx"@ && policy_definition(3) == COOKBOOK_SOURCE@
            + COOKBOOK_STEPS@,
        policy_name(4) == "blend"@ && policy_definition(4) == BLEND_DEFINITION@,
{
    reveal_strlit("quill-only");
    reveal_strlit("choice-only");
    reveal_strlit("fit-only");
    reveal_strlit("cookbook-approx");
    reveal_strlit("blend");
    assert("quill-only"@.len() == 10 && "choice-only"@.len() == 11 && "fit-only"@.len() == 8);
    assert("cookbook-approx"@.len() == 15 && "blend"@.len() == 5);
}

} // verus!
