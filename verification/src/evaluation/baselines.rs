//! Baseline selection policies scored on the same judged cases.

use crate::evaluation::labels::{
    acceptable_for, accepts_some, any_acceptable, positive_case, JudgedLabel,
};
use crate::tally::{
    lemma_tally_full, lemma_tally_monotone, lemma_tally_split, lemma_tally_step, lemma_total_step,
    tally, total,
};
use vstd::prelude::*;

verus! {

/// A rate by its exact counts.
#[derive(Clone, Copy, Debug, PartialEq, Eq, Structural)]
pub struct Ratio {
    pub successes: usize,
    pub denominator: usize,
}

impl Ratio {
    pub fn of(successes: usize, denominator: usize) -> (r: Ratio)
        ensures
            r.successes == successes,
            r.denominator == denominator,
    {
        Ratio { successes, denominator }
    }
}

/// A mean loss by its exact counts.
#[derive(Clone, Copy, Debug, PartialEq, Eq, Structural)]
pub struct MeanLoss {
    pub total_loss: u32,
    pub cases: usize,
}

/// One selection policy scored on the judged advisory cases.
#[derive(Clone, Debug, PartialEq, Eq)]
pub struct PolicyScore {
    pub policy: String,
    pub definition: String,
    pub evaluated_cases: usize,
    /// Judged cases this policy's stage evidence could not score.
    pub not_evaluated_cases: usize,
    /// Evaluated cases whose ranking failed operationally, each at loss 2.
    pub operational_failures: usize,
    /// Precision of emitted top-one suggestions.
    pub top1_precision: Ratio,
    /// Positive cases whose emitted top-one suggestion is acceptable.
    pub positive_suggestion_rate: Ratio,
    /// No-match cases that received any suggestion.
    pub needless_suggestion_rate: Ratio,
    /// Positive cases the policy abstained on.
    pub false_abstention_rate: Ratio,
    /// Positive cases where any published suggestion is acceptable.
    pub top_k_coverage: Option<Ratio>,
    /// Mean loss over the evaluated cases.
    pub mean_loss: Option<MeanLoss>,
}

/// One case's pick under a policy, against its judgment.
pub struct Pick<'a> {
    pub label: &'a JudgedLabel,
    /// The top-one pick (`None` abstains), or `Err` when not scorable.
    pub top: Result<Option<String>, ()>,
    /// The whole published list, for top-K coverage, when the policy has one.
    pub published: Option<&'a Vec<String>>,
    /// The ranking failed operationally: no policy has an answer, and the
    /// case stays in the cohort at loss 2 rather than leaving it.
    pub failed: bool,
}

/// What a pick says.
#[verifier::ext_equal]
pub struct PickView {
    pub label: JudgedLabel,
    pub top: Result<Option<Seq<char>>, ()>,
    pub published: Option<Seq<String>>,
    pub failed: bool,
}

impl<'a> View for Pick<'a> {
    type V = PickView;

    open spec fn view(&self) -> PickView {
        PickView {
            label: *self.label,
            top: match self.top {
                Ok(Some(id)) => Ok(Some(id@)),
                Ok(None) => Ok(None),
                Err(e) => Err(e),
            },
            published: match self.published {
                Some(list) => Some(list@),
                None => None,
            },
            failed: self.failed,
        }
    }
}

impl PickView {
    /// The policy answered this case.
    pub open spec fn answered(self) -> bool {
        !self.failed && self.top is Ok
    }

    /// The case is in the denominator: answered, or failed operationally.
    pub open spec fn evaluated(self) -> bool {
        self.failed || self.top is Ok
    }

    /// The policy suggested a skill.
    pub open spec fn emits(self) -> bool {
        self.answered() && self.top->Ok_0 is Some
    }

    /// The policy suggested an acceptable skill.
    pub open spec fn hits(self) -> bool {
        self.emits() && self.label.accepts(self.top->Ok_0->0)
    }

    /// The loss of the case: 0 where the answer is right, 1 for a false
    /// abstention, 2 for a wrong or needless suggestion or a failure.
    pub open spec fn loss(self) -> nat {
        if self.failed {
            2
        } else if !self.answered() || self.hits() {
            0
        } else if self.emits() {
            2
        } else if self.label.positive() {
            1
        } else {
            0
        }
    }
}

pub open spec fn pick_evaluated() -> spec_fn(PickView) -> bool {
    |p: PickView| p.evaluated()
}

pub open spec fn pick_failed() -> spec_fn(PickView) -> bool {
    |p: PickView| p.failed
}

pub open spec fn pick_unscored() -> spec_fn(PickView) -> bool {
    |p: PickView| !p.evaluated()
}

pub open spec fn pick_emits() -> spec_fn(PickView) -> bool {
    |p: PickView| p.emits()
}

pub open spec fn pick_hits() -> spec_fn(PickView) -> bool {
    |p: PickView| p.hits()
}

pub open spec fn pick_positive() -> spec_fn(PickView) -> bool {
    |p: PickView| p.evaluated() && p.label.positive()
}

pub open spec fn pick_no_match() -> spec_fn(PickView) -> bool {
    |p: PickView| p.evaluated() && !p.label.positive()
}

pub open spec fn pick_needless() -> spec_fn(PickView) -> bool {
    |p: PickView| p.emits() && !p.label.positive()
}

pub open spec fn pick_false_abstention() -> spec_fn(PickView) -> bool {
    |p: PickView| p.answered() && !p.emits() && p.label.positive()
}

pub open spec fn pick_lists() -> spec_fn(PickView) -> bool {
    |p: PickView| p.answered() && p.label.positive() && p.published is Some
}

pub open spec fn pick_covered() -> spec_fn(PickView) -> bool {
    |p: PickView|
        p.answered() && p.label.positive() && p.published is Some && accepts_some(
            &p.label,
            p.published->0,
        )
}

pub open spec fn pick_loss() -> spec_fn(PickView) -> nat {
    |p: PickView| p.loss()
}

/// What each pick of a list says.
pub open spec fn pick_views<'a>(picks: Seq<Pick<'a>>) -> Seq<PickView> {
    Seq::new(picks.len(), |i: int| picks[i]@)
}

/// Whether a score holds exactly the counts of its picks.
pub open spec fn scores(
    r: PolicyScore,
    name: Seq<char>,
    definition: Seq<char>,
    picks: Seq<PickView>,
) -> bool {
    &&& r.policy@ == name
    &&& r.definition@ == definition
    &&& r.evaluated_cases == tally(picks, pick_evaluated())
    &&& r.not_evaluated_cases == tally(picks, pick_unscored())
    &&& r.operational_failures == tally(picks, pick_failed())
    &&& r.top1_precision.successes == tally(picks, pick_hits())
    &&& r.top1_precision.denominator == tally(picks, pick_emits())
    &&& r.positive_suggestion_rate.successes == tally(picks, pick_hits())
    &&& r.positive_suggestion_rate.denominator == tally(picks, pick_positive())
    &&& r.needless_suggestion_rate.successes == tally(picks, pick_needless())
    &&& r.needless_suggestion_rate.denominator == tally(picks, pick_no_match())
    &&& r.false_abstention_rate.successes == tally(picks, pick_false_abstention())
    &&& r.false_abstention_rate.denominator == tally(picks, pick_positive())
    &&& r.top_k_coverage is Some <==> tally(picks, pick_lists()) > 0
    &&& r.top_k_coverage is Some ==> r.top_k_coverage->0.successes == tally(picks, pick_covered())
        && r.top_k_coverage->0.denominator == tally(picks, pick_positive())
    &&& r.mean_loss is Some <==> tally(picks, pick_evaluated()) > 0
    &&& r.mean_loss is Some ==> r.mean_loss->0.total_loss == total(picks, pick_loss())
        && r.mean_loss->0.cases == tally(picks, pick_evaluated())
}

/// Score picks with the exact denominators and the 0/1/2 loss.
pub fn score_picks<'a>(name: &str, definition: &str, picks: &Vec<Pick<'a>>) -> (r: PolicyScore)
    requires
        2 * picks@.len() <= u32::MAX,
    ensures
        scores(r, name@, definition@, pick_views(picks@)),
{
    let ghost seen = pick_views(picks@);
    let mut emitted: usize = 0;
    let mut precise: usize = 0;
    let mut positive_cases: usize = 0;
    let mut needless: usize = 0;
    let mut no_match_cases: usize = 0;
    let mut abstentions: usize = 0;
    let mut total_loss: u32 = 0;
    let mut evaluated: usize = 0;
    let mut not_evaluated: usize = 0;
    let mut covered: usize = 0;
    let mut listed: usize = 0;
    let mut failures: usize = 0;
    let mut i: usize = 0;
    while i < picks.len()
        invariant
            i <= picks@.len(),
            2 * picks@.len() <= u32::MAX,
            seen == pick_views(picks@),
            emitted == tally(seen.take(i as int), pick_emits()),
            precise == tally(seen.take(i as int), pick_hits()),
            positive_cases == tally(seen.take(i as int), pick_positive()),
            needless == tally(seen.take(i as int), pick_needless()),
            no_match_cases == tally(seen.take(i as int), pick_no_match()),
            abstentions == tally(seen.take(i as int), pick_false_abstention()),
            total_loss == total(seen.take(i as int), pick_loss()),
            evaluated == tally(seen.take(i as int), pick_evaluated()),
            not_evaluated == tally(seen.take(i as int), pick_unscored()),
            covered == tally(seen.take(i as int), pick_covered()),
            listed == tally(seen.take(i as int), pick_lists()),
            failures == tally(seen.take(i as int), pick_failed()),
            total_loss <= 2 * i,
            emitted <= i,
            precise <= i,
            positive_cases <= i,
            needless <= i,
            no_match_cases <= i,
            abstentions <= i,
            evaluated <= i,
            not_evaluated <= i,
            covered <= i,
            listed <= i,
            failures <= i,
        decreases picks@.len() - i,
    {
        let pick: &Pick<'a> = &picks[i];
        proof {
            lemma_tally_step(seen, i as int, pick_emits());
            lemma_tally_step(seen, i as int, pick_hits());
            lemma_tally_step(seen, i as int, pick_positive());
            lemma_tally_step(seen, i as int, pick_needless());
            lemma_tally_step(seen, i as int, pick_no_match());
            lemma_tally_step(seen, i as int, pick_false_abstention());
            lemma_total_step(seen, i as int, pick_loss());
            lemma_tally_step(seen, i as int, pick_evaluated());
            lemma_tally_step(seen, i as int, pick_unscored());
            lemma_tally_step(seen, i as int, pick_covered());
            lemma_tally_step(seen, i as int, pick_lists());
            lemma_tally_step(seen, i as int, pick_failed());
        }
        assert(seen[i as int] == pick@);
        let positive: bool = positive_case(pick.label);
        if pick.failed {
            // An attempted operational failure keeps its place at loss 2. It is
            // neither a suggestion nor a relevance abstention, but it does miss
            // a positive case.
            evaluated = evaluated + 1;
            failures = failures + 1;
            total_loss = total_loss + 2;
            if positive {
                positive_cases = positive_cases + 1;
            } else {
                no_match_cases = no_match_cases + 1;
            }
        } else {
            match &pick.top {
                Err(_) => {
                    not_evaluated = not_evaluated + 1;
                },
                Ok(top) => {
                    evaluated = evaluated + 1;
                    let hit: bool = match top {
                        Some(id) => acceptable_for(pick.label, id.as_str()),
                        None => false,
                    };
                    if top.is_some() {
                        emitted = emitted + 1;
                    }
                    if hit {
                        precise = precise + 1;
                    }
                    if positive {
                        positive_cases = positive_cases + 1;
                        if top.is_none() {
                            abstentions = abstentions + 1;
                        }
                        if let Some(list) = pick.published {
                            listed = listed + 1;
                            if any_acceptable(pick.label, list) {
                                covered = covered + 1;
                            }
                        }
                        if !hit {
                            total_loss = total_loss + if top.is_none() {
                                1
                            } else {
                                2
                            };
                        }
                    } else {
                        no_match_cases = no_match_cases + 1;
                        if top.is_some() {
                            needless = needless + 1;
                            total_loss = total_loss + 2;
                        }
                    }
                },
            }
        }
        i = i + 1;
    }
    assert(seen.take(i as int) =~= seen);
    PolicyScore {
        policy: name.to_owned(),
        definition: definition.to_owned(),
        evaluated_cases: evaluated,
        not_evaluated_cases: not_evaluated,
        operational_failures: failures,
        top1_precision: Ratio::of(precise, emitted),
        positive_suggestion_rate: Ratio::of(precise, positive_cases),
        needless_suggestion_rate: Ratio::of(needless, no_match_cases),
        false_abstention_rate: Ratio::of(abstentions, positive_cases),
        top_k_coverage: if listed > 0 {
            Some(Ratio::of(covered, positive_cases))
        } else {
            None
        },
        mean_loss: if evaluated > 0 {
            Some(MeanLoss { total_loss, cases: evaluated })
        } else {
            None
        },
    }
}

proof fn lemma_loss_bound(picks: Seq<PickView>)
    ensures
        total(picks, pick_loss()) <= 2 * tally(picks, pick_evaluated()),
    decreases picks.len(),
{
    if picks.len() > 0 {
        lemma_loss_bound(picks.drop_last());
    }
}

/// No rate of a score has more successes than cases, no case loses more than
/// 2, and each judged case is either evaluated or left out.
pub proof fn lemma_rates_are_proper(
    r: PolicyScore,
    name: Seq<char>,
    definition: Seq<char>,
    picks: Seq<PickView>,
)
    requires
        scores(r, name, definition, picks),
    ensures
        r.top1_precision.successes <= r.top1_precision.denominator,
        r.positive_suggestion_rate.successes <= r.positive_suggestion_rate.denominator,
        r.needless_suggestion_rate.successes <= r.needless_suggestion_rate.denominator,
        r.false_abstention_rate.successes <= r.false_abstention_rate.denominator,
        r.top_k_coverage is Some ==> r.top_k_coverage->0.successes
            <= r.top_k_coverage->0.denominator,
        r.mean_loss is Some ==> r.mean_loss->0.total_loss <= 2 * r.mean_loss->0.cases,
        r.evaluated_cases + r.not_evaluated_cases == picks.len(),
        r.operational_failures <= r.evaluated_cases,
{
    lemma_tally_monotone(picks, pick_hits(), pick_emits());
    assert forall|i: int| 0 <= i < picks.len() implies (pick_hits()(#[trigger] picks[i])
        ==> pick_positive()(picks[i])) by {
        if pick_hits()(picks[i]) {
            assert(picks[i].label.accepts(picks[i].top->Ok_0->0));
        }
    }
    lemma_tally_monotone(picks, pick_hits(), pick_positive());
    lemma_tally_monotone(picks, pick_needless(), pick_no_match());
    lemma_tally_monotone(picks, pick_false_abstention(), pick_positive());
    lemma_tally_monotone(picks, pick_covered(), pick_positive());
    lemma_tally_monotone(picks, pick_failed(), pick_evaluated());
    lemma_loss_bound(picks);
    let every = |p: PickView| true;
    lemma_tally_split(picks, every, pick_evaluated(), pick_unscored());
    lemma_tally_full(picks, every);
}

/// The loss that a score adds up.
pub open spec fn scored_loss(r: PolicyScore) -> nat {
    match r.mean_loss {
        Some(mean) => mean.total_loss as nat,
        None => 0,
    }
}

proof fn lemma_push<A>(s: Seq<A>, x: A)
    ensures
        s.push(x).drop_last() == s,
        s.push(x).last() == x,
{
    assert(s.push(x).drop_last() =~= s);
}

/// A score without a pick counts nothing and has no mean.
pub proof fn lemma_no_pick_scores_nothing(
    r: PolicyScore,
    name: Seq<char>,
    definition: Seq<char>,
    picks: Seq<PickView>,
)
    requires
        picks.len() == 0,
        scores(r, name, definition, picks),
    ensures
        r.evaluated_cases == 0 && r.not_evaluated_cases == 0 && r.operational_failures == 0,
        r.top1_precision.denominator == 0 && r.positive_suggestion_rate.denominator == 0,
        r.needless_suggestion_rate.denominator == 0 && r.false_abstention_rate.denominator == 0,
        r.top_k_coverage is None && r.mean_loss is None,
{
}

/// What one more pick adds to a score. A case that was not scored is only
/// counted as such. A failure is evaluated at loss 2 and is no suggestion and no
/// abstention. A suggestion is a hit at loss 0 where the judgment accepts it,
/// else it loses 2, and is needless where no skill would have helped. An
/// abstention loses 1 where one would have, and nothing where none would.
pub proof fn lemma_one_more_pick(
    a: PolicyScore,
    b: PolicyScore,
    name: Seq<char>,
    definition: Seq<char>,
    picks: Seq<PickView>,
    p: PickView,
)
    requires
        scores(a, name, definition, picks),
        scores(b, name, definition, picks.push(p)),
    ensures
        ({
            let scored = !p.failed && p.top is Ok;
            let suggests = scored && p.top->Ok_0 is Some;
            let hit = suggests && p.label.accepts(p.top->Ok_0->0);
            let positive = p.label.positive();
            let one = |yes: bool|
                if yes {
                    1int
                } else {
                    0
                };
            &&& b.evaluated_cases - a.evaluated_cases == one(p.failed || scored)
            &&& b.not_evaluated_cases - a.not_evaluated_cases == one(!p.failed && p.top is Err)
            &&& b.operational_failures - a.operational_failures == one(p.failed)
            &&& b.top1_precision.denominator - a.top1_precision.denominator == one(suggests)
            &&& b.top1_precision.successes - a.top1_precision.successes == one(hit)
            &&& b.positive_suggestion_rate.denominator - a.positive_suggestion_rate.denominator
                == one((p.failed || scored) && positive)
            &&& b.positive_suggestion_rate.successes - a.positive_suggestion_rate.successes == one(
                hit,
            )
            &&& b.needless_suggestion_rate.denominator - a.needless_suggestion_rate.denominator
                == one((p.failed || scored) && !positive)
            &&& b.needless_suggestion_rate.successes - a.needless_suggestion_rate.successes == one(
                suggests && !positive,
            )
            &&& b.false_abstention_rate.denominator - a.false_abstention_rate.denominator == one(
                (p.failed || scored) && positive,
            )
            &&& b.false_abstention_rate.successes - a.false_abstention_rate.successes == one(
                scored && p.top->Ok_0 is None && positive,
            )
            &&& scored_loss(b) - scored_loss(a) == if p.failed {
                2int
            } else if !scored || hit {
                0
            } else if suggests {
                2
            } else {
                one(positive)
            }
            &&& b.mean_loss is Some <==> b.evaluated_cases > 0
            &&& b.mean_loss is Some ==> b.mean_loss->0.cases == b.evaluated_cases
        }),
{
    lemma_push(picks, p);
    lemma_tally_zero_means_no_loss(picks);
    lemma_tally_zero_means_no_loss(picks.push(p));
}

proof fn lemma_tally_zero_means_no_loss(picks: Seq<PickView>)
    ensures
        tally(picks, pick_evaluated()) == 0 ==> total(picks, pick_loss()) == 0,
{
    lemma_loss_bound(picks);
}

/// The coverage of published lists counts a positive case as covered exactly
/// where the judgment accepts some skill of the list, not its first alone.
pub proof fn lemma_one_more_published_list(
    a: PolicyScore,
    b: PolicyScore,
    name: Seq<char>,
    definition: Seq<char>,
    picks: Seq<PickView>,
    p: PickView,
)
    requires
        scores(a, name, definition, picks),
        scores(b, name, definition, picks.push(p)),
        !p.failed,
        p.top is Ok,
        p.label.positive(),
        p.published is Some,
    ensures
        b.top_k_coverage is Some,
        b.top_k_coverage->0.denominator == b.positive_suggestion_rate.denominator,
        b.top_k_coverage->0.successes == (if a.top_k_coverage is Some {
            a.top_k_coverage->0.successes as int
        } else {
            0
        }) + (if exists|i: int|
            0 <= i < p.published->0.len() && p.label.accepts((#[trigger] p.published->0[i])@) {
            1int
        } else {
            0
        }),
{
    lemma_push(picks, p);
    lemma_tally_monotone(picks, pick_covered(), pick_lists());
}

} // verus!
