//! Equations, assumptions and interpretation behind an evaluation report,
//! computed from the report's values alone.

use crate::evaluation::frame::{DesignStatus, EvaluationBatchReport};
use crate::evaluation::report::{
    opt_view, BatchCaseReport, BatchLossSummary, CaseExecutionStatus, GateStatus,
};
use crate::score::Score;
use crate::tally::{lemma_tally_step, tally};
use crate::text;
use crate::text::{decimal, lemma_occurs_between, occurs};
use vstd::prelude::*;
use vstd::string::*;

verus! {

/// A binary64 number with its shortest decimal text.
#[derive(Clone, Debug, PartialEq, Eq)]
pub struct Number {
    pub value: Score,
    pub text: String,
}

/// The sample of a frame.
#[derive(Clone, Debug, PartialEq, Eq)]
pub struct SampleSummary {
    /// The name of the rule that chose one representative per family.
    pub representative_rule: String,
    pub design_status: DesignStatus,
}

/// The loss of one stratum.
#[derive(Clone, Debug, PartialEq, Eq)]
pub struct StratumLoss {
    pub weight: Number,
    pub mean_loss_observed: Option<Number>,
    pub upper_bound: Number,
}

/// A design-weighted loss.
#[derive(Clone, Debug, PartialEq, Eq)]
pub struct DesignLoss {
    /// The strata in the order of their names.
    pub strata: Vec<StratumLoss>,
    pub num_strata: usize,
    pub alpha: Number,
    pub r_hat_observed: Option<Number>,
    pub r_hat_lower: Number,
    pub r_hat_upper: Number,
    pub conservative_upper_bound: Number,
    pub total_missing_labels: usize,
    pub point_estimate_guaranteed: bool,
}

/// The one-sided upper bound on the harmful rate, with four decimals.
#[derive(Clone, Debug, PartialEq, Eq)]
pub struct HarmBound {
    pub value: Score,
    pub four_decimals: String,
}

/// The numbers an explanation quotes: each is a quotient or a bound of the
/// counts in the report.
#[derive(Clone, Debug, PartialEq, Eq)]
pub struct ReportNumbers {
    /// The total loss over the attempted cases.
    pub mean_loss: Option<Number>,
    /// Half of the mean loss.
    pub mean_normalized_loss: Option<Number>,
    /// The text of two over the attempted cases.
    pub loss_unit: String,
    pub harm_bound: Option<HarmBound>,
}

/// One reported quantity with its defining equation and substituted operands.
#[derive(Clone, Debug, PartialEq, Eq)]
pub struct ExplainedQuantity {
    pub name: String,
    pub equation: String,
    pub substituted: String,
    pub value: Option<Score>,
    /// What new evidence would move this quantity, computed from the report.
    pub would_change: Option<String>,
}

/// What a quantity says.
#[verifier::ext_equal]
pub struct QuantityView {
    pub name: Seq<char>,
    pub equation: Seq<char>,
    pub substituted: Seq<char>,
    pub value: Option<Score>,
    pub would_change: Option<Seq<char>>,
}

impl View for ExplainedQuantity {
    type V = QuantityView;

    open spec fn view(&self) -> QuantityView {
        QuantityView {
            name: self.name@,
            equation: self.equation@,
            substituted: self.substituted@,
            value: self.value,
            would_change: opt_view(self.would_change),
        }
    }
}

/// What each quantity of a list says.
pub open spec fn quantity_views(quantities: Seq<ExplainedQuantity>) -> Seq<QuantityView> {
    Seq::new(quantities.len(), |i: int| quantities[i]@)
}

/// Equations, assumptions, and interpretation behind an evaluation report.
#[derive(Clone, Debug, PartialEq, Eq)]
pub struct ReportExplanation {
    pub quantities: Vec<ExplainedQuantity>,
    pub assumptions: Vec<String>,
    pub interpretation: Vec<String>,
}

/// The value of an optional number.
pub open spec fn opt_value(n: Option<Number>) -> Option<Score> {
    match n {
        Some(number) => Some(number.value),
        None => None,
    }
}

fn value_of(n: &Option<Number>) -> (r: Option<Score>)
    ensures
        r == opt_value(*n),
{
    match n {
        Some(number) => Some(number.value),
        None => None,
    }
}

pub open spec fn mean_quantity(loss: BatchLossSummary, numbers: ReportNumbers) -> QuantityView {
    QuantityView {
        name: "mean_loss"@,
        equation: "mean_loss = total_loss / attempted_cases"@,
        substituted: decimal(loss.total_loss as nat) + " / "@ + decimal(
            loss.attempted_cases as nat,
        ),
        value: opt_value(numbers.mean_loss),
        would_change: if loss.attempted_cases > 0 {
            Some(
                "Each attempted case changes this by at most 2 / "@ + decimal(
                    loss.attempted_cases as nat,
                ) + " = "@ + numbers.loss_unit@
                    + " per unit of loss; only new judged cases or corrected outcomes move it."@,
            )
        } else {
            None
        },
    }
}

pub open spec fn normalized_quantity(numbers: ReportNumbers) -> QuantityView {
    QuantityView {
        name: "mean_normalized_loss"@,
        equation: "y_i = loss_i / 2; mean_normalized_loss = mean_loss / 2"@,
        substituted: match numbers.mean_loss {
            Some(mean) => mean.text@ + " / 2"@,
            None => "no attempted case"@,
        },
        value: opt_value(numbers.mean_normalized_loss),
        would_change: None,
    }
}

/// Cases with a harmful outcome: a loss of 2.
pub open spec fn harmful_case() -> spec_fn(BatchCaseReport) -> bool {
    |case: BatchCaseReport|
        match case.status {
            CaseExecutionStatus::Completed { loss, .. } => loss == Some(2u32),
            CaseExecutionStatus::OperationalFailure { .. } => true,
            _ => false,
        }
}

/// How many cases of a report had a harmful outcome.
pub fn harmful_count(cases: &Vec<BatchCaseReport>) -> (r: usize)
    ensures
        r == tally(cases@, harmful_case()),
{
    let mut count: usize = 0;
    let mut i: usize = 0;
    while i < cases.len()
        invariant
            i <= cases@.len(),
            count == tally(cases@.take(i as int), harmful_case()),
            count <= i,
        decreases cases@.len() - i,
    {
        proof {
            lemma_tally_step(cases@, i as int, harmful_case());
        }
        let harmful: bool = match &cases[i].status {
            CaseExecutionStatus::Completed { loss, .. } => match loss {
                Some(n) => *n == 2,
                None => false,
            },
            CaseExecutionStatus::OperationalFailure { .. } => true,
            _ => false,
        };
        if harmful {
            count = count + 1;
        }
        i = i + 1;
    }
    assert(cases@.take(i as int) =~= cases@);
    count
}

/// Why a count of harmful outcomes still leaves room for a harmful rate.
pub open spec fn harm_quantity(harmful: nat, n: nat, bound: HarmBound) -> QuantityView {
    QuantityView {
        name: "harmful_outcome_rate_upper_95"@,
        equation: if harmful == 0 {
            "U = 1 - (1 - 0.95)^(1 / n) for zero harmful outcomes in n cases"@
        } else {
            "U = Beta(k + 1, n - k).ppf(0.95), the exact Clopper-Pearson upper bound"@
        },
        substituted: if harmful == 0 {
            "1 - 0.05^(1 / "@ + decimal(n) + ")"@
        } else {
            "k = "@ + decimal(harmful) + ", n = "@ + decimal(n)
        },
        value: Some(bound.value),
        would_change: Some(
            if harmful == 0 {
                "Zero of "@ + decimal(n) + " still allows a harmful rate up to "@
                    + bound.four_decimals@
                    + "; about 59 harm-free judged cases are needed before U falls below 0.05."@
            } else {
                "U cannot fall below the observed rate "@ + decimal(harmful) + " / "@ + decimal(n)
                    + "; it falls only as more harm-free judged cases are added."@
            },
        ),
    }
}

/// The harmful-outcome card of a report: none without attempted cases or where
/// the bound cannot be computed.
pub open spec fn harm_card(
    loss: BatchLossSummary,
    cases: Seq<BatchCaseReport>,
    bound: Option<HarmBound>,
) -> Option<QuantityView> {
    if loss.attempted_cases == 0 || bound is None {
        None
    } else {
        Some(harm_quantity(tally(cases, harmful_case()), loss.attempted_cases as nat, bound->0))
    }
}

fn sum_of_two(a: &str, b: &str) -> (r: String)
    ensures
        r@ == a@ + b@,
{
    let mut out: String = a.to_owned();
    out.append(b);
    out
}

/// The harmful-outcome card of a report.
pub fn harmful_outcome_card(
    loss: &BatchLossSummary,
    cases: &Vec<BatchCaseReport>,
    bound: &Option<HarmBound>,
) -> (r: Option<ExplainedQuantity>)
    ensures
        match r {
            Some(card) => harm_card(*loss, cases@, *bound) == Some(card@),
            None => harm_card(*loss, cases@, *bound) is None,
        },
{
    if loss.attempted_cases == 0 {
        return None;
    }
    let bound: &HarmBound = match bound {
        Some(bound) => bound,
        None => return None,
    };
    let harmful: usize = harmful_count(cases);
    let n: String = text::count_text(loss.attempted_cases);
    let k: String = text::count_text(harmful);
    let mut substituted: String;
    let mut would_change: String;
    let equation: String;
    if harmful == 0 {
        equation = "U = 1 - (1 - 0.95)^(1 / n) for zero harmful outcomes in n cases".to_owned();
        substituted = "1 - 0.05^(1 / ".to_owned();
        substituted.append(n.as_str());
        substituted.append(")");
        would_change = "Zero of ".to_owned();
        would_change.append(n.as_str());
        would_change.append(" still allows a harmful rate up to ");
        would_change.append(bound.four_decimals.as_str());
        would_change.append(
            "; about 59 harm-free judged cases are needed before U falls below 0.05.",
        );
    } else {
        equation =
        "U = Beta(k + 1, n - k).ppf(0.95), the exact Clopper-Pearson upper bound".to_owned();
        substituted = "k = ".to_owned();
        substituted.append(k.as_str());
        substituted.append(", n = ");
        substituted.append(n.as_str());
        would_change = "U cannot fall below the observed rate ".to_owned();
        would_change.append(k.as_str());
        would_change.append(" / ");
        would_change.append(n.as_str());
        would_change.append("; it falls only as more harm-free judged cases are added.");
    }
    Some(
        ExplainedQuantity {
            name: "harmful_outcome_rate_upper_95".to_owned(),
            equation,
            substituted,
            value: Some(bound.value),
            would_change: Some(would_change),
        },
    )
}

/// The weight of a stratum times its observed mean.
pub open spec fn observed_term(stratum: StratumLoss) -> Seq<char> {
    stratum.weight.text@ + " * "@ + match stratum.mean_loss_observed {
        Some(mean) => mean.text@,
        None => "unobserved"@,
    }
}

/// The weight of a stratum times its upper bound.
pub open spec fn bound_term(stratum: StratumLoss) -> Seq<char> {
    stratum.weight.text@ + " * "@ + stratum.upper_bound.text@
}

/// The two quantities of a design-weighted loss.
pub open spec fn design_quantities(design: DesignLoss) -> Seq<QuantityView> {
    seq![
        QuantityView {
            name: "design_weighted_mean_loss"@,
            equation: "R_hat = sum_h W_h * ybar_h, W_h = N_h / N, over observed normalized loss"@,
            substituted: text::joined(
                Seq::new(design.strata@.len(), |i: int| observed_term(design.strata@[i])),
                " + "@,
            ),
            value: opt_value(design.r_hat_observed),
            would_change: if design.total_missing_labels > 0 {
                Some(
                    decimal(design.total_missing_labels as nat)
                        + " sampled cases have no loss; judging them narrows ["@
                        + design.r_hat_lower.text@ + ", "@ + design.r_hat_upper.text@
                        + "] to a point."@,
                )
            } else {
                None
            },
        },
        QuantityView {
            name: "design_weighted_upper_bound"@,
            equation:
                "U = sum_h W_h * U_h, U_h = min(1, ybar_h_upper + sqrt(ln(H / alpha) / (2 * n_h))), exact for census strata"@,
            substituted: "H = "@ + decimal(design.num_strata as nat) + ", alpha = "@
                + design.alpha.text@ + "; "@ + text::joined(
                Seq::new(design.strata@.len(), |i: int| bound_term(design.strata@[i])),
                " + "@,
            ),
            value: Some(design.conservative_upper_bound.value),
            would_change: Some(
                "Each sampled stratum's margin sqrt(ln(H / alpha) / (2 n_h)) halves when its sample quadruples; a census stratum has none."@,
            ),
        },
    ]
}

fn stratum_terms(strata: &Vec<StratumLoss>, bounds: bool) -> (r: Vec<String>)
    ensures
        text::views(r@) == Seq::new(
            strata@.len(),
            |i: int|
                if bounds {
                    bound_term(strata@[i])
                } else {
                    observed_term(strata@[i])
                },
        ),
{
    let mut terms: Vec<String> = Vec::new();
    let mut i: usize = 0;
    while i < strata.len()
        invariant
            i <= strata@.len(),
            text::views(terms@) =~= Seq::new(
                i as nat,
                |j: int|
                    if bounds {
                        bound_term(strata@[j])
                    } else {
                        observed_term(strata@[j])
                    },
            ),
        decreases strata@.len() - i,
    {
        let ghost before = terms@;
        let stratum: &StratumLoss = &strata[i];
        let mut term: String = stratum.weight.text.clone();
        term.append(" * ");
        if bounds {
            term.append(stratum.upper_bound.text.as_str());
        } else {
            match &stratum.mean_loss_observed {
                Some(mean) => term.append(mean.text.as_str()),
                None => term.append("unobserved"),
            }
        }
        terms.push(term);
        assert(text::views(terms@) =~= text::views(before).push(term@));
        i = i + 1;
    }
    terms
}

/// Add the quantities of a design-weighted loss.
pub fn push_design_quantities(quantities: &mut Vec<ExplainedQuantity>, design: &DesignLoss)
    ensures
        quantity_views(final(quantities)@) == quantity_views(old(quantities)@)
            + design_quantities(*design),
{
    let ghost before = quantities@;
    let observed: Vec<String> = stratum_terms(&design.strata, false);
    assert(text::views(observed@) =~= Seq::new(
        design.strata@.len(),
        |i: int| observed_term(design.strata@[i]),
    ));
    let would_change: Option<String> = if design.total_missing_labels > 0 {
        let mut change: String = text::count_text(design.total_missing_labels);
        change.append(" sampled cases have no loss; judging them narrows [");
        change.append(design.r_hat_lower.text.as_str());
        change.append(", ");
        change.append(design.r_hat_upper.text.as_str());
        change.append("] to a point.");
        Some(change)
    } else {
        None
    };
    quantities.push(
        ExplainedQuantity {
            name: "design_weighted_mean_loss".to_owned(),
            equation:
                "R_hat = sum_h W_h * ybar_h, W_h = N_h / N, over observed normalized loss".to_owned(),
            substituted: text::join(&observed, " + "),
            value: value_of(&design.r_hat_observed),
            would_change,
        },
    );
    let bounds: Vec<String> = stratum_terms(&design.strata, true);
    assert(text::views(bounds@) =~= Seq::new(
        design.strata@.len(),
        |i: int| bound_term(design.strata@[i]),
    ));
    let mut substituted: String = "H = ".to_owned();
    substituted.append(text::count_text(design.num_strata).as_str());
    substituted.append(", alpha = ");
    substituted.append(design.alpha.text.as_str());
    substituted.append("; ");
    substituted.append(text::join(&bounds, " + ").as_str());
    quantities.push(
        ExplainedQuantity {
            name: "design_weighted_upper_bound".to_owned(),
            equation:
                "U = sum_h W_h * U_h, U_h = min(1, ybar_h_upper + sqrt(ln(H / alpha) / (2 * n_h))), exact for census strata".to_owned(),
            substituted,
            value: Some(design.conservative_upper_bound.value),
            would_change: Some(
                "Each sampled stratum's margin sqrt(ln(H / alpha) / (2 n_h)) halves when its sample quadruples; a census stratum has none.".to_owned(),
            ),
        },
    );
    assert(quantity_views(quantities@) =~= quantity_views(before) + design_quantities(*design));
}

/// The quantities of a report, in the order they are explained.
pub open spec fn report_quantities(
    report: EvaluationBatchReport,
    numbers: ReportNumbers,
) -> Seq<QuantityView> {
    let card = harm_card(report.loss_summary, report.cases@, numbers.harm_bound);
    (if report.labeled {
        seq![
            mean_quantity(report.loss_summary, numbers),
            normalized_quantity(numbers),
        ] + if card is Some {
            seq![card->0]
        } else {
            Seq::empty()
        }
    } else {
        Seq::empty()
    }) + if report.sample is Some && report.design_weighted_loss is Some {
        design_quantities(report.design_weighted_loss->0)
    } else {
        Seq::empty()
    }
}

/// What a report's quantities rest on.
pub open spec fn report_assumptions(report: EvaluationBatchReport) -> Seq<Seq<char>> {
    (if report.labeled {
        seq![
            "Labels are independent judgments joined by case_id at their highest revision."@,
            "Loss follows evaluation_policy.v1: a correct suggestion or abstention 0, a false abstention 1, a wrong or needless suggestion or an operational failure 2."@,
            "Explicit requests are checked separately and unjudged cases carry no loss; neither enters the loss denominator."@,
        ]
    } else {
        seq![
            "Recorded decisions are observations, not usefulness labels; replay supplies no loss."@,
        ]
    }) + match report.sample {
        Some(sample) => seq![
            "One representative per task family was selected ("@ + sample.representative_rule@
                + " rule) and the manifest was frozen before labels were joined."@,
        ] + match sample.design_status {
            DesignStatus::DiagnosticFixed => Seq::empty(),
            DesignStatus::StratifiedProbabilitySample => seq![
                "Selection is uniform without replacement within each stratum from a recorded OS-random seed."@,
            ],
            DesignStatus::FullCensus => seq![
                "Every family in the frame was evaluated; stratum means are exact."@,
            ],
        },
        None => if report.labeled {
            seq![
                "The full supplied frame was evaluated; no sampling randomness is involved."@,
            ]
        } else {
            Seq::empty()
        },
    }
}

/// How many requested cases were not completed.
pub open spec fn unfinished_cases(report: EvaluationBatchReport) -> nat {
    if report.completeness.cases_requested >= report.completeness.cases_completed {
        (report.completeness.cases_requested - report.completeness.cases_completed) as nat
    } else {
        0
    }
}

/// What a gate status means.
pub open spec fn gate_sentence(status: GateStatus) -> Seq<char> {
    match status {
        GateStatus::Passed => "The report's quality gate passed."@,
        GateStatus::Failed => "The report's quality gate failed."@,
        GateStatus::NotApplicable => "Synthetic evidence is not eligible for a quality gate."@,
        GateStatus::NotEstablished =>
            "This report is evidence for a promotion review, not a passed quality gate."@,
    }
}

/// How to read a design-weighted loss.
pub open spec fn design_reading(design: DesignLoss) -> Seq<Seq<char>> {
    seq![
        "Only the design-weighted mean loss is estimated. Weighted precision and other ratios are non-linear ratio estimators, not unbiased means, so this report gives none, and its unweighted rates describe the sample, not the frame."@,
    ] + if design.point_estimate_guaranteed {
        Seq::empty()
    } else {
        seq![
            decimal(design.total_missing_labels as nat)
                + " sampled cases lack a loss; read the design-weighted mean as the interval ["@
                + design.r_hat_lower.text@ + ", "@ + design.r_hat_upper.text@
                + "], not the observed point estimate."@,
        ]
    }
}

/// How to read a report.
pub open spec fn report_reading(report: EvaluationBatchReport) -> Seq<Seq<char>> {
    (match report.sample {
        Some(sample) => (if sample.design_status is DiagnosticFixed {
            seq![
                "A supplied seed reproduces a selection; it supports no inclusion probabilities or design-based uncertainty."@,
            ]
        } else {
            Seq::empty()
        }) + match report.design_weighted_loss {
            Some(design) => design_reading(design),
            None => Seq::empty(),
        },
        None => Seq::empty(),
    }) + (if unfinished_cases(report) > 0 {
        seq![
            decimal(unfinished_cases(report)) + " of "@ + decimal(
                report.completeness.cases_requested as nat,
            )
                + " cases are not estimable; the run is partial and they are excluded from loss rather than counted as successes."@,
        ]
    } else {
        Seq::empty()
    }) + seq![gate_sentence(report.gate_status)]
}

/// Whether an explanation says exactly what a report's values give.
pub open spec fn explains(
    r: ReportExplanation,
    report: EvaluationBatchReport,
    numbers: ReportNumbers,
) -> bool {
    &&& quantity_views(r.quantities@) == report_quantities(report, numbers)
    &&& text::views(r.assumptions@) == report_assumptions(report)
    &&& text::views(r.interpretation@) == report_reading(report)
}

fn mean_explained(loss: &BatchLossSummary, numbers: &ReportNumbers) -> (r: ExplainedQuantity)
    ensures
        r@ == mean_quantity(*loss, *numbers),
{
    let attempted: String = text::count_text(loss.attempted_cases);
    let mut substituted: String = text::number(loss.total_loss as u64);
    substituted.append(" / ");
    substituted.append(attempted.as_str());
    let would_change: Option<String> = if loss.attempted_cases > 0 {
        let mut change: String = "Each attempted case changes this by at most 2 / ".to_owned();
        change.append(attempted.as_str());
        change.append(" = ");
        change.append(numbers.loss_unit.as_str());
        change.append(
            " per unit of loss; only new judged cases or corrected outcomes move it.",
        );
        Some(change)
    } else {
        None
    };
    ExplainedQuantity {
        name: "mean_loss".to_owned(),
        equation: "mean_loss = total_loss / attempted_cases".to_owned(),
        substituted,
        value: value_of(&numbers.mean_loss),
        would_change,
    }
}

fn normalized_explained(numbers: &ReportNumbers) -> (r: ExplainedQuantity)
    ensures
        r@ == normalized_quantity(*numbers),
{
    ExplainedQuantity {
        name: "mean_normalized_loss".to_owned(),
        equation: "y_i = loss_i / 2; mean_normalized_loss = mean_loss / 2".to_owned(),
        substituted: match &numbers.mean_loss {
            Some(mean) => sum_of_two(mean.text.as_str(), " / 2"),
            None => "no attempted case".to_owned(),
        },
        value: value_of(&numbers.mean_normalized_loss),
        would_change: None,
    }
}

fn say(list: &mut Vec<String>, sentence: String)
    ensures
        text::views(final(list)@) == text::views(old(list)@).push(sentence@),
{
    let ghost before = list@;
    list.push(sentence);
    assert(text::views(list@) =~= text::views(before).push(sentence@));
}

fn assumptions_of(report: &EvaluationBatchReport) -> (r: Vec<String>)
    ensures
        text::views(r@) == report_assumptions(*report),
{
    let mut list: Vec<String> = Vec::new();
    assert(text::views(list@) =~= Seq::<Seq<char>>::empty());
    if report.labeled {
        say(
            &mut list,
            "Labels are independent judgments joined by case_id at their highest revision.".to_owned(),
        );
        say(
            &mut list,
            "Loss follows evaluation_policy.v1: a correct suggestion or abstention 0, a false abstention 1, a wrong or needless suggestion or an operational failure 2.".to_owned(),
        );
        say(
            &mut list,
            "Explicit requests are checked separately and unjudged cases carry no loss; neither enters the loss denominator.".to_owned(),
        );
    } else {
        say(
            &mut list,
            "Recorded decisions are observations, not usefulness labels; replay supplies no loss.".to_owned(),
        );
    }
    match &report.sample {
        Some(sample) => {
            let mut rule: String = "One representative per task family was selected (".to_owned();
            rule.append(sample.representative_rule.as_str());
            rule.append(" rule) and the manifest was frozen before labels were joined.");
            say(&mut list, rule);
            match sample.design_status {
                DesignStatus::DiagnosticFixed => {},
                DesignStatus::StratifiedProbabilitySample => {
                    say(
                        &mut list,
                        "Selection is uniform without replacement within each stratum from a recorded OS-random seed.".to_owned(),
                    );
                },
                DesignStatus::FullCensus => {
                    say(
                        &mut list,
                        "Every family in the frame was evaluated; stratum means are exact.".to_owned(),
                    );
                },
            }
        },
        None => {
            if report.labeled {
                say(
                    &mut list,
                    "The full supplied frame was evaluated; no sampling randomness is involved.".to_owned(),
                );
            }
        },
    }
    assert(text::views(list@) =~= report_assumptions(*report));
    list
}

fn reading_of(report: &EvaluationBatchReport) -> (r: Vec<String>)
    ensures
        text::views(r@) == report_reading(*report),
{
    let mut list: Vec<String> = Vec::new();
    assert(text::views(list@) =~= Seq::<Seq<char>>::empty());
    if let Some(sample) = &report.sample {
        match sample.design_status {
            DesignStatus::DiagnosticFixed => {
                say(
                    &mut list,
                    "A supplied seed reproduces a selection; it supports no inclusion probabilities or design-based uncertainty.".to_owned(),
                );
            },
            _ => {},
        }
        if let Some(design) = &report.design_weighted_loss {
            say(
                &mut list,
                "Only the design-weighted mean loss is estimated. Weighted precision and other ratios are non-linear ratio estimators, not unbiased means, so this report gives none, and its unweighted rates describe the sample, not the frame.".to_owned(),
            );
            if !design.point_estimate_guaranteed {
                let mut interval: String = text::count_text(design.total_missing_labels);
                interval.append(
                    " sampled cases lack a loss; read the design-weighted mean as the interval [",
                );
                interval.append(design.r_hat_lower.text.as_str());
                interval.append(", ");
                interval.append(design.r_hat_upper.text.as_str());
                interval.append("], not the observed point estimate.");
                say(&mut list, interval);
            }
        }
    }
    let unfinished: usize = report.completeness.cases_requested.saturating_sub(
        report.completeness.cases_completed,
    );
    if unfinished > 0 {
        let mut partial: String = text::count_text(unfinished);
        partial.append(" of ");
        partial.append(text::count_text(report.completeness.cases_requested).as_str());
        partial.append(
            " cases are not estimable; the run is partial and they are excluded from loss rather than counted as successes.",
        );
        say(&mut list, partial);
    }
    let gate: String = match report.gate_status {
        GateStatus::Passed => "The report's quality gate passed.".to_owned(),
        GateStatus::Failed => "The report's quality gate failed.".to_owned(),
        GateStatus::NotApplicable =>
            "Synthetic evidence is not eligible for a quality gate.".to_owned(),
        GateStatus::NotEstablished =>
            "This report is evidence for a promotion review, not a passed quality gate.".to_owned(),
    };
    say(&mut list, gate);
    assert(text::views(list@) =~= report_reading(*report));
    list
}

/// Explain a report from its own values.
pub fn explain_report(report: &EvaluationBatchReport, numbers: &ReportNumbers) -> (r:
    ReportExplanation)
    ensures
        explains(r, *report, *numbers),
{
    let mut quantities: Vec<ExplainedQuantity> = Vec::new();
    if report.labeled {
        quantities.push(mean_explained(&report.loss_summary, numbers));
        quantities.push(normalized_explained(numbers));
        if let Some(card) = harmful_outcome_card(
            &report.loss_summary,
            &report.cases,
            &numbers.harm_bound,
        ) {
            quantities.push(card);
        }
    }
    if report.sample.is_some() {
        if let Some(design) = &report.design_weighted_loss {
            push_design_quantities(&mut quantities, design);
        }
    }
    assert(quantity_views(quantities@) =~= report_quantities(*report, *numbers));
    ReportExplanation {
        quantities,
        assumptions: assumptions_of(report),
        interpretation: reading_of(report),
    }
}

impl EvaluationBatchReport {
    /// Attach the explanation of this report's own quantities.
    pub fn explain(&mut self, numbers: &ReportNumbers)
        ensures
            final(self).explanation is Some,
            explains(final(self).explanation->0, *old(self), *numbers),
            *final(self) == (EvaluationBatchReport {
                explanation: final(self).explanation,
                ..*old(self)
            }),
    {
        let explanation: ReportExplanation = explain_report(self, numbers);
        self.explanation = Some(explanation);
    }
}

/// One more case counts as harmful exactly where it failed or completed with the
/// whole loss.
pub proof fn lemma_one_more_harmful_case(cases: Seq<BatchCaseReport>, case: BatchCaseReport)
    ensures
        tally(cases.push(case), harmful_case()) - tally(cases, harmful_case()) == if (
        case.status is OperationalFailure || case.status is Completed
            && case.status->Completed_loss == Some(2u32)) {
            1int
        } else {
            0
        },
{
    let all = cases.push(case);
    let n = cases.len() as int;
    assert(all.take(n) =~= cases);
    assert(all.take(n + 1) =~= all);
    lemma_tally_step(all, n, harmful_case());
}

/// The harmful outcomes of a report are bounded exactly where cases were attempted
/// and a bound is known. The card quotes that bound, the attempted cases and, where
/// there are any, the harmful ones among the reported cases.
pub proof fn lemma_harm_is_bounded_over_attempts(
    loss: BatchLossSummary,
    cases: Seq<BatchCaseReport>,
    bound: Option<HarmBound>,
)
    ensures
        ({
            let card = harm_card(loss, cases, bound);
            let k = decimal(tally(cases, harmful_case()));
            let n = decimal(loss.attempted_cases as nat);
            &&& card is Some <==> loss.attempted_cases > 0 && bound is Some
            &&& card is Some ==> {
                &&& card->0.value == Some(bound->0.value)
                &&& tally(cases, harmful_case()) == 0 ==> {
                    &&& occurs(card->0.substituted, "(1 / "@ + n + ")"@)
                    &&& occurs(card->0.would_change->0, "Zero of "@ + n + " still allows"@)
                    &&& occurs(
                        card->0.would_change->0,
                        " up to "@ + bound->0.four_decimals@ + ";"@,
                    )
                }
                &&& tally(cases, harmful_case()) > 0 ==> {
                    &&& card->0.substituted == "k = "@ + k + ", n = "@ + n
                    &&& occurs(card->0.would_change->0, "rate "@ + k + " / "@ + n + ";"@)
                }
            }
        }),
{
    let card = harm_card(loss, cases, bound);
    let k = decimal(tally(cases, harmful_case()));
    let n = decimal(loss.attempted_cases as nat);
    if card is Some && tally(cases, harmful_case()) == 0 {
        lemma_harmless_text(n, bound->0.four_decimals@);
    } else if card is Some {
        lemma_harmful_text(k, n);
    }
}

proof fn lemma_harmless_text(n: Seq<char>, rate: Seq<char>)
    ensures
        occurs("1 - 0.05^(1 / "@ + n + ")"@, "(1 / "@ + n + ")"@),
        ({
            let text = "Zero of "@ + n + " still allows a harmful rate up to "@ + rate
                + "; about 59 harm-free judged cases are needed before U falls below 0.05."@;
            &&& occurs(text, "Zero of "@ + n + " still allows"@)
            &&& occurs(text, " up to "@ + rate + ";"@)
        }),
{
    let quotient = "(1 / "@ + n + ")"@;
    assert("1 - 0.05^(1 / "@ + n + ")"@ == "1 - 0.05^"@ + quotient) by {
        reveal_strlit("1 - 0.05^(1 / ");
        reveal_strlit("1 - 0.05^");
        reveal_strlit("(1 / ");
        assert("1 - 0.05^(1 / "@ =~= "1 - 0.05^"@ + "(1 / "@);
        assert("1 - 0.05^(1 / "@ + n + ")"@ =~= "1 - 0.05^"@ + quotient);
    }
    lemma_occurs_between("1 - 0.05^"@, quotient, Seq::empty());
    let last = "; about 59 harm-free judged cases are needed before U falls below 0.05."@;
    let middle = " still allows a harmful rate up to "@;
    let text = "Zero of "@ + n + middle + rate + last;
    let zero = "Zero of "@ + n + " still allows"@;
    let up_to = " up to "@ + rate + ";"@;
    assert(middle == " still allows"@ + " a harmful rate"@ + " up to "@) by {
        reveal_strlit(" still allows a harmful rate up to ");
        reveal_strlit(" still allows");
        reveal_strlit(" a harmful rate");
        reveal_strlit(" up to ");
        assert(middle =~= " still allows"@ + " a harmful rate"@ + " up to "@);
    }
    assert(last == ";"@ + last.skip(1)) by {
        reveal_strlit("; about 59 harm-free judged cases are needed before U falls below 0.05.");
        reveal_strlit(";");
        assert(last =~= ";"@ + last.skip(1));
    }
    assert(text =~= zero + (" a harmful rate"@ + " up to "@ + rate + last));
    lemma_occurs_between(Seq::empty(), zero, " a harmful rate"@ + " up to "@ + rate + last);
    assert(text =~= (zero + " a harmful rate"@) + up_to + last.skip(1));
    lemma_occurs_between(zero + " a harmful rate"@, up_to, last.skip(1));
}

proof fn lemma_harmful_text(k: Seq<char>, n: Seq<char>)
    ensures
        occurs(
            "U cannot fall below the observed rate "@ + k + " / "@ + n
                + "; it falls only as more harm-free judged cases are added."@,
            "rate "@ + k + " / "@ + n + ";"@,
        ),
{
    let head = "U cannot fall below the observed "@;
    let last = "; it falls only as more harm-free judged cases are added."@;
    let rate = "rate "@ + k + " / "@ + n + ";"@;
    assert("U cannot fall below the observed rate "@ == head + "rate "@) by {
        reveal_strlit("U cannot fall below the observed rate ");
        reveal_strlit("U cannot fall below the observed ");
        reveal_strlit("rate ");
        assert("U cannot fall below the observed rate "@ =~= head + "rate "@);
    }
    assert(last == ";"@ + last.skip(1)) by {
        reveal_strlit("; it falls only as more harm-free judged cases are added.");
        reveal_strlit(";");
        assert(last =~= ";"@ + last.skip(1));
    }
    assert(head + "rate "@ + k + " / "@ + n + last =~= head + rate + last.skip(1));
    lemma_occurs_between(head, rate, last.skip(1));
}

/// The mean loss is explained as the total over the attempted cases, and its
/// normalized value as half of it. A report without judgments explains neither.
pub proof fn lemma_means_are_explained(report: EvaluationBatchReport, numbers: ReportNumbers)
    ensures
        report.labeled ==> {
            let list = report_quantities(report, numbers);
            &&& list.len() >= 2
            &&& list[0].name == "mean_loss"@
            &&& list[0].substituted == decimal(report.loss_summary.total_loss as nat) + " / "@
                + decimal(report.loss_summary.attempted_cases as nat)
            &&& list[0].value is Some <==> numbers.mean_loss is Some
            &&& list[0].value is Some ==> list[0].value->0 == numbers.mean_loss->0.value
            &&& list[0].would_change is Some <==> report.loss_summary.attempted_cases > 0
            &&& list[1].name == "mean_normalized_loss"@
            &&& list[1].value is Some <==> numbers.mean_normalized_loss is Some
            &&& list[1].value is Some ==> list[1].value->0
                == numbers.mean_normalized_loss->0.value
            &&& numbers.mean_loss is Some ==> list[1].substituted == numbers.mean_loss->0.text@
                + " / 2"@
        },
        !report.labeled && (report.sample is None || report.design_weighted_loss is None)
            ==> report_quantities(report, numbers).len() == 0,
{
}

/// A design-weighted loss is explained last, where the report has a sample and
/// such a loss: first the observed mean, then the bound. The interval that missing
/// labels leave runs from the lower to the upper end.
pub proof fn lemma_design_is_explained(report: EvaluationBatchReport, numbers: ReportNumbers)
    requires
        report.sample is Some,
        report.design_weighted_loss is Some,
    ensures
        ({
            let list = report_quantities(report, numbers);
            let design = report.design_weighted_loss->0;
            let n = list.len() as int;
            let interval = "["@ + design.r_hat_lower.text@ + ", "@ + design.r_hat_upper.text@
                + "]"@;
            &&& n >= 2
            &&& list[n - 2].name == "design_weighted_mean_loss"@
            &&& list[n - 2].value is Some <==> design.r_hat_observed is Some
            &&& list[n - 2].value is Some ==> list[n - 2].value->0
                == design.r_hat_observed->0.value
            &&& list[n - 2].would_change is Some <==> design.total_missing_labels > 0
            &&& list[n - 2].would_change is Some ==> occurs(
                list[n - 2].would_change->0,
                interval,
            ) && text::has_prefix(
                list[n - 2].would_change->0,
                decimal(design.total_missing_labels as nat),
            )
            &&& list[n - 1].name == "design_weighted_upper_bound"@
            &&& list[n - 1].value == Some(design.conservative_upper_bound.value)
            &&& text::has_prefix(
                list[n - 1].substituted,
                "H = "@ + decimal(design.num_strata as nat) + ", alpha = "@ + design.alpha.text@
                    + "; "@,
            )
        }),
{
    let design = report.design_weighted_loss->0;
    let list = report_quantities(report, numbers);
    let n = list.len() as int;
    let pair = design_quantities(design);
    assert(list[n - 2] == pair[0] && list[n - 1] == pair[1]);
    let missing = decimal(design.total_missing_labels as nat);
    if design.total_missing_labels > 0 {
        reveal_strlit(" sampled cases have no loss; judging them narrows [");
        reveal_strlit(" sampled cases have no loss; judging them narrows ");
        reveal_strlit("[");
        reveal_strlit("] to a point.");
        reveal_strlit("]");
        reveal_strlit(" to a point.");
        let head = missing + " sampled cases have no loss; judging them narrows "@;
        let interval = "["@ + design.r_hat_lower.text@ + ", "@ + design.r_hat_upper.text@ + "]"@;
        assert(pair[0].would_change->0 =~= head + interval + " to a point."@);
        lemma_occurs_between(head, interval, " to a point."@);
        assert(pair[0].would_change->0.take(missing.len() as int) =~= missing);
    }
    let front = "H = "@ + decimal(design.num_strata as nat) + ", alpha = "@ + design.alpha.text@
        + "; "@;
    assert(pair[1].substituted.take(front.len() as int) =~= front);
}

/// Each term of a stratum is its weight times its own number: what was observed of
/// it, or its bound.
pub proof fn lemma_stratum_terms(stratum: StratumLoss)
    ensures
        bound_term(stratum) == stratum.weight.text@ + " * "@ + stratum.upper_bound.text@,
        stratum.mean_loss_observed is Some ==> observed_term(stratum) == stratum.weight.text@
            + " * "@ + stratum.mean_loss_observed->0.text@,
        stratum.mean_loss_observed is None ==> observed_term(stratum) == stratum.weight.text@
            + " * unobserved"@,
{
    reveal_strlit(" * ");
    reveal_strlit("unobserved");
    reveal_strlit(" * unobserved");
    assert(" * unobserved"@ =~= " * "@ + "unobserved"@);
    assert(stratum.weight.text@ + " * unobserved"@ =~= stratum.weight.text@ + " * "@
        + "unobserved"@);
}

/// A reading ends with what the quality gate of the report says, and no other
/// status is read as passed. Cases that were not completed are counted out of
/// those requested, where there are any. A supplied seed is said to support no
/// uncertainty exactly where the sample is a diagnostic one.
pub proof fn lemma_reading_says_what_holds(report: EvaluationBatchReport)
    ensures
        ({
            let list = report_reading(report);
            let requested = report.completeness.cases_requested;
            let completed = report.completeness.cases_completed;
            let seeded =
                "A supplied seed reproduces a selection; it supports no inclusion probabilities or design-based uncertainty."@;
            &&& list.len() > 0
            &&& report.gate_status is Passed ==> occurs(list.last(), "gate passed"@)
            &&& report.gate_status is Failed ==> occurs(list.last(), "gate failed"@)
            &&& report.gate_status is NotApplicable ==> occurs(list.last(), "not eligible"@)
            &&& report.gate_status is NotEstablished ==> occurs(list.last(), "not a passed"@)
            &&& completed < requested ==> list.len() > 1 && text::has_prefix(
                list[list.len() - 2],
                decimal((requested - completed) as nat) + " of "@ + decimal(requested as nat)
                    + " cases are not estimable"@,
            )
            &&& report.sample is Some && report.sample->0.design_status is DiagnosticFixed
                ==> list[0] == seeded
        }),
{
    let list = report_reading(report);
    let requested = report.completeness.cases_requested;
    let completed = report.completeness.cases_completed;
    assert(list.last() == gate_sentence(report.gate_status));
    match report.gate_status {
        GateStatus::Passed => {
            reveal_strlit("The report's quality gate passed.");
            reveal_strlit("The report's quality ");
            reveal_strlit("gate passed");
            reveal_strlit(".");
            assert(list.last() =~= "The report's quality "@ + "gate passed"@ + "."@);
            lemma_occurs_between("The report's quality "@, "gate passed"@, "."@);
        },
        GateStatus::Failed => {
            reveal_strlit("The report's quality gate failed.");
            reveal_strlit("The report's quality ");
            reveal_strlit("gate failed");
            reveal_strlit(".");
            assert(list.last() =~= "The report's quality "@ + "gate failed"@ + "."@);
            lemma_occurs_between("The report's quality "@, "gate failed"@, "."@);
        },
        GateStatus::NotApplicable => {
            reveal_strlit("Synthetic evidence is not eligible for a quality gate.");
            reveal_strlit("Synthetic evidence is ");
            reveal_strlit("not eligible");
            reveal_strlit(" for a quality gate.");
            assert(list.last() =~= "Synthetic evidence is "@ + "not eligible"@
                + " for a quality gate."@);
            lemma_occurs_between(
                "Synthetic evidence is "@,
                "not eligible"@,
                " for a quality gate."@,
            );
        },
        GateStatus::NotEstablished => {
            reveal_strlit(
                "This report is evidence for a promotion review, not a passed quality gate.",
            );
            reveal_strlit("This report is evidence for a promotion review, ");
            reveal_strlit("not a passed");
            reveal_strlit(" quality gate.");
            assert(list.last() =~= "This report is evidence for a promotion review, "@
                + "not a passed"@ + " quality gate."@);
            lemma_occurs_between(
                "This report is evidence for a promotion review, "@,
                "not a passed"@,
                " quality gate."@,
            );
        },
    }
    if completed < requested {
        let whole =
            " cases are not estimable; the run is partial and they are excluded from loss rather than counted as successes."@;
        reveal_strlit(
            " cases are not estimable; the run is partial and they are excluded from loss rather than counted as successes.",
        );
        reveal_strlit(" cases are not estimable");
        let head = decimal((requested - completed) as nat) + " of "@ + decimal(requested as nat);
        let front = head + " cases are not estimable"@;
        assert(list[list.len() - 2] == head + whole);
        assert((head + whole).take(front.len() as int) =~= front);
    }
}

/// A labeled report without a sample rests on the whole frame; a sample rests on
/// the rule that chose its representatives, and claims chance only where it was
/// drawn by chance and exactness only where it is whole.
pub proof fn lemma_assumptions_follow_the_design(report: EvaluationBatchReport)
    ensures
        ({
            let list = report_assumptions(report);
            let chance =
                "Selection is uniform without replacement within each stratum from a recorded OS-random seed."@;
            let whole = "Every family in the frame was evaluated; stratum means are exact."@;
            let rule = "One representative per task family was selected ("@
                + report.sample->0.representative_rule@
                + " rule) and the manifest was frozen before labels were joined."@;
            let first = if report.labeled {
                3int
            } else {
                1
            };
            &&& report.sample is None ==> list.len() == if report.labeled {
                4int
            } else {
                1
            }
            &&& report.sample is Some ==> list[first] == rule
            &&& report.sample is Some && report.sample->0.design_status is DiagnosticFixed
                ==> list.len() == first + 1
            &&& report.sample is Some && report.sample->0.design_status
                is StratifiedProbabilitySample ==> list.len() == first + 2 && list.last() == chance
            &&& report.sample is Some && report.sample->0.design_status is FullCensus
                ==> list.len() == first + 2 && list.last() == whole
        }),
{
}

} // verus!
