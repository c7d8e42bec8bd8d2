//! The value and operational report of the ledger, in words.

use crate::cli::failure::{
    answers, failure, failure_view, store_failure, store_refusal, write_document, written, Failure,
    StoreFault,
};
use crate::text;
use crate::text::{
    decimal, lemma_appended, lemma_decimal_injective, lemma_occurs_between, lemma_value_shown,
    occurs, padded_left, padded_right,
};
use vstd::prelude::*;
use vstd::string::*;

verus! {

/// How the turns of a window ended.
#[derive(Clone, Debug, PartialEq, Eq)]
pub struct TurnStats {
    pub total_evaluated: u64,
    pub emitted_suggestions: u64,
    pub valid_abstentions: u64,
    pub muted_or_suppressed: u64,
    pub operational_failures: u64,
    pub explicit_requirements: u64,
    pub in_flight_or_killed: u64,
    pub failure_causes: Vec<FailureCause>,
    pub by_channel: Vec<ChannelStats>,
}

#[derive(Clone, Debug, PartialEq, Eq)]
pub struct FailureCause {
    pub reason: String,
    pub count: u64,
}

#[derive(Clone, Debug, PartialEq, Eq)]
pub struct ChannelStats {
    pub channel: String,
    pub evaluated_turns: u64,
    pub emitted: u64,
    pub abstain: u64,
    pub muted: u64,
    pub unavailable: u64,
    pub in_flight_or_killed: u64,
}

/// Hook invocations counted at entry, beside the ledger.
#[derive(Clone, Debug, PartialEq, Eq)]
pub struct HookEntryStats {
    pub counted_since: String,
    pub counted_until: String,
    pub counted_at_entry: u64,
    pub recorded: u64,
    pub non_turn_deliveries: u64,
    pub unrecorded: u64,
    pub counter_full: bool,
}

#[derive(Clone, Copy, Debug, PartialEq, Eq, Structural)]
pub struct LatencyStats {
    pub mean_ms: u64,
    pub median_ms: u64,
    pub p95_ms: u64,
    pub min_ms: u64,
    pub max_ms: u64,
    pub excluded_unfinished: u64,
}

/// A rate is the text of its percentage, with one decimal.
#[derive(Clone, Debug, PartialEq, Eq)]
pub struct ObservationStats {
    pub total_observations: u64,
    pub observed_loads: u64,
    pub attempted_loads: u64,
    pub censored_observations: u64,
    pub attributed_loads: u64,
    pub unattributed_loads: u64,
    pub observation_coverage: Option<String>,
    pub suggestion_adoption_rate: Option<String>,
    pub caveat: String,
}

#[derive(Clone, Debug, PartialEq, Eq)]
pub struct JudgmentStats {
    pub total_judgments: u64,
    pub useful: u64,
    pub harmful: u64,
    pub neutral: u64,
    pub distinct_judged_events: u64,
    pub label_coverage_rate: Option<String>,
    pub useful_ratio_in_judged: Option<String>,
}

#[derive(Clone, Debug, PartialEq, Eq)]
pub struct ProviderStats {
    pub total_attempts: u64,
    pub completed_attempts: u64,
    pub failed_attempts: u64,
    pub unknown_attempts: u64,
    pub known_total_tokens: u64,
    pub known_input_tokens: u64,
    pub known_output_tokens: u64,
    pub unknown_usage_attempts: u64,
    pub cache_served_events: u64,
    pub cache_hit_rate: Option<String>,
    pub cost_per_useful_suggestion: String,
    pub judged_cohort_unknown_usage_attempts: u64,
    pub judged_turns_served_from_cache: u64,
}

#[derive(Clone, Debug, PartialEq, Eq)]
pub struct SkillStats {
    pub skill_id: String,
    pub top1_recommendations: u64,
    pub shortlist_appearances: u64,
    pub observed_loads: u64,
    pub attributed_loads: u64,
    pub judged_useful: u64,
    pub judged_harmful: u64,
    pub judged_neutral: u64,
}

/// What the ledger says of a window. Times are texts.
#[derive(Clone, Debug, PartialEq, Eq)]
pub struct StatsReport {
    pub since: String,
    pub as_of: String,
    pub turns: TurnStats,
    pub hook_entries: Option<HookEntryStats>,
    pub latency: LatencyStats,
    pub observations: ObservationStats,
    pub judgments: JudgmentStats,
    pub provider: ProviderStats,
    pub by_skill: Option<Vec<SkillStats>>,
}

/// A label and a count on one line.
pub open spec fn row(label: Seq<char>, n: u64) -> Seq<char> {
    label + decimal(n as nat) + "\n"@
}

fn row_text(label: &str, n: u64) -> (r: String)
    ensures
        r@ == row(label@, n),
{
    let mut out: String = label.to_owned();
    out.append(text::number(n).as_str());
    out.append("\n");
    out
}

/// A label and a percentage on one line, where there is one.
pub open spec fn rate_row(label: Seq<char>, rate: Option<String>) -> Seq<char> {
    match rate {
        Some(percent) => label + percent@ + "%\n"@,
        None => ""@,
    }
}

fn rate_text(label: &str, rate: &Option<String>) -> (r: String)
    ensures
        r@ == rate_row(label@, *rate),
{
    match rate {
        Some(percent) => {
            let mut out: String = label.to_owned();
            out.append(percent.as_str());
            out.append("%\n");
            out
        },
        None => "".to_owned(),
    }
}

pub open spec fn header_section(report: StatsReport) -> Seq<char> {
    "SkillRanker Value & Operational Report\nWindow: "@ + report.since@ + " .. "@ + report.as_of@
        + "\n\n"@
}

pub open spec fn turns_section(t: TurnStats) -> Seq<char> {
    "--- Evaluated Turns & Interruption ---\n"@ + row("Total turns evaluated:    "@, t.total_evaluated)
        + row("Emitted suggestions:      "@, t.emitted_suggestions) + row(
        "Valid abstentions:        "@,
        t.valid_abstentions,
    ) + row("Muted or suppressed:      "@, t.muted_or_suppressed) + row(
        "Operational failures:     "@,
        t.operational_failures,
    ) + row("Explicit requirements:    "@, t.explicit_requirements) + row(
        "Unfinished (in flight or killed): "@,
        t.in_flight_or_killed,
    )
}

pub open spec fn cause_rows(causes: Seq<FailureCause>) -> Seq<char>
    decreases causes.len(),
{
    if causes.len() == 0 {
        "\nOperational failures by cause:\n"@
    } else {
        cause_rows(causes.drop_last()) + "  "@ + causes.last().reason@ + row(
            ": "@,
            causes.last().count,
        )
    }
}

pub open spec fn causes_section(causes: Seq<FailureCause>) -> Seq<char> {
    if causes.len() == 0 {
        ""@
    } else {
        cause_rows(causes)
    }
}

pub open spec fn hook_section(entries: Option<HookEntryStats>) -> Seq<char> {
    match entries {
        Some(e) => "\nHook invocations counted at entry ("@ + e.counted_since@ + " to "@
            + e.counted_until@ + "):\n  counted: "@ + decimal(e.counted_at_entry as nat)
            + ", recorded: "@ + decimal(e.recorded as nat)
            + ", task notifications (not user turns): "@ + decimal(e.non_turn_deliveries as nat)
            + ", left no row: "@ + decimal(e.unrecorded as nat)
            + " (upper bound on sr failures)"@ + (if e.counter_full {
            " (counter full: lower bounds)"@
        } else {
            ""@
        }) + "\n"@,
        None => ""@,
    }
}

pub open spec fn channel_rows(channels: Seq<ChannelStats>) -> Seq<char>
    decreases channels.len(),
{
    if channels.len() == 0 {
        "\nBy Channel:\n"@
    } else {
        let c = channels.last();
        channel_rows(channels.drop_last()) + "  ["@ + c.channel@ + "] evaluated: "@ + decimal(
            c.evaluated_turns as nat,
        ) + ", emitted: "@ + decimal(c.emitted as nat) + ", abstain: "@ + decimal(
            c.abstain as nat,
        ) + ", muted: "@ + decimal(c.muted as nat) + ", unavailable: "@ + decimal(
            c.unavailable as nat,
        ) + row(", unfinished: "@, c.in_flight_or_killed)
    }
}

pub open spec fn channels_section(channels: Seq<ChannelStats>) -> Seq<char> {
    if channels.len() == 0 {
        ""@
    } else {
        channel_rows(channels)
    }
}

pub open spec fn latency_section(l: LatencyStats) -> Seq<char> {
    "\n--- Latency ---\nMean: "@ + decimal(l.mean_ms as nat) + " ms | Median: "@ + decimal(
        l.median_ms as nat,
    ) + " ms | P95: "@ + decimal(l.p95_ms as nat) + " ms | Range: "@ + decimal(l.min_ms as nat)
        + " .. "@ + decimal(l.max_ms as nat) + " ms\n"@ + (if l.excluded_unfinished > 0 {
        "Excluded "@ + decimal(l.excluded_unfinished as nat)
            + " unfinished turn(s) with no measured duration.\n"@
    } else {
        ""@
    })
}

pub open spec fn observations_section(o: ObservationStats) -> Seq<char> {
    "\n--- Observations & Adoption ---\n"@ + row("Total observations:       "@, o.total_observations)
        + row("Observed loads:           "@, o.observed_loads) + row(
        "Attempted loads:          "@,
        o.attempted_loads,
    ) + row("Censored observations:    "@, o.censored_observations) + row(
        "Attributed loads:         "@,
        o.attributed_loads,
    ) + row("Unattributed loads:       "@, o.unattributed_loads) + rate_row(
        "Observation coverage:     "@,
        o.observation_coverage,
    ) + rate_row("Suggestion adoption rate: "@, o.suggestion_adoption_rate) + "Note: "@ + o.caveat@
        + "\n"@
}

pub open spec fn judgments_section(j: JudgmentStats) -> Seq<char> {
    "\n--- Judgments (Judged Cohort) ---\n"@ + row("Total judgments:          "@, j.total_judgments)
        + row("Useful:                   "@, j.useful) + row(
        "Harmful:                  "@,
        j.harmful,
    ) + row("Neutral:                  "@, j.neutral) + row(
        "Distinct judged events:   "@,
        j.distinct_judged_events,
    ) + rate_row("Label coverage rate:      "@, j.label_coverage_rate) + rate_row(
        "Useful ratio in judged:   "@,
        j.useful_ratio_in_judged,
    )
}

pub open spec fn provider_section(p: ProviderStats) -> Seq<char> {
    "\n--- Provider Usage & Cost ---\nTotal attempts:           "@ + decimal(p.total_attempts as nat)
        + " (completed: "@ + decimal(p.completed_attempts as nat) + ", failed: "@ + decimal(
        p.failed_attempts as nat,
    ) + ", unknown: "@ + decimal(p.unknown_attempts as nat) + ")\nKnown tokens:             "@
        + decimal(p.known_total_tokens as nat) + " (input: "@ + decimal(
        p.known_input_tokens as nat,
    ) + ", output: "@ + decimal(p.known_output_tokens as nat) + ")\n"@ + row(
        "Unknown usage attempts:   "@,
        p.unknown_usage_attempts,
    ) + row("Cache-served events:      "@, p.cache_served_events) + rate_row(
        "Cache hit rate:           "@,
        p.cache_hit_rate,
    ) + "Cost per useful suggestion: "@ + p.cost_per_useful_suggestion@ + "\n"@ + (if
    p.judged_cohort_unknown_usage_attempts > 0 {
        "  a lower bound: "@ + decimal(p.judged_cohort_unknown_usage_attempts as nat)
            + " judged attempt(s) reported no usage\n"@
    } else {
        ""@
    }) + (if p.judged_turns_served_from_cache > 0 {
        "  of the judged turns, "@ + decimal(p.judged_turns_served_from_cache as nat)
            + " reused a response paid for elsewhere\n"@
    } else {
        ""@
    })
}

/// One line of the skill table: its columns padded to their widths.
pub open spec fn table_line(
    a: Seq<char>,
    b: Seq<char>,
    c: Seq<char>,
    d: Seq<char>,
    e: Seq<char>,
    f: Seq<char>,
    g: Seq<char>,
    h: Seq<char>,
) -> Seq<char> {
    padded_right(a, 24) + " "@ + padded_left(b, 6) + " "@ + padded_left(c, 10) + " "@
        + padded_left(d, 10) + " "@ + padded_left(e, 10) + " "@ + padded_left(f, 7) + " "@
        + padded_left(g, 8) + " "@ + padded_left(h, 8) + "\n"@
}

pub open spec fn table_head() -> Seq<char> {
    table_line(
        "Skill ID"@,
        "Top-1"@,
        "Shortlist"@,
        "Obs Loads"@,
        "Attr Loads"@,
        "Useful"@,
        "Harmful"@,
        "Neutral"@,
    )
}

pub open spec fn skill_line(s: SkillStats) -> Seq<char> {
    table_line(
        s.skill_id@,
        decimal(s.top1_recommendations as nat),
        decimal(s.shortlist_appearances as nat),
        decimal(s.observed_loads as nat),
        decimal(s.attributed_loads as nat),
        decimal(s.judged_useful as nat),
        decimal(s.judged_harmful as nat),
        decimal(s.judged_neutral as nat),
    )
}

pub open spec fn skill_rows(skills: Seq<SkillStats>) -> Seq<char>
    decreases skills.len(),
{
    if skills.len() == 0 {
        "\n--- Skill Breakdown ---\n"@ + table_head()
    } else {
        skill_rows(skills.drop_last()) + skill_line(skills.last())
    }
}

pub open spec fn skills_section(skills: Option<Vec<SkillStats>>) -> Seq<char> {
    match skills {
        Some(list) => if list@.len() == 0 {
            "\n--- Skill Breakdown ---\nNo skill activity recorded in window.\n"@
        } else {
            skill_rows(list@)
        },
        None => ""@,
    }
}

/// The report in words.
pub open spec fn stats_text(report: StatsReport) -> Seq<char> {
    header_section(report) + turns_section(report.turns) + causes_section(
        report.turns.failure_causes@,
    ) + hook_section(report.hook_entries) + channels_section(report.turns.by_channel@)
        + latency_section(report.latency) + observations_section(report.observations)
        + judgments_section(report.judgments) + provider_section(report.provider)
        + skills_section(report.by_skill)
}

fn header_text(report: &StatsReport) -> (r: String)
    ensures
        r@ == header_section(*report),
{
    let mut out: String = "SkillRanker Value & Operational Report\nWindow: ".to_owned();
    out.append(report.since.as_str());
    out.append(" .. ");
    out.append(report.as_of.as_str());
    out.append("\n\n");
    out
}

fn turns_text(t: &TurnStats) -> (r: String)
    ensures
        r@ == turns_section(*t),
{
    let mut out: String = "--- Evaluated Turns & Interruption ---\n".to_owned();
    out.append(row_text("Total turns evaluated:    ", t.total_evaluated).as_str());
    out.append(row_text("Emitted suggestions:      ", t.emitted_suggestions).as_str());
    out.append(row_text("Valid abstentions:        ", t.valid_abstentions).as_str());
    out.append(row_text("Muted or suppressed:      ", t.muted_or_suppressed).as_str());
    out.append(row_text("Operational failures:     ", t.operational_failures).as_str());
    out.append(row_text("Explicit requirements:    ", t.explicit_requirements).as_str());
    out.append(row_text("Unfinished (in flight or killed): ", t.in_flight_or_killed).as_str());
    out
}

fn causes_text(causes: &Vec<FailureCause>) -> (r: String)
    ensures
        r@ == causes_section(causes@),
{
    if causes.len() == 0 {
        return "".to_owned();
    }
    let mut out: String = "\nOperational failures by cause:\n".to_owned();
    let mut i: usize = 0;
    assert(causes@.take(0) =~= Seq::<FailureCause>::empty());
    while i < causes.len()
        invariant
            i <= causes@.len(),
            out@ == cause_rows(causes@.take(i as int)),
        decreases causes@.len() - i,
    {
        proof {
            assert(causes@.take(i + 1).drop_last() =~= causes@.take(i as int));
            assert(causes@.take(i + 1).last() == causes@[i as int]);
        }
        out.append("  ");
        out.append(causes[i].reason.as_str());
        out.append(row_text(": ", causes[i].count).as_str());
        i = i + 1;
    }
    assert(causes@.take(i as int) =~= causes@);
    out
}

fn hook_text(entries: &Option<HookEntryStats>) -> (r: String)
    ensures
        r@ == hook_section(*entries),
{
    match entries {
        Some(e) => {
            let mut out: String = "\nHook invocations counted at entry (".to_owned();
            out.append(e.counted_since.as_str());
            out.append(" to ");
            out.append(e.counted_until.as_str());
            out.append("):\n  counted: ");
            out.append(text::number(e.counted_at_entry).as_str());
            out.append(", recorded: ");
            out.append(text::number(e.recorded).as_str());
            out.append(", task notifications (not user turns): ");
            out.append(text::number(e.non_turn_deliveries).as_str());
            out.append(", left no row: ");
            out.append(text::number(e.unrecorded).as_str());
            out.append(" (upper bound on sr failures)");
            if e.counter_full {
                out.append(" (counter full: lower bounds)");
            } else {
                out.append("");
            }
            out.append("\n");
            out
        },
        None => "".to_owned(),
    }
}

fn channels_text(channels: &Vec<ChannelStats>) -> (r: String)
    ensures
        r@ == channels_section(channels@),
{
    if channels.len() == 0 {
        return "".to_owned();
    }
    let mut out: String = "\nBy Channel:\n".to_owned();
    let mut i: usize = 0;
    assert(channels@.take(0) =~= Seq::<ChannelStats>::empty());
    while i < channels.len()
        invariant
            i <= channels@.len(),
            out@ == channel_rows(channels@.take(i as int)),
        decreases channels@.len() - i,
    {
        proof {
            assert(channels@.take(i + 1).drop_last() =~= channels@.take(i as int));
            assert(channels@.take(i + 1).last() == channels@[i as int]);
        }
        let c: &ChannelStats = &channels[i];
        out.append("  [");
        out.append(c.channel.as_str());
        out.append("] evaluated: ");
        out.append(text::number(c.evaluated_turns).as_str());
        out.append(", emitted: ");
        out.append(text::number(c.emitted).as_str());
        out.append(", abstain: ");
        out.append(text::number(c.abstain).as_str());
        out.append(", muted: ");
        out.append(text::number(c.muted).as_str());
        out.append(", unavailable: ");
        out.append(text::number(c.unavailable).as_str());
        out.append(row_text(", unfinished: ", c.in_flight_or_killed).as_str());
        i = i + 1;
    }
    assert(channels@.take(i as int) =~= channels@);
    out
}

fn latency_text(l: &LatencyStats) -> (r: String)
    ensures
        r@ == latency_section(*l),
{
    let mut out: String = "\n--- Latency ---\nMean: ".to_owned();
    out.append(text::number(l.mean_ms).as_str());
    out.append(" ms | Median: ");
    out.append(text::number(l.median_ms).as_str());
    out.append(" ms | P95: ");
    out.append(text::number(l.p95_ms).as_str());
    out.append(" ms | Range: ");
    out.append(text::number(l.min_ms).as_str());
    out.append(" .. ");
    out.append(text::number(l.max_ms).as_str());
    out.append(" ms\n");
    // A duration summary that quietly covers only part of the window reads
    // exactly like one that covers all of it.
    if l.excluded_unfinished > 0 {
        let mut note: String = "Excluded ".to_owned();
        note.append(text::number(l.excluded_unfinished).as_str());
        note.append(" unfinished turn(s) with no measured duration.\n");
        out.append(note.as_str());
    } else {
        out.append("");
    }
    out
}

fn observations_text(o: &ObservationStats) -> (r: String)
    ensures
        r@ == observations_section(*o),
{
    let mut out: String = "\n--- Observations & Adoption ---\n".to_owned();
    out.append(row_text("Total observations:       ", o.total_observations).as_str());
    out.append(row_text("Observed loads:           ", o.observed_loads).as_str());
    out.append(row_text("Attempted loads:          ", o.attempted_loads).as_str());
    out.append(row_text("Censored observations:    ", o.censored_observations).as_str());
    out.append(row_text("Attributed loads:         ", o.attributed_loads).as_str());
    out.append(row_text("Unattributed loads:       ", o.unattributed_loads).as_str());
    out.append(rate_text("Observation coverage:     ", &o.observation_coverage).as_str());
    out.append(rate_text("Suggestion adoption rate: ", &o.suggestion_adoption_rate).as_str());
    out.append("Note: ");
    out.append(o.caveat.as_str());
    out.append("\n");
    out
}

fn judgments_text(j: &JudgmentStats) -> (r: String)
    ensures
        r@ == judgments_section(*j),
{
    let mut out: String = "\n--- Judgments (Judged Cohort) ---\n".to_owned();
    out.append(row_text("Total judgments:          ", j.total_judgments).as_str());
    out.append(row_text("Useful:                   ", j.useful).as_str());
    out.append(row_text("Harmful:                  ", j.harmful).as_str());
    out.append(row_text("Neutral:                  ", j.neutral).as_str());
    out.append(row_text("Distinct judged events:   ", j.distinct_judged_events).as_str());
    out.append(rate_text("Label coverage rate:      ", &j.label_coverage_rate).as_str());
    out.append(rate_text("Useful ratio in judged:   ", &j.useful_ratio_in_judged).as_str());
    out
}

fn provider_text(p: &ProviderStats) -> (r: String)
    ensures
        r@ == provider_section(*p),
{
    let mut out: String =
        "\n--- Provider Usage & Cost ---\nTotal attempts:           ".to_owned();
    out.append(text::number(p.total_attempts).as_str());
    out.append(" (completed: ");
    out.append(text::number(p.completed_attempts).as_str());
    out.append(", failed: ");
    out.append(text::number(p.failed_attempts).as_str());
    out.append(", unknown: ");
    out.append(text::number(p.unknown_attempts).as_str());
    out.append(")\nKnown tokens:             ");
    out.append(text::number(p.known_total_tokens).as_str());
    out.append(" (input: ");
    out.append(text::number(p.known_input_tokens).as_str());
    out.append(", output: ");
    out.append(text::number(p.known_output_tokens).as_str());
    out.append(")\n");
    out.append(row_text("Unknown usage attempts:   ", p.unknown_usage_attempts).as_str());
    out.append(row_text("Cache-served events:      ", p.cache_served_events).as_str());
    out.append(rate_text("Cache hit rate:           ", &p.cache_hit_rate).as_str());
    out.append("Cost per useful suggestion: ");
    out.append(p.cost_per_useful_suggestion.as_str());
    out.append("\n");
    // The token figure is a floor, not a measurement, while this is above zero.
    if p.judged_cohort_unknown_usage_attempts > 0 {
        let mut note: String = "  a lower bound: ".to_owned();
        note.append(text::number(p.judged_cohort_unknown_usage_attempts).as_str());
        note.append(" judged attempt(s) reported no usage\n");
        out.append(note.as_str());
    } else {
        out.append("");
    }
    // A cost over turns that reused someone else's answer reads lower than the
    // work actually cost.
    if p.judged_turns_served_from_cache > 0 {
        let mut note: String = "  of the judged turns, ".to_owned();
        note.append(text::number(p.judged_turns_served_from_cache).as_str());
        note.append(" reused a response paid for elsewhere\n");
        out.append(note.as_str());
    } else {
        out.append("");
    }
    out
}

fn line_text(
    a: &str,
    b: &str,
    c: &str,
    d: &str,
    e: &str,
    f: &str,
    g: &str,
    h: &str,
) -> (r: String)
    ensures
        r@ == table_line(a@, b@, c@, d@, e@, f@, g@, h@),
{
    let mut out: String = text::pad_right(a, 24);
    out.append(" ");
    out.append(text::pad_left(b, 6).as_str());
    out.append(" ");
    out.append(text::pad_left(c, 10).as_str());
    out.append(" ");
    out.append(text::pad_left(d, 10).as_str());
    out.append(" ");
    out.append(text::pad_left(e, 10).as_str());
    out.append(" ");
    out.append(text::pad_left(f, 7).as_str());
    out.append(" ");
    out.append(text::pad_left(g, 8).as_str());
    out.append(" ");
    out.append(text::pad_left(h, 8).as_str());
    out.append("\n");
    out
}

fn skills_text(skills: &Option<Vec<SkillStats>>) -> (r: String)
    ensures
        r@ == skills_section(*skills),
{
    let skills: &Vec<SkillStats> = match skills {
        Some(skills) => skills,
        None => return "".to_owned(),
    };
    if skills.len() == 0 {
        return "\n--- Skill Breakdown ---\nNo skill activity recorded in window.\n".to_owned();
    }
    let mut out: String = "\n--- Skill Breakdown ---\n".to_owned();
    let head: String = line_text(
        "Skill ID",
        "Top-1",
        "Shortlist",
        "Obs Loads",
        "Attr Loads",
        "Useful",
        "Harmful",
        "Neutral",
    );
    out.append(head.as_str());
    let mut i: usize = 0;
    assert(skills@.take(0) =~= Seq::<SkillStats>::empty());
    while i < skills.len()
        invariant
            i <= skills@.len(),
            out@ == skill_rows(skills@.take(i as int)),
        decreases skills@.len() - i,
    {
        proof {
            assert(skills@.take(i + 1).drop_last() =~= skills@.take(i as int));
            assert(skills@.take(i + 1).last() == skills@[i as int]);
        }
        let s: &SkillStats = &skills[i];
        let line: String = line_text(
            s.skill_id.as_str(),
            text::number(s.top1_recommendations).as_str(),
            text::number(s.shortlist_appearances).as_str(),
            text::number(s.observed_loads).as_str(),
            text::number(s.attributed_loads).as_str(),
            text::number(s.judged_useful).as_str(),
            text::number(s.judged_harmful).as_str(),
            text::number(s.judged_neutral).as_str(),
        );
        out.append(line.as_str());
        i = i + 1;
    }
    assert(skills@.take(i as int) =~= skills@);
    out
}

/// Put the report in words.
pub fn format_stats_report(report: &StatsReport) -> (r: String)
    ensures
        r@ == stats_text(*report),
{
    let mut out: String = header_text(report);
    out.append(turns_text(&report.turns).as_str());
    out.append(causes_text(&report.turns.failure_causes).as_str());
    out.append(hook_text(&report.hook_entries).as_str());
    out.append(channels_text(&report.turns.by_channel).as_str());
    out.append(latency_text(&report.latency).as_str());
    out.append(observations_text(&report.observations).as_str());
    out.append(judgments_text(&report.judgments).as_str());
    out.append(provider_text(&report.provider).as_str());
    out.append(skills_text(&report.by_skill).as_str());
    out
}

/// Whether a result is the start of a window.
pub open spec fn started(cutoff: Option<Result<i64, String>>, r: Result<i64, Failure>) -> bool {
    match cutoff {
        None => r == Ok::<i64, Failure>(0),
        Some(Ok(ms)) => r == Ok::<i64, Failure>(ms),
        Some(Err(detail)) => r is Err && failure_view(r->Err_0) == (
            2u8,
            "invalid-arguments"@,
            detail@,
        ),
    }
}

/// The start of a window: the cutoff asked for, else the beginning. A cutoff
/// that cannot be read is refused with what was wrong with it.
pub fn window_start(cutoff: Option<Result<i64, String>>) -> (r: Result<i64, Failure>)
    ensures
        started(cutoff, r),
{
    match cutoff {
        None => Ok(0),
        Some(Ok(ms)) => Ok(ms),
        Some(Err(detail)) => Err((2, "invalid-arguments", detail)),
    }
}

/// The time of a report, where the system clock has one.
pub fn report_time(now_ms: Option<i64>) -> (r: Result<i64, Failure>)
    ensures
        now_ms is Some ==> r == Ok::<i64, Failure>(now_ms->0),
        now_ms is None ==> r is Err && failure_view(r->Err_0) == (
            9u8,
            "storage-failure"@,
            "System clock cannot represent a Unix timestamp"@,
        ),
{
    match now_ms {
        Some(ms) => Ok(ms),
        None => Err(
            failure(9, "storage-failure", "System clock cannot represent a Unix timestamp"),
        ),
    }
}

/// The failure of a report that could not be computed.
pub fn stats_failure(fault: &StoreFault) -> (r: Failure)
    ensures
        failure_view(r) == store_refusal("Failed to compute stats report"@, *fault),
{
    store_failure("Failed to compute stats report", fault)
}

/// What the stats command answers: the failure of a report that could not be
/// computed, else the report as a document where one is asked for, else in
/// words.
pub open spec fn stats_outcome(
    report: Result<StatsReport, StoreFault>,
    document: Option<Result<String, String>>,
) -> Result<Seq<char>, (u8, Seq<char>, Seq<char>)> {
    match report {
        Err(fault) => Err(store_refusal("Failed to compute stats report"@, fault)),
        Ok(report) => match document {
            Some(document) => written(document),
            None => Ok(stats_text(report)),
        },
    }
}

/// Answer the stats command. `document` is the report in writing, where one is
/// asked for.
pub fn finish_stats(
    report: Result<StatsReport, StoreFault>,
    document: Option<Result<String, String>>,
) -> (r: Result<String, Failure>)
    ensures
        answers(r, stats_outcome(report, document)),
{
    match report {
        Err(fault) => Err(stats_failure(&fault)),
        Ok(report) => match document {
            Some(document) => write_document(document),
            None => Ok(format_stats_report(&report)),
        },
    }
}

/// A line of a text: a label at the start of a line, and a value that ends it.
pub open spec fn has_line(text: Seq<char>, label: Seq<char>, value: Seq<char>) -> bool {
    occurs(text, "\n"@ + label + value + "\n"@)
}

/// A line of two texts with the same text before and after it in both.
pub open spec fn lines_between(
    a: Seq<char>,
    b: Seq<char>,
    line_a: Seq<char>,
    line_b: Seq<char>,
    before: Seq<char>,
    after: Seq<char>,
) -> bool {
    a == before + line_a + after && b == before + line_b + after
}

/// Whether two texts differ in nothing but what ends one line.
pub open spec fn differs_in_line(
    a: Seq<char>,
    b: Seq<char>,
    label: Seq<char>,
    in_a: Seq<char>,
    in_b: Seq<char>,
) -> bool {
    exists|before: Seq<char>, after: Seq<char>|
        lines_between(
            a,
            b,
            "\n"@ + label + in_a + "\n"@,
            "\n"@ + label + in_b + "\n"@,
            before,
            after,
        )
}

proof fn lemma_line(x: Seq<char>, label: Seq<char>, value: Seq<char>)
    requires
        x.len() > 0,
        x.last() == '\n',
    ensures
        has_line(x + (label + value + "\n"@), label, value),
        (x + (label + value + "\n"@)).len() > 0,
        (x + (label + value + "\n"@)).last() == '\n',
        forall|part: Seq<char>|
            occurs(x, part) ==> #[trigger] occurs(x + (label + value + "\n"@), part),
{
    reveal_strlit("\n");
    let line = "\n"@ + label + value + "\n"@;
    assert(x + (label + value + "\n"@) =~= x.drop_last() + line);
    lemma_occurs_between(x.drop_last(), line, Seq::empty());
    lemma_appended(x, label + value + "\n"@);
}

proof fn lemma_row(x: Seq<char>, label: Seq<char>, n: u64)
    requires
        x.len() > 0,
        x.last() == '\n',
    ensures
        has_line(x + row(label, n), label, decimal(n as nat)),
        (x + row(label, n)).len() > 0,
        (x + row(label, n)).last() == '\n',
        forall|part: Seq<char>| occurs(x, part) ==> #[trigger] occurs(x + row(label, n), part),
{
    lemma_line(x, label, decimal(n as nat));
}

proof fn lemma_rate(x: Seq<char>, label: Seq<char>, rate: Option<String>)
    requires
        x.len() > 0,
        x.last() == '\n',
    ensures
        rate is Some ==> has_line(x + rate_row(label, rate), label, rate->0@ + "%"@),
        rate is None ==> x + rate_row(label, rate) == x,
        (x + rate_row(label, rate)).len() > 0,
        (x + rate_row(label, rate)).last() == '\n',
        forall|part: Seq<char>|
            occurs(x, part) ==> #[trigger] occurs(x + rate_row(label, rate), part),
{
    if rate is Some {
        let value = rate->0@ + "%"@;
        assert(rate_row(label, rate) == label + value + "\n"@) by {
            reveal_strlit("\n");
            reveal_strlit("%");
            reveal_strlit("%\n");
            assert("%\n"@ =~= "%"@ + "\n"@);
            assert(rate_row(label, rate) =~= label + value + "\n"@);
        }
        lemma_line(x, label, value);
    } else {
        reveal_strlit("");
        assert(x + rate_row(label, rate) =~= x);
    }
}

/// What a section says, the report says.
proof fn lemma_sections(r: StatsReport)
    ensures
        forall|p: Seq<char>| occurs(header_section(r), p) ==> #[trigger] occurs(stats_text(r), p),
        forall|p: Seq<char>|
            occurs(turns_section(r.turns), p) ==> #[trigger] occurs(stats_text(r), p),
        forall|p: Seq<char>|
            occurs(causes_section(r.turns.failure_causes@), p) ==> #[trigger] occurs(
                stats_text(r),
                p,
            ),
        forall|p: Seq<char>|
            occurs(hook_section(r.hook_entries), p) ==> #[trigger] occurs(stats_text(r), p),
        forall|p: Seq<char>|
            occurs(channels_section(r.turns.by_channel@), p) ==> #[trigger] occurs(
                stats_text(r),
                p,
            ),
        forall|p: Seq<char>|
            occurs(latency_section(r.latency), p) ==> #[trigger] occurs(stats_text(r), p),
        forall|p: Seq<char>|
            occurs(observations_section(r.observations), p) ==> #[trigger] occurs(
                stats_text(r),
                p,
            ),
        forall|p: Seq<char>|
            occurs(judgments_section(r.judgments), p) ==> #[trigger] occurs(stats_text(r), p),
        forall|p: Seq<char>|
            occurs(provider_section(r.provider), p) ==> #[trigger] occurs(stats_text(r), p),
        forall|p: Seq<char>|
            occurs(skills_section(r.by_skill), p) ==> #[trigger] occurs(stats_text(r), p),
{
    let s1 = header_section(r);
    lemma_appended(s1, turns_section(r.turns));
    let s2 = s1 + turns_section(r.turns);
    lemma_appended(s2, causes_section(r.turns.failure_causes@));
    let s3 = s2 + causes_section(r.turns.failure_causes@);
    lemma_appended(s3, hook_section(r.hook_entries));
    let s4 = s3 + hook_section(r.hook_entries);
    lemma_appended(s4, channels_section(r.turns.by_channel@));
    let s5 = s4 + channels_section(r.turns.by_channel@);
    lemma_appended(s5, latency_section(r.latency));
    let s6 = s5 + latency_section(r.latency);
    lemma_appended(s6, observations_section(r.observations));
    let s7 = s6 + observations_section(r.observations);
    lemma_appended(s7, judgments_section(r.judgments));
    let s8 = s7 + judgments_section(r.judgments);
    lemma_appended(s8, provider_section(r.provider));
    let s9 = s8 + provider_section(r.provider);
    lemma_appended(s9, skills_section(r.by_skill));
    assert(s9 + skills_section(r.by_skill) == stats_text(r));
}

proof fn lemma_section_turn_lines(s: TurnStats)
    ensures
        has_line(turns_section(s), "Total turns evaluated:    "@, decimal(s.total_evaluated as nat)),
        has_line(turns_section(s), "Emitted suggestions:      "@, decimal(s.emitted_suggestions as nat)),
        has_line(turns_section(s), "Valid abstentions:        "@, decimal(s.valid_abstentions as nat)),
        has_line(turns_section(s), "Muted or suppressed:      "@, decimal(s.muted_or_suppressed as nat)),
        has_line(turns_section(s), "Operational failures:     "@, decimal(s.operational_failures as nat)),
        has_line(turns_section(s), "Explicit requirements:    "@, decimal(s.explicit_requirements as nat)),
        has_line(turns_section(s), "Unfinished (in flight or killed): "@, decimal(s.in_flight_or_killed as nat)),
{
    reveal_strlit("--- Evaluated Turns & Interruption ---\n");
    let x0 = "--- Evaluated Turns & Interruption ---\n"@;
    lemma_row(x0, "Total turns evaluated:    "@, s.total_evaluated);
    let x1 = x0 + row("Total turns evaluated:    "@, s.total_evaluated);
    lemma_row(x1, "Emitted suggestions:      "@, s.emitted_suggestions);
    let x2 = x1 + row("Emitted suggestions:      "@, s.emitted_suggestions);
    lemma_row(x2, "Valid abstentions:        "@, s.valid_abstentions);
    let x3 = x2 + row("Valid abstentions:        "@, s.valid_abstentions);
    lemma_row(x3, "Muted or suppressed:      "@, s.muted_or_suppressed);
    let x4 = x3 + row("Muted or suppressed:      "@, s.muted_or_suppressed);
    lemma_row(x4, "Operational failures:     "@, s.operational_failures);
    let x5 = x4 + row("Operational failures:     "@, s.operational_failures);
    lemma_row(x5, "Explicit requirements:    "@, s.explicit_requirements);
    let x6 = x5 + row("Explicit requirements:    "@, s.explicit_requirements);
    lemma_row(x6, "Unfinished (in flight or killed): "@, s.in_flight_or_killed);
    let x7 = x6 + row("Unfinished (in flight or killed): "@, s.in_flight_or_killed);
    assert(x7 == turns_section(s));
}

/// Every count of turns stands on the line that is named after it.
pub proof fn lemma_turn_lines(r: StatsReport)
    ensures
        has_line(stats_text(r), "Total turns evaluated:    "@, decimal(r.turns.total_evaluated as nat)),
        has_line(stats_text(r), "Emitted suggestions:      "@, decimal(r.turns.emitted_suggestions as nat)),
        has_line(stats_text(r), "Valid abstentions:        "@, decimal(r.turns.valid_abstentions as nat)),
        has_line(stats_text(r), "Muted or suppressed:      "@, decimal(r.turns.muted_or_suppressed as nat)),
        has_line(stats_text(r), "Operational failures:     "@, decimal(r.turns.operational_failures as nat)),
        has_line(stats_text(r), "Explicit requirements:    "@, decimal(r.turns.explicit_requirements as nat)),
        has_line(stats_text(r), "Unfinished (in flight or killed): "@, decimal(r.turns.in_flight_or_killed as nat)),
{
    lemma_section_turn_lines(r.turns);
    lemma_sections(r);
}

proof fn lemma_section_observation_lines(s: ObservationStats)
    ensures
        has_line(observations_section(s), "Total observations:       "@, decimal(s.total_observations as nat)),
        has_line(observations_section(s), "Observed loads:           "@, decimal(s.observed_loads as nat)),
        has_line(observations_section(s), "Attempted loads:          "@, decimal(s.attempted_loads as nat)),
        has_line(observations_section(s), "Censored observations:    "@, decimal(s.censored_observations as nat)),
        has_line(observations_section(s), "Attributed loads:         "@, decimal(s.attributed_loads as nat)),
        has_line(observations_section(s), "Unattributed loads:       "@, decimal(s.unattributed_loads as nat)),
        s.observation_coverage is Some ==> has_line(observations_section(s), "Observation coverage:     "@, s.observation_coverage->0@ + "%"@),
        s.suggestion_adoption_rate is Some ==> has_line(observations_section(s), "Suggestion adoption rate: "@, s.suggestion_adoption_rate->0@ + "%"@),
        has_line(observations_section(s), "Note: "@, s.caveat@),
{
    reveal_strlit("\n--- Observations & Adoption ---\n");
    let x0 = "\n--- Observations & Adoption ---\n"@;
    lemma_row(x0, "Total observations:       "@, s.total_observations);
    let x1 = x0 + row("Total observations:       "@, s.total_observations);
    lemma_row(x1, "Observed loads:           "@, s.observed_loads);
    let x2 = x1 + row("Observed loads:           "@, s.observed_loads);
    lemma_row(x2, "Attempted loads:          "@, s.attempted_loads);
    let x3 = x2 + row("Attempted loads:          "@, s.attempted_loads);
    lemma_row(x3, "Censored observations:    "@, s.censored_observations);
    let x4 = x3 + row("Censored observations:    "@, s.censored_observations);
    lemma_row(x4, "Attributed loads:         "@, s.attributed_loads);
    let x5 = x4 + row("Attributed loads:         "@, s.attributed_loads);
    lemma_row(x5, "Unattributed loads:       "@, s.unattributed_loads);
    let x6 = x5 + row("Unattributed loads:       "@, s.unattributed_loads);
    lemma_rate(x6, "Observation coverage:     "@, s.observation_coverage);
    let x7 = x6 + rate_row("Observation coverage:     "@, s.observation_coverage);
    lemma_rate(x7, "Suggestion adoption rate: "@, s.suggestion_adoption_rate);
    let x8 = x7 + rate_row("Suggestion adoption rate: "@, s.suggestion_adoption_rate);
    lemma_line(x8, "Note: "@, s.caveat@);
    assert(x8 + ("Note: "@ + s.caveat@ + "\n"@) =~= observations_section(
        s,
    ));
}

/// Every count and rate of observations stands on the line that is named after
/// it, and the caveat on that of the note.
pub proof fn lemma_observation_lines(r: StatsReport)
    ensures
        has_line(stats_text(r), "Total observations:       "@, decimal(r.observations.total_observations as nat)),
        has_line(stats_text(r), "Observed loads:           "@, decimal(r.observations.observed_loads as nat)),
        has_line(stats_text(r), "Attempted loads:          "@, decimal(r.observations.attempted_loads as nat)),
        has_line(stats_text(r), "Censored observations:    "@, decimal(r.observations.censored_observations as nat)),
        has_line(stats_text(r), "Attributed loads:         "@, decimal(r.observations.attributed_loads as nat)),
        has_line(stats_text(r), "Unattributed loads:       "@, decimal(r.observations.unattributed_loads as nat)),
        r.observations.observation_coverage is Some ==> has_line(stats_text(r), "Observation coverage:     "@, r.observations.observation_coverage->0@ + "%"@),
        r.observations.suggestion_adoption_rate is Some ==> has_line(stats_text(r), "Suggestion adoption rate: "@, r.observations.suggestion_adoption_rate->0@ + "%"@),
        has_line(stats_text(r), "Note: "@, r.observations.caveat@),
{
    lemma_section_observation_lines(r.observations);
    lemma_sections(r);
}

proof fn lemma_section_judgment_lines(s: JudgmentStats)
    ensures
        has_line(judgments_section(s), "Total judgments:          "@, decimal(s.total_judgments as nat)),
        has_line(judgments_section(s), "Useful:                   "@, decimal(s.useful as nat)),
        has_line(judgments_section(s), "Harmful:                  "@, decimal(s.harmful as nat)),
        has_line(judgments_section(s), "Neutral:                  "@, decimal(s.neutral as nat)),
        has_line(judgments_section(s), "Distinct judged events:   "@, decimal(s.distinct_judged_events as nat)),
        s.label_coverage_rate is Some ==> has_line(judgments_section(s), "Label coverage rate:      "@, s.label_coverage_rate->0@ + "%"@),
        s.useful_ratio_in_judged is Some ==> has_line(judgments_section(s), "Useful ratio in judged:   "@, s.useful_ratio_in_judged->0@ + "%"@),
{
    reveal_strlit("\n--- Judgments (Judged Cohort) ---\n");
    let x0 = "\n--- Judgments (Judged Cohort) ---\n"@;
    lemma_row(x0, "Total judgments:          "@, s.total_judgments);
    let x1 = x0 + row("Total judgments:          "@, s.total_judgments);
    lemma_row(x1, "Useful:                   "@, s.useful);
    let x2 = x1 + row("Useful:                   "@, s.useful);
    lemma_row(x2, "Harmful:                  "@, s.harmful);
    let x3 = x2 + row("Harmful:                  "@, s.harmful);
    lemma_row(x3, "Neutral:                  "@, s.neutral);
    let x4 = x3 + row("Neutral:                  "@, s.neutral);
    lemma_row(x4, "Distinct judged events:   "@, s.distinct_judged_events);
    let x5 = x4 + row("Distinct judged events:   "@, s.distinct_judged_events);
    lemma_rate(x5, "Label coverage rate:      "@, s.label_coverage_rate);
    let x6 = x5 + rate_row("Label coverage rate:      "@, s.label_coverage_rate);
    lemma_rate(x6, "Useful ratio in judged:   "@, s.useful_ratio_in_judged);
    let x7 = x6 + rate_row("Useful ratio in judged:   "@, s.useful_ratio_in_judged);
    assert(x7 == judgments_section(s));
}

/// Every count and rate of judgments stands on the line that is named after it:
/// the useful ones on the useful line and the harmful ones on the harmful line.
pub proof fn lemma_judgment_lines(r: StatsReport)
    ensures
        has_line(stats_text(r), "Total judgments:          "@, decimal(r.judgments.total_judgments as nat)),
        has_line(stats_text(r), "Useful:                   "@, decimal(r.judgments.useful as nat)),
        has_line(stats_text(r), "Harmful:                  "@, decimal(r.judgments.harmful as nat)),
        has_line(stats_text(r), "Neutral:                  "@, decimal(r.judgments.neutral as nat)),
        has_line(stats_text(r), "Distinct judged events:   "@, decimal(r.judgments.distinct_judged_events as nat)),
        r.judgments.label_coverage_rate is Some ==> has_line(stats_text(r), "Label coverage rate:      "@, r.judgments.label_coverage_rate->0@ + "%"@),
        r.judgments.useful_ratio_in_judged is Some ==> has_line(stats_text(r), "Useful ratio in judged:   "@, r.judgments.useful_ratio_in_judged->0@ + "%"@),
{
    lemma_section_judgment_lines(r.judgments);
    lemma_sections(r);
}

#[verifier::rlimit(40)]
proof fn lemma_section_latency_line(s: LatencyStats)
    ensures
        occurs(latency_section(s), "Mean: "@ + decimal(s.mean_ms as nat) + " ms"@),
        occurs(latency_section(s), "Median: "@ + decimal(s.median_ms as nat) + " ms"@),
        occurs(latency_section(s), "P95: "@ + decimal(s.p95_ms as nat) + " ms"@),
        occurs(latency_section(s), "Range: "@ + decimal(s.min_ms as nat) + " .. "@),
        occurs(latency_section(s), " .. "@ + decimal(s.max_ms as nat) + " ms\n"@),
        s.excluded_unfinished > 0 ==> occurs(latency_section(s), "Excluded "@ + decimal(s.excluded_unfinished as nat) + " unfinished turn(s) with no measured duration.\n"@),
{
    reveal_strlit("\n--- Latency ---\nMean: ");
    let y0 = "\n--- Latency ---\nMean: "@;
    reveal_strlit("Mean: ");
    reveal_strlit(" ms | Median: ");
    reveal_strlit(" ms");
    assert(y0.skip(y0.len() - "Mean: "@.len()) =~= "Mean: "@);
    assert(" ms | Median: "@.take(" ms"@.len() as int) =~= " ms"@);
    lemma_value_shown(y0, decimal(s.mean_ms as nat), " ms | Median: "@, "Mean: "@, " ms"@);
    let y1 = y0 + decimal(s.mean_ms as nat) + " ms | Median: "@;
    reveal_strlit("Median: ");
    reveal_strlit(" ms | P95: ");
    assert(y1.skip(y1.len() - "Median: "@.len()) =~= "Median: "@);
    assert(" ms | P95: "@.take(" ms"@.len() as int) =~= " ms"@);
    lemma_value_shown(y1, decimal(s.median_ms as nat), " ms | P95: "@, "Median: "@, " ms"@);
    let y2 = y1 + decimal(s.median_ms as nat) + " ms | P95: "@;
    reveal_strlit("P95: ");
    reveal_strlit(" ms | Range: ");
    assert(y2.skip(y2.len() - "P95: "@.len()) =~= "P95: "@);
    assert(" ms | Range: "@.take(" ms"@.len() as int) =~= " ms"@);
    lemma_value_shown(y2, decimal(s.p95_ms as nat), " ms | Range: "@, "P95: "@, " ms"@);
    let y3 = y2 + decimal(s.p95_ms as nat) + " ms | Range: "@;
    reveal_strlit("Range: ");
    reveal_strlit(" .. ");
    assert(y3.skip(y3.len() - "Range: "@.len()) =~= "Range: "@);
    assert(" .. "@.take(" .. "@.len() as int) =~= " .. "@);
    lemma_value_shown(y3, decimal(s.min_ms as nat), " .. "@, "Range: "@, " .. "@);
    let y4 = y3 + decimal(s.min_ms as nat) + " .. "@;
    reveal_strlit(" ms\n");
    assert(y4.skip(y4.len() - " .. "@.len()) =~= " .. "@);
    assert(" ms\n"@.take(" ms\n"@.len() as int) =~= " ms\n"@);
    lemma_value_shown(y4, decimal(s.max_ms as nat), " ms\n"@, " .. "@, " ms\n"@);
    let y5 = y4 + decimal(s.max_ms as nat) + " ms\n"@;
    let piece5 = if s.excluded_unfinished > 0 {
        "Excluded "@ + decimal(s.excluded_unfinished as nat)
            + " unfinished turn(s) with no measured duration.\n"@
    } else {
        ""@
    };
    lemma_appended(y5, piece5);
    let y6 = y5 + piece5;
    assert(y6 == latency_section(s));
}

/// Every latency stands behind its own name, and the turns that none was
/// measured of are said to be left out where there are any.
pub proof fn lemma_latency_line(r: StatsReport)
    ensures
        occurs(stats_text(r), "Mean: "@ + decimal(r.latency.mean_ms as nat) + " ms"@),
        occurs(stats_text(r), "Median: "@ + decimal(r.latency.median_ms as nat) + " ms"@),
        occurs(stats_text(r), "P95: "@ + decimal(r.latency.p95_ms as nat) + " ms"@),
        occurs(stats_text(r), "Range: "@ + decimal(r.latency.min_ms as nat) + " .. "@),
        occurs(stats_text(r), " .. "@ + decimal(r.latency.max_ms as nat) + " ms\n"@),
        r.latency.excluded_unfinished > 0 ==> occurs(stats_text(r), "Excluded "@ + decimal(r.latency.excluded_unfinished as nat) + " unfinished turn(s) with no measured duration.\n"@),
{
    lemma_section_latency_line(r.latency);
    lemma_sections(r);
}

#[verifier::rlimit(40)]
proof fn lemma_section_provider_lines(s: ProviderStats)
    ensures
        occurs(provider_section(s), "\nTotal attempts:           "@ + decimal(s.total_attempts as nat) + " ("@),
        occurs(provider_section(s), " (completed: "@ + decimal(s.completed_attempts as nat) + ","@),
        occurs(provider_section(s), ", failed: "@ + decimal(s.failed_attempts as nat) + ","@),
        occurs(provider_section(s), ", unknown: "@ + decimal(s.unknown_attempts as nat) + ")"@),
        occurs(provider_section(s), "\nKnown tokens:             "@ + decimal(s.known_total_tokens as nat) + " ("@),
        occurs(provider_section(s), " (input: "@ + decimal(s.known_input_tokens as nat) + ","@),
        occurs(provider_section(s), ", output: "@ + decimal(s.known_output_tokens as nat) + ")\n"@),
        has_line(provider_section(s), "Unknown usage attempts:   "@, decimal(s.unknown_usage_attempts as nat)),
        has_line(provider_section(s), "Cache-served events:      "@, decimal(s.cache_served_events as nat)),
        s.cache_hit_rate is Some ==> has_line(provider_section(s), "Cache hit rate:           "@, s.cache_hit_rate->0@ + "%"@),
        has_line(provider_section(s), "Cost per useful suggestion: "@, s.cost_per_useful_suggestion@),
        s.judged_cohort_unknown_usage_attempts > 0 ==> occurs(provider_section(s), "  a lower bound: "@ + decimal(s.judged_cohort_unknown_usage_attempts as nat) + " judged attempt(s) reported no usage\n"@),
        s.judged_turns_served_from_cache > 0 ==> occurs(provider_section(s), "  of the judged turns, "@ + decimal(s.judged_turns_served_from_cache as nat) + " reused a response paid for elsewhere\n"@),
{
    reveal_strlit("\n--- Provider Usage & Cost ---\nTotal attempts:           ");
    let y0 = "\n--- Provider Usage & Cost ---\nTotal attempts:           "@;
    reveal_strlit("\nTotal attempts:           ");
    reveal_strlit(" (completed: ");
    reveal_strlit(" (");
    assert(y0.skip(y0.len() - "\nTotal attempts:           "@.len()) =~= "\nTotal attempts:           "@);
    assert(" (completed: "@.take(" ("@.len() as int) =~= " ("@);
    lemma_value_shown(y0, decimal(s.total_attempts as nat), " (completed: "@, "\nTotal attempts:           "@, " ("@);
    let y1 = y0 + decimal(s.total_attempts as nat) + " (completed: "@;
    reveal_strlit(", failed: ");
    reveal_strlit(",");
    assert(y1.skip(y1.len() - " (completed: "@.len()) =~= " (completed: "@);
    assert(", failed: "@.take(","@.len() as int) =~= ","@);
    lemma_value_shown(y1, decimal(s.completed_attempts as nat), ", failed: "@, " (completed: "@, ","@);
    let y2 = y1 + decimal(s.completed_attempts as nat) + ", failed: "@;
    reveal_strlit(", unknown: ");
    assert(y2.skip(y2.len() - ", failed: "@.len()) =~= ", failed: "@);
    assert(", unknown: "@.take(","@.len() as int) =~= ","@);
    lemma_value_shown(y2, decimal(s.failed_attempts as nat), ", unknown: "@, ", failed: "@, ","@);
    let y3 = y2 + decimal(s.failed_attempts as nat) + ", unknown: "@;
    reveal_strlit(")\nKnown tokens:             ");
    reveal_strlit(")");
    assert(y3.skip(y3.len() - ", unknown: "@.len()) =~= ", unknown: "@);
    assert(")\nKnown tokens:             "@.take(")"@.len() as int) =~= ")"@);
    lemma_value_shown(y3, decimal(s.unknown_attempts as nat), ")\nKnown tokens:             "@, ", unknown: "@, ")"@);
    let y4 = y3 + decimal(s.unknown_attempts as nat) + ")\nKnown tokens:             "@;
    reveal_strlit("\nKnown tokens:             ");
    reveal_strlit(" (input: ");
    assert(y4.skip(y4.len() - "\nKnown tokens:             "@.len()) =~= "\nKnown tokens:             "@);
    assert(" (input: "@.take(" ("@.len() as int) =~= " ("@);
    lemma_value_shown(y4, decimal(s.known_total_tokens as nat), " (input: "@, "\nKnown tokens:             "@, " ("@);
    let y5 = y4 + decimal(s.known_total_tokens as nat) + " (input: "@;
    reveal_strlit(", output: ");
    assert(y5.skip(y5.len() - " (input: "@.len()) =~= " (input: "@);
    assert(", output: "@.take(","@.len() as int) =~= ","@);
    lemma_value_shown(y5, decimal(s.known_input_tokens as nat), ", output: "@, " (input: "@, ","@);
    let y6 = y5 + decimal(s.known_input_tokens as nat) + ", output: "@;
    reveal_strlit(")\n");
    assert(y6.skip(y6.len() - ", output: "@.len()) =~= ", output: "@);
    assert(")\n"@.take(")\n"@.len() as int) =~= ")\n"@);
    lemma_value_shown(y6, decimal(s.known_output_tokens as nat), ")\n"@, ", output: "@, ")\n"@);
    let y7 = y6 + decimal(s.known_output_tokens as nat) + ")\n"@;
    lemma_row(y7, "Unknown usage attempts:   "@, s.unknown_usage_attempts);
    let y8 = y7 + row("Unknown usage attempts:   "@, s.unknown_usage_attempts);
    lemma_row(y8, "Cache-served events:      "@, s.cache_served_events);
    let y9 = y8 + row("Cache-served events:      "@, s.cache_served_events);
    lemma_rate(y9, "Cache hit rate:           "@, s.cache_hit_rate);
    let y10 = y9 + rate_row("Cache hit rate:           "@, s.cache_hit_rate);
    lemma_line(y10, "Cost per useful suggestion: "@, s.cost_per_useful_suggestion@);
    assert(y10 + ("Cost per useful suggestion: "@ + s.cost_per_useful_suggestion@ + "\n"@) =~= y10
        + "Cost per useful suggestion: "@ + s.cost_per_useful_suggestion@ + "\n"@);
    let y11 = y10 + "Cost per useful suggestion: "@ + s.cost_per_useful_suggestion@ + "\n"@;
    let piece11 = if s.judged_cohort_unknown_usage_attempts > 0 {
        "  a lower bound: "@ + decimal(s.judged_cohort_unknown_usage_attempts as nat)
            + " judged attempt(s) reported no usage\n"@
    } else {
        ""@
    };
    lemma_appended(y11, piece11);
    let y12 = y11 + piece11;
    let piece12 = if s.judged_turns_served_from_cache > 0 {
        "  of the judged turns, "@ + decimal(s.judged_turns_served_from_cache as nat)
            + " reused a response paid for elsewhere\n"@
    } else {
        ""@
    };
    lemma_appended(y12, piece12);
    let y13 = y12 + piece12;
    assert(y13 == provider_section(s));
}

/// Attempts, tokens and costs stand behind their own names, and what makes a
/// figure a lower bound is said where it holds.
pub proof fn lemma_provider_lines(r: StatsReport)
    ensures
        occurs(stats_text(r), "\nTotal attempts:           "@ + decimal(r.provider.total_attempts as nat) + " ("@),
        occurs(stats_text(r), " (completed: "@ + decimal(r.provider.completed_attempts as nat) + ","@),
        occurs(stats_text(r), ", failed: "@ + decimal(r.provider.failed_attempts as nat) + ","@),
        occurs(stats_text(r), ", unknown: "@ + decimal(r.provider.unknown_attempts as nat) + ")"@),
        occurs(stats_text(r), "\nKnown tokens:             "@ + decimal(r.provider.known_total_tokens as nat) + " ("@),
        occurs(stats_text(r), " (input: "@ + decimal(r.provider.known_input_tokens as nat) + ","@),
        occurs(stats_text(r), ", output: "@ + decimal(r.provider.known_output_tokens as nat) + ")\n"@),
        has_line(stats_text(r), "Unknown usage attempts:   "@, decimal(r.provider.unknown_usage_attempts as nat)),
        has_line(stats_text(r), "Cache-served events:      "@, decimal(r.provider.cache_served_events as nat)),
        r.provider.cache_hit_rate is Some ==> has_line(stats_text(r), "Cache hit rate:           "@, r.provider.cache_hit_rate->0@ + "%"@),
        has_line(stats_text(r), "Cost per useful suggestion: "@, r.provider.cost_per_useful_suggestion@),
        r.provider.judged_cohort_unknown_usage_attempts > 0 ==> occurs(stats_text(r), "  a lower bound: "@ + decimal(r.provider.judged_cohort_unknown_usage_attempts as nat) + " judged attempt(s) reported no usage\n"@),
        r.provider.judged_turns_served_from_cache > 0 ==> occurs(stats_text(r), "  of the judged turns, "@ + decimal(r.provider.judged_turns_served_from_cache as nat) + " reused a response paid for elsewhere\n"@),
{
    lemma_section_provider_lines(r.provider);
    lemma_sections(r);
}

#[verifier::rlimit(40)]
proof fn lemma_section_hook_entry_line(s: HookEntryStats)
    ensures
        occurs(hook_section(Some(s)), " at entry ("@ + s.counted_since@ + " to "@),
        occurs(hook_section(Some(s)), " to "@ + s.counted_until@ + ")"@),
        occurs(hook_section(Some(s)), "  counted: "@ + decimal(s.counted_at_entry as nat) + ","@),
        occurs(hook_section(Some(s)), ", recorded: "@ + decimal(s.recorded as nat) + ","@),
        occurs(hook_section(Some(s)), ", task notifications (not user turns): "@ + decimal(s.non_turn_deliveries as nat) + ","@),
        occurs(hook_section(Some(s)), ", left no row: "@ + decimal(s.unrecorded as nat) + " (upper bound on sr failures)"@),
        s.counter_full ==> occurs(hook_section(Some(s)), " (counter full: lower bounds)"@),
{
    reveal_strlit("\nHook invocations counted at entry (");
    let y0 = "\nHook invocations counted at entry ("@;
    reveal_strlit(" at entry (");
    reveal_strlit(" to ");
    assert(y0.skip(y0.len() - " at entry ("@.len()) =~= " at entry ("@);
    assert(" to "@.take(" to "@.len() as int) =~= " to "@);
    lemma_value_shown(y0, s.counted_since@, " to "@, " at entry ("@, " to "@);
    let y1 = y0 + s.counted_since@ + " to "@;
    reveal_strlit("):\n  counted: ");
    reveal_strlit(")");
    assert(y1.skip(y1.len() - " to "@.len()) =~= " to "@);
    assert("):\n  counted: "@.take(")"@.len() as int) =~= ")"@);
    lemma_value_shown(y1, s.counted_until@, "):\n  counted: "@, " to "@, ")"@);
    let y2 = y1 + s.counted_until@ + "):\n  counted: "@;
    reveal_strlit("  counted: ");
    reveal_strlit(", recorded: ");
    reveal_strlit(",");
    assert(y2.skip(y2.len() - "  counted: "@.len()) =~= "  counted: "@);
    assert(", recorded: "@.take(","@.len() as int) =~= ","@);
    lemma_value_shown(y2, decimal(s.counted_at_entry as nat), ", recorded: "@, "  counted: "@, ","@);
    let y3 = y2 + decimal(s.counted_at_entry as nat) + ", recorded: "@;
    reveal_strlit(", task notifications (not user turns): ");
    assert(y3.skip(y3.len() - ", recorded: "@.len()) =~= ", recorded: "@);
    assert(", task notifications (not user turns): "@.take(","@.len() as int) =~= ","@);
    lemma_value_shown(y3, decimal(s.recorded as nat), ", task notifications (not user turns): "@, ", recorded: "@, ","@);
    let y4 = y3 + decimal(s.recorded as nat) + ", task notifications (not user turns): "@;
    reveal_strlit(", left no row: ");
    assert(y4.skip(y4.len() - ", task notifications (not user turns): "@.len()) =~= ", task notifications (not user turns): "@);
    assert(", left no row: "@.take(","@.len() as int) =~= ","@);
    lemma_value_shown(y4, decimal(s.non_turn_deliveries as nat), ", left no row: "@, ", task notifications (not user turns): "@, ","@);
    let y5 = y4 + decimal(s.non_turn_deliveries as nat) + ", left no row: "@;
    reveal_strlit(" (upper bound on sr failures)");
    assert(y5.skip(y5.len() - ", left no row: "@.len()) =~= ", left no row: "@);
    assert(" (upper bound on sr failures)"@.take(" (upper bound on sr failures)"@.len() as int) =~= " (upper bound on sr failures)"@);
    lemma_value_shown(y5, decimal(s.unrecorded as nat), " (upper bound on sr failures)"@, ", left no row: "@, " (upper bound on sr failures)"@);
    let y6 = y5 + decimal(s.unrecorded as nat) + " (upper bound on sr failures)"@;
    let piece6 = if s.counter_full {
        " (counter full: lower bounds)"@
    } else {
        ""@
    };
    lemma_appended(y6, piece6);
    let y7 = y6 + piece6;
    let piece7 = "\n"@;
    lemma_appended(y7, piece7);
    let y8 = y7 + piece7;
    assert(y8 == hook_section(Some(s)));
}

/// What was counted at entry stands behind its own name, and a full counter is
/// said to be one.
pub proof fn lemma_hook_entry_line(r: StatsReport)
    requires
        r.hook_entries is Some,
    ensures
        occurs(stats_text(r), " at entry ("@ + r.hook_entries->0.counted_since@ + " to "@),
        occurs(stats_text(r), " to "@ + r.hook_entries->0.counted_until@ + ")"@),
        occurs(stats_text(r), "  counted: "@ + decimal(r.hook_entries->0.counted_at_entry as nat) + ","@),
        occurs(stats_text(r), ", recorded: "@ + decimal(r.hook_entries->0.recorded as nat) + ","@),
        occurs(stats_text(r), ", task notifications (not user turns): "@ + decimal(r.hook_entries->0.non_turn_deliveries as nat) + ","@),
        occurs(stats_text(r), ", left no row: "@ + decimal(r.hook_entries->0.unrecorded as nat) + " (upper bound on sr failures)"@),
        r.hook_entries->0.counter_full ==> occurs(stats_text(r), " (counter full: lower bounds)"@),
{
    lemma_section_hook_entry_line(r.hook_entries->0);
    lemma_sections(r);
}

/// The window is given from its start to its end.
pub proof fn lemma_window_line(r: StatsReport)
    ensures
        has_line(stats_text(r), "Window: "@, r.since@ + " .. "@ + r.as_of@),
{
    reveal_strlit("SkillRanker Value & Operational Report\nWindow: ");
    reveal_strlit("SkillRanker Value & Operational Report");
    reveal_strlit("Window: ");
    reveal_strlit("\n\n");
    reveal_strlit("\n");
    let line = "\n"@ + "Window: "@ + (r.since@ + " .. "@ + r.as_of@) + "\n"@;
    assert("SkillRanker Value & Operational Report\nWindow: "@
        =~= "SkillRanker Value & Operational Report"@ + "\n"@ + "Window: "@);
    assert("\n\n"@ =~= "\n"@ + "\n"@);
    assert(header_section(r) =~= "SkillRanker Value & Operational Report"@ + line + "\n"@);
    lemma_occurs_between("SkillRanker Value & Operational Report"@, line, "\n"@);
    lemma_sections(r);
}

proof fn lemma_cause_row(causes: Seq<FailureCause>, i: int)
    requires
        0 <= i < causes.len(),
    ensures
        has_line(
            cause_rows(causes),
            "  "@ + causes[i].reason@ + ": "@,
            decimal(causes[i].count as nat),
        ),
    decreases causes.len(),
{
    let before = cause_rows(causes.drop_last());
    let last = causes.last();
    let label = "  "@ + last.reason@ + ": "@;
    let value = decimal(last.count as nat);
    lemma_cause_rows_end(causes.drop_last());
    lemma_line(before, label, value);
    assert(cause_rows(causes) =~= before + (label + value + "\n"@));
    if i < causes.len() - 1 {
        lemma_cause_row(causes.drop_last(), i);
        assert(causes.drop_last()[i] == causes[i]);
    }
}

proof fn lemma_cause_rows_end(causes: Seq<FailureCause>)
    ensures
        cause_rows(causes).len() > 0,
        cause_rows(causes).last() == '\n',
{
    reveal_strlit("\n");
    reveal_strlit("\nOperational failures by cause:\n");
}

/// Every cause of failure has a line with its own count.
pub proof fn lemma_cause_line(r: StatsReport, i: int)
    requires
        0 <= i < r.turns.failure_causes@.len(),
    ensures
        has_line(
            stats_text(r),
            "  "@ + r.turns.failure_causes@[i].reason@ + ": "@,
            decimal(r.turns.failure_causes@[i].count as nat),
        ),
{
    lemma_cause_row(r.turns.failure_causes@, i);
    lemma_sections(r);
}

/// The counts of a channel, each behind its own name.
pub open spec fn channel_counts(c: ChannelStats) -> Seq<char> {
    "evaluated: "@ + decimal(c.evaluated_turns as nat) + ", emitted: "@ + decimal(c.emitted as nat)
        + ", abstain: "@ + decimal(c.abstain as nat) + ", muted: "@ + decimal(c.muted as nat)
        + ", unavailable: "@ + decimal(c.unavailable as nat) + ", unfinished: "@ + decimal(
        c.in_flight_or_killed as nat,
    )
}

proof fn lemma_channel_rows_end(channels: Seq<ChannelStats>)
    ensures
        channel_rows(channels).len() > 0,
        channel_rows(channels).last() == '\n',
{
    reveal_strlit("\n");
    reveal_strlit("\nBy Channel:\n");
}

#[verifier::rlimit(60)]
#[verifier::spinoff_prover]
proof fn lemma_channel_regrouped(
    x: Seq<char>,
    name: Seq<char>,
    a: Seq<char>,
    b: Seq<char>,
    c: Seq<char>,
    d: Seq<char>,
    e: Seq<char>,
    f: Seq<char>,
)
    ensures
        x + "  ["@ + name + "] evaluated: "@ + a + ", emitted: "@ + b + ", abstain: "@ + c
            + ", muted: "@ + d + ", unavailable: "@ + e + (", unfinished: "@ + f + "\n"@) == x + ((
        "  ["@ + name + "] "@) + ("evaluated: "@ + a + ", emitted: "@ + b + ", abstain: "@ + c
            + ", muted: "@ + d + ", unavailable: "@ + e + ", unfinished: "@ + f) + "\n"@),
{
    let head = x + "  ["@ + name;
    let tail = a + ", emitted: "@ + b + ", abstain: "@ + c + ", muted: "@ + d + ", unavailable: "@
        + e;
    let open = "] evaluated: "@;
    assert(open == "] "@ + "evaluated: "@) by {
        reveal_strlit("] evaluated: ");
        reveal_strlit("] ");
        reveal_strlit("evaluated: ");
        assert("] evaluated: "@ =~= "] "@ + "evaluated: "@);
    }
    assert(head + open + a + ", emitted: "@ + b + ", abstain: "@ + c + ", muted: "@ + d
        + ", unavailable: "@ + e =~= head + open + tail);
    assert("evaluated: "@ + a + ", emitted: "@ + b + ", abstain: "@ + c + ", muted: "@ + d
        + ", unavailable: "@ + e =~= "evaluated: "@ + tail);
    assert(head + open + tail + (", unfinished: "@ + f + "\n"@) =~= x + (("  ["@ + name + "] "@) + (
    "evaluated: "@ + tail + ", unfinished: "@ + f) + "\n"@));
}

proof fn lemma_channel_row(channels: Seq<ChannelStats>, i: int)
    requires
        0 <= i < channels.len(),
    ensures
        has_line(
            channel_rows(channels),
            "  ["@ + channels[i].channel@ + "] "@,
            channel_counts(channels[i]),
        ),
    decreases channels.len(),
{
    let before = channel_rows(channels.drop_last());
    let c = channels.last();
    let label = "  ["@ + c.channel@ + "] "@;
    lemma_channel_rows_end(channels.drop_last());
    lemma_line(before, label, channel_counts(c));
    lemma_channel_regrouped(
        before,
        c.channel@,
        decimal(c.evaluated_turns as nat),
        decimal(c.emitted as nat),
        decimal(c.abstain as nat),
        decimal(c.muted as nat),
        decimal(c.unavailable as nat),
        decimal(c.in_flight_or_killed as nat),
    );
    if i < channels.len() - 1 {
        lemma_channel_row(channels.drop_last(), i);
        assert(channels.drop_last()[i] == channels[i]);
    }
}

/// Every channel has a line with its own counts.
pub proof fn lemma_channel_line(r: StatsReport, i: int)
    requires
        0 <= i < r.turns.by_channel@.len(),
    ensures
        ({
            let c = r.turns.by_channel@[i];
            has_line(
                stats_text(r),
                "  ["@ + c.channel@ + "] "@,
                "evaluated: "@ + decimal(c.evaluated_turns as nat) + ", emitted: "@ + decimal(
                    c.emitted as nat,
                ) + ", abstain: "@ + decimal(c.abstain as nat) + ", muted: "@ + decimal(
                    c.muted as nat,
                ) + ", unavailable: "@ + decimal(c.unavailable as nat) + ", unfinished: "@
                    + decimal(c.in_flight_or_killed as nat),
            )
        }),
{
    lemma_channel_row(r.turns.by_channel@, i);
    lemma_sections(r);
}

/// Whether a cell of a table ends at a column.
pub open spec fn ends_at(line: Seq<char>, cell: Seq<char>, column: int) -> bool {
    cell.len() <= column <= line.len() && line.subrange(column - cell.len(), column) == cell
}

proof fn lemma_table_columns(
    a: Seq<char>,
    b: Seq<char>,
    c: Seq<char>,
    d: Seq<char>,
    e: Seq<char>,
    f: Seq<char>,
    g: Seq<char>,
    h: Seq<char>,
)
    requires
        a.len() <= 24,
        b.len() <= 6,
        c.len() <= 10,
        d.len() <= 10,
        e.len() <= 10,
        f.len() <= 7,
        g.len() <= 8,
        h.len() <= 8,
    ensures
        ({
            let line = table_line(a, b, c, d, e, f, g, h);
            &&& line.take(a.len() as int) == a
            &&& ends_at(line, b, 31)
            &&& ends_at(line, c, 42)
            &&& ends_at(line, d, 53)
            &&& ends_at(line, e, 64)
            &&& ends_at(line, f, 72)
            &&& ends_at(line, g, 81)
            &&& ends_at(line, h, 90)
        }),
{
    reveal_strlit(" ");
    reveal_strlit("\n");
    let line = table_line(a, b, c, d, e, f, g, h);
    assert(line.take(a.len() as int) =~= a);
    assert(line.subrange(31 - b.len(), 31) =~= b);
    assert(line.subrange(42 - c.len(), 42) =~= c);
    assert(line.subrange(53 - d.len(), 53) =~= d);
    assert(line.subrange(64 - e.len(), 64) =~= e);
    assert(line.subrange(72 - f.len(), 72) =~= f);
    assert(line.subrange(81 - g.len(), 81) =~= g);
    assert(line.subrange(90 - h.len(), 90) =~= h);
}

/// Every count of a skill stands under its own heading: both end at one column,
/// as long as the cells fit into the widths of the table.
pub proof fn lemma_counts_stand_under_their_headings(s: SkillStats)
    requires
        s.skill_id@.len() <= 24,
        decimal(s.top1_recommendations as nat).len() <= 6,
        decimal(s.shortlist_appearances as nat).len() <= 10,
        decimal(s.observed_loads as nat).len() <= 10,
        decimal(s.attributed_loads as nat).len() <= 10,
        decimal(s.judged_useful as nat).len() <= 7,
        decimal(s.judged_harmful as nat).len() <= 8,
        decimal(s.judged_neutral as nat).len() <= 8,
    ensures
        ({
            let head = table_head();
            let line = skill_line(s);
            &&& head.take(8) == "Skill ID"@ && line.take(s.skill_id@.len() as int) == s.skill_id@
            &&& ends_at(head, "Top-1"@, 31) && ends_at(
                line,
                decimal(s.top1_recommendations as nat),
                31,
            )
            &&& ends_at(head, "Shortlist"@, 42) && ends_at(
                line,
                decimal(s.shortlist_appearances as nat),
                42,
            )
            &&& ends_at(head, "Obs Loads"@, 53) && ends_at(
                line,
                decimal(s.observed_loads as nat),
                53,
            )
            &&& ends_at(head, "Attr Loads"@, 64) && ends_at(
                line,
                decimal(s.attributed_loads as nat),
                64,
            )
            &&& ends_at(head, "Useful"@, 72) && ends_at(line, decimal(s.judged_useful as nat), 72)
            &&& ends_at(head, "Harmful"@, 81) && ends_at(
                line,
                decimal(s.judged_harmful as nat),
                81,
            )
            &&& ends_at(head, "Neutral"@, 90) && ends_at(
                line,
                decimal(s.judged_neutral as nat),
                90,
            )
        }),
{
    reveal_strlit("Skill ID");
    reveal_strlit("Top-1");
    reveal_strlit("Shortlist");
    reveal_strlit("Obs Loads");
    reveal_strlit("Attr Loads");
    reveal_strlit("Useful");
    reveal_strlit("Harmful");
    reveal_strlit("Neutral");
    lemma_table_columns(
        "Skill ID"@,
        "Top-1"@,
        "Shortlist"@,
        "Obs Loads"@,
        "Attr Loads"@,
        "Useful"@,
        "Harmful"@,
        "Neutral"@,
    );
    lemma_table_columns(
        s.skill_id@,
        decimal(s.top1_recommendations as nat),
        decimal(s.shortlist_appearances as nat),
        decimal(s.observed_loads as nat),
        decimal(s.attributed_loads as nat),
        decimal(s.judged_useful as nat),
        decimal(s.judged_harmful as nat),
        decimal(s.judged_neutral as nat),
    );
}

proof fn lemma_skill_row(skills: Seq<SkillStats>, i: int)
    requires
        0 <= i < skills.len(),
    ensures
        occurs(skill_rows(skills), skill_line(skills[i])),
        occurs(skill_rows(skills), table_head()),
    decreases skills.len(),
{
    let before = skill_rows(skills.drop_last());
    lemma_appended(before, skill_line(skills.last()));
    if i < skills.len() - 1 {
        lemma_skill_row(skills.drop_last(), i);
        assert(skills.drop_last()[i] == skills[i]);
    } else if skills.len() > 1 {
        lemma_skill_row(skills.drop_last(), i - 1);
    } else {
        lemma_appended("\n--- Skill Breakdown ---\n"@, table_head());
    }
}

/// A report that breaks the counts down by skill has the headings, and a line for
/// every skill.
pub proof fn lemma_skill_lines(r: StatsReport, i: int)
    requires
        r.by_skill is Some,
        0 <= i < r.by_skill->0@.len(),
    ensures
        occurs(stats_text(r), table_head()),
        occurs(stats_text(r), skill_line(r.by_skill->0@[i])),
{
    lemma_skill_row(r.by_skill->0@, i);
    lemma_sections(r);
}

spec fn before_useful(j: JudgmentStats) -> Seq<char> {
    "\n--- Judgments (Judged Cohort) ---\n"@ + row("Total judgments:          "@, j.total_judgments)
}

spec fn after_useful(j: JudgmentStats) -> Seq<char> {
    row("Harmful:                  "@, j.harmful) + row("Neutral:                  "@, j.neutral) + row("Distinct judged events:   "@, j.distinct_judged_events) + rate_row("Label coverage rate:      "@, j.label_coverage_rate) + rate_row("Useful ratio in judged:   "@, j.useful_ratio_in_judged)
}

#[verifier::rlimit(40)]
#[verifier::spinoff_prover]
proof fn lemma_split_at_useful(r: StatsReport)
    ensures
        stats_text(r) == (before_judgments(r) + before_useful(r.judgments)) + ("Useful:                   "@ + decimal(
            r.judgments.useful as nat,
        ) + "\n"@) + (after_useful(r.judgments) + provider_section(r.provider) + skills_section(
            r.by_skill,
        )),
        (before_judgments(r) + before_useful(r.judgments)).len() > 0,
        (before_judgments(r) + before_useful(r.judgments)).last() == '\n',
{
    let j = r.judgments;
    reveal_strlit("\n");
    lemma_split_report(r, before_useful(j), "Useful:                   "@, after_useful(j), j.useful);
}

/// Two reports that differ in the number of useful judgments alone: the line of
/// the useful ones changes with that number, and no other does.
#[verifier::rlimit(40)]
pub proof fn lemma_useful_count_changes_its_line_alone(r: StatsReport, useful: u64)
    ensures
        ({
            let q = StatsReport { judgments: JudgmentStats { useful, ..r.judgments }, ..r };
            &&& differs_in_line(
                stats_text(r),
                stats_text(q),
                "Useful:                   "@,
                decimal(r.judgments.useful as nat),
                decimal(useful as nat),
            )
            &&& useful != r.judgments.useful ==> stats_text(r) != stats_text(q)
            &&& has_line(
                stats_text(q),
                "Harmful:                  "@,
                decimal(r.judgments.harmful as nat),
            )
        }),
{
    let q = StatsReport { judgments: JudgmentStats { useful, ..r.judgments }, ..r };
    assert(has_line(
        stats_text(q),
        "Harmful:                  "@,
        decimal(r.judgments.harmful as nat),
    )) by {
        lemma_judgment_lines(q);
    }
    lemma_split_at_useful(r);
    lemma_split_at_useful(q);
    lemma_lines_differ(
        before_judgments(r) + before_useful(r.judgments),
        "Useful:                   "@,
        after_useful(r.judgments) + provider_section(r.provider) + skills_section(r.by_skill),
        decimal(r.judgments.useful as nat),
        decimal(useful as nat),
    );
    if decimal(useful as nat) == decimal(r.judgments.useful as nat) {
        lemma_decimal_injective(useful as nat, r.judgments.useful as nat);
    }
}

spec fn before_harmful(j: JudgmentStats) -> Seq<char> {
    "\n--- Judgments (Judged Cohort) ---\n"@ + row("Total judgments:          "@, j.total_judgments) + row("Useful:                   "@, j.useful)
}

spec fn after_harmful(j: JudgmentStats) -> Seq<char> {
    row("Neutral:                  "@, j.neutral) + row("Distinct judged events:   "@, j.distinct_judged_events) + rate_row("Label coverage rate:      "@, j.label_coverage_rate) + rate_row("Useful ratio in judged:   "@, j.useful_ratio_in_judged)
}

#[verifier::rlimit(40)]
#[verifier::spinoff_prover]
proof fn lemma_split_at_harmful(r: StatsReport)
    ensures
        stats_text(r) == (before_judgments(r) + before_harmful(r.judgments)) + ("Harmful:                  "@ + decimal(
            r.judgments.harmful as nat,
        ) + "\n"@) + (after_harmful(r.judgments) + provider_section(r.provider) + skills_section(
            r.by_skill,
        )),
        (before_judgments(r) + before_harmful(r.judgments)).len() > 0,
        (before_judgments(r) + before_harmful(r.judgments)).last() == '\n',
{
    let j = r.judgments;
    reveal_strlit("\n");
    lemma_split_report(r, before_harmful(j), "Harmful:                  "@, after_harmful(j), j.harmful);
}

/// Two reports that differ in the number of harmful judgments alone: the line of
/// the harmful ones changes with that number, and no other does.
#[verifier::rlimit(40)]
pub proof fn lemma_harmful_count_changes_its_line_alone(r: StatsReport, harmful: u64)
    ensures
        ({
            let q = StatsReport { judgments: JudgmentStats { harmful, ..r.judgments }, ..r };
            &&& differs_in_line(
                stats_text(r),
                stats_text(q),
                "Harmful:                  "@,
                decimal(r.judgments.harmful as nat),
                decimal(harmful as nat),
            )
            &&& harmful != r.judgments.harmful ==> stats_text(r) != stats_text(q)
            &&& has_line(
                stats_text(q),
                "Useful:                   "@,
                decimal(r.judgments.useful as nat),
            )
        }),
{
    let q = StatsReport { judgments: JudgmentStats { harmful, ..r.judgments }, ..r };
    assert(has_line(
        stats_text(q),
        "Useful:                   "@,
        decimal(r.judgments.useful as nat),
    )) by {
        lemma_judgment_lines(q);
    }
    lemma_split_at_harmful(r);
    lemma_split_at_harmful(q);
    lemma_lines_differ(
        before_judgments(r) + before_harmful(r.judgments),
        "Harmful:                  "@,
        after_harmful(r.judgments) + provider_section(r.provider) + skills_section(r.by_skill),
        decimal(r.judgments.harmful as nat),
        decimal(harmful as nat),
    );
    if decimal(harmful as nat) == decimal(r.judgments.harmful as nat) {
        lemma_decimal_injective(harmful as nat, r.judgments.harmful as nat);
    }
}

spec fn before_judgments(r: StatsReport) -> Seq<char> {
    header_section(r) + turns_section(r.turns) + causes_section(r.turns.failure_causes@)
        + hook_section(r.hook_entries) + channels_section(r.turns.by_channel@) + latency_section(
        r.latency,
    ) + observations_section(r.observations)
}

proof fn lemma_split_report(
    r: StatsReport,
    title: Seq<char>,
    label: Seq<char>,
    rest: Seq<char>,
    n: u64,
)
    requires
        judgments_section(r.judgments) =~= title + row(label, n) + rest,
    ensures
        stats_text(r) == (before_judgments(r) + title) + row(label, n) + (rest + provider_section(
            r.provider,
        ) + skills_section(r.by_skill)),
{
    lemma_regrouped(
        before_judgments(r),
        title,
        row(label, n),
        rest,
        provider_section(r.provider),
        skills_section(r.by_skill),
    );
}

proof fn lemma_regrouped(
    a: Seq<char>,
    b: Seq<char>,
    c: Seq<char>,
    d: Seq<char>,
    e: Seq<char>,
    f: Seq<char>,
)
    ensures
        a + (b + c + d) + e + f == (a + b) + c + (d + e + f),
{
    assert(a + (b + c + d) + e + f =~= (a + b) + c + (d + e + f));
}

proof fn lemma_lines_differ(
    x: Seq<char>,
    label: Seq<char>,
    after: Seq<char>,
    m: Seq<char>,
    n: Seq<char>,
)
    requires
        x.len() > 0,
        x.last() == '\n',
    ensures
        differs_in_line(
            x + (label + m + "\n"@) + after,
            x + (label + n + "\n"@) + after,
            label,
            m,
            n,
        ),
        x + (label + m + "\n"@) + after == x + (label + n + "\n"@) + after ==> m == n,
{
    reveal_strlit("\n");
    let a = x + (label + m + "\n"@) + after;
    let b = x + (label + n + "\n"@) + after;
    let line_m = "\n"@ + label + m + "\n"@;
    let line_n = "\n"@ + label + n + "\n"@;
    assert(a =~= x.drop_last() + line_m + after);
    assert(b =~= x.drop_last() + line_n + after);
    assert(lines_between(a, b, line_m, line_n, x.drop_last(), after));
    if a == b {
        let k = (x.len() + label.len()) as int;
        assert(a.len() == b.len());
        assert(m =~= a.subrange(k, k + m.len()));
        assert(n =~= b.subrange(k, k + n.len()));
    }
}

/// A window starts where it was asked to, and at the beginning where it was not; a
/// cutoff that cannot be read is refused.
pub proof fn lemma_where_a_window_starts(
    cutoff: Option<Result<i64, String>>,
    r: Result<i64, Failure>,
)
    requires
        started(cutoff, r),
    ensures
        r is Err <==> cutoff is Some && cutoff->0 is Err,
        cutoff is None ==> r->Ok_0 == 0,
        cutoff is Some && cutoff->0 is Ok ==> r->Ok_0 == cutoff->0->Ok_0,
        r is Err ==> r->Err_0.0 == 2 && r->Err_0.2@ == cutoff->0->Err_0@,
{
}

/// A report that could not be computed is a failure, whatever was asked for. Else it is
/// written as a document where one is asked for, and in words where none is.
pub proof fn lemma_what_stats_answers(
    report: Result<StatsReport, StoreFault>,
    document: Option<Result<String, String>>,
)
    ensures
        stats_outcome(report, document) is Ok <==> report is Ok && (document is None || document->0
            is Ok),
        report is Err ==> (stats_outcome(report, document)->Err_0).0 == 9,
        report is Ok && document is None ==> stats_outcome(report, document)->Ok_0 == stats_text(
            report->Ok_0,
        ),
        report is Ok && document is Some && document->0 is Ok ==> stats_outcome(
            report,
            document,
        )->Ok_0 == document->0->Ok_0@ + "\n"@,
{
}

} // verus!
