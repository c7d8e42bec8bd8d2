//! Explicit feedback and paired corrections for a ranking event.

use crate::cli::failure::{
    answers, category_failure, failure, failure_view, ErrorCategory, Failure,
};
use crate::evaluation::report::opt_view;
use crate::text;
use crate::text::{
    decimal, hyphenated, lemma_hyphenated_spells, lemma_occurs_between, lemma_occurs_in_longer,
    numeral, occurs, spells,
};
use vstd::prelude::*;
use vstd::string::*;

verus! {

/// The feedback arguments as given.
#[derive(Clone, Debug, PartialEq, Eq)]
pub struct FeedbackArguments {
    /// The positional event identity.
    pub event_id: Option<String>,
    /// The event identity given by flag.
    pub event: Option<String>,
    pub skill: Option<String>,
    pub instead: Option<String>,
    pub verdict: Option<String>,
    pub reason: Option<String>,
    pub provenance: Option<String>,
    pub expected_version: Option<String>,
}

/// A judgment of one skill.
#[derive(Clone, Copy, Debug, PartialEq, Eq, Structural)]
pub enum JudgmentLabel {
    Useful,
    Harmful,
    Neutral,
}

/// What feedback judges.
#[derive(Clone, Debug, PartialEq, Eq)]
pub enum FeedbackSubject {
    /// A better alternative to the original skill.
    Paired { alternative_skill_id: String },
    /// A verdict on one skill.
    Single { verdict: JudgmentLabel },
}

/// A feedback request.
#[derive(Clone, Debug, PartialEq, Eq)]
pub struct FeedbackRequest {
    pub event_id: String,
    pub skill_id: String,
    pub subject: FeedbackSubject,
    pub reason_code: Option<String>,
    pub provenance: Option<String>,
    pub expected_version: Option<u32>,
}

/// The judgment a verdict names, whatever its case, with underscores or hyphens.
pub open spec fn verdict_label(verdict: Seq<char>) -> Option<JudgmentLabel> {
    let name = hyphenated(verdict);
    if name == "useful"@ {
        Some(JudgmentLabel::Useful)
    } else if name == "harmful"@ || name == "not-useful"@ {
        Some(JudgmentLabel::Harmful)
    } else if name == "neutral"@ || name == "unknown"@ {
        Some(JudgmentLabel::Neutral)
    } else {
        None
    }
}

/// The judgment a verdict names.
pub fn parse_verdict(verdict: &str) -> (r: Option<JudgmentLabel>)
    ensures
        r == verdict_label(verdict@),
{
    let name: String = text::hyphenate(verdict);
    if text::eq(name.as_str(), "useful") {
        Some(JudgmentLabel::Useful)
    } else if text::eq(name.as_str(), "harmful") || text::eq(name.as_str(), "not-useful") {
        Some(JudgmentLabel::Harmful)
    } else if text::eq(name.as_str(), "neutral") || text::eq(name.as_str(), "unknown") {
        Some(JudgmentLabel::Neutral)
    } else {
        None
    }
}

/// The event that feedback is about.
pub open spec fn feedback_event(args: FeedbackArguments) -> Option<Seq<char>> {
    match args.event_id {
        Some(id) => Some(id@),
        None => opt_view(args.event),
    }
}

/// The version that a text spells, where it is one.
pub open spec fn version_of(s: Seq<char>) -> Option<u32> {
    match numeral(s) {
        Some(n) => if n <= u32::MAX {
            Some(n as u32)
        } else {
            None
        },
        None => None,
    }
}

/// The first reason to refuse feedback arguments.
pub open spec fn feedback_refusal(args: FeedbackArguments) -> Option<(u8, Seq<char>, Seq<char>)> {
    let refuse = |message: Seq<char>| Some((2u8, "invalid-arguments"@, message));
    if feedback_event(args) is None {
        refuse("Missing event ID for feedback"@)
    } else if args.skill is None {
        refuse("Missing original skill ID (--skill)"@)
    } else if args.instead is None && args.verdict is None {
        refuse(
            "Must specify either --instead for paired correction or --verdict for single feedback"@,
        )
    } else if args.instead is Some && args.verdict is Some {
        refuse("Cannot specify both --instead and --verdict"@)
    } else if args.expected_version is Some && version_of(args.expected_version->0@) is None {
        refuse("Invalid expected version number"@)
    } else if args.verdict is Some && verdict_label(args.verdict->0@) is None {
        refuse(
            "Invalid verdict '"@ + args.verdict->0@
                + "'; expected 'useful', 'not-useful' (or 'harmful'), or 'unknown' (or 'neutral')"@,
        )
    } else {
        None
    }
}

/// Whether a request is what accepted arguments ask for.
pub open spec fn requests(r: FeedbackRequest, args: FeedbackArguments) -> bool {
    &&& Some(r.event_id@) == feedback_event(args)
    &&& r.skill_id@ == args.skill->0@
    &&& opt_view(r.reason_code) == opt_view(args.reason)
    &&& opt_view(r.provenance) == opt_view(args.provenance)
    &&& r.expected_version == match args.expected_version {
        Some(version) => version_of(version@),
        None => None,
    }
    &&& match r.subject {
        FeedbackSubject::Paired { alternative_skill_id } => args.instead is Some
            && alternative_skill_id@ == args.instead->0@,
        FeedbackSubject::Single { verdict } => args.instead is None && Some(verdict)
            == verdict_label(args.verdict->0@),
    }
}

fn refused(message: &str) -> (r: Failure)
    ensures
        failure_view(r) == (2u8, "invalid-arguments"@, message@),
{
    failure(2, "invalid-arguments", message)
}

/// The request that feedback arguments ask for.
pub fn plan_feedback(args: FeedbackArguments) -> (r: Result<FeedbackRequest, Failure>)
    ensures
        match r {
            Ok(request) => feedback_refusal(args) is None && requests(request, args),
            Err(f) => feedback_refusal(args) == Some(failure_view(f)),
        },
{
    let event_id: String = match args.event_id {
        Some(id) => id,
        None => match args.event {
            Some(id) => id,
            None => return Err(refused("Missing event ID for feedback")),
        },
    };
    let skill_id: String = match args.skill {
        Some(id) => id,
        None => return Err(refused("Missing original skill ID (--skill)")),
    };
    if args.instead.is_none() && args.verdict.is_none() {
        return Err(
            refused(
                "Must specify either --instead for paired correction or --verdict for single feedback",
            ),
        );
    }
    if args.instead.is_some() && args.verdict.is_some() {
        return Err(refused("Cannot specify both --instead and --verdict"));
    }
    let expected_version: Option<u32> = match args.expected_version {
        Some(version) => match text::parse_number(version.as_str(), u32::MAX as u64) {
            Some(n) => Some(n as u32),
            None => return Err(refused("Invalid expected version number")),
        },
        None => None,
    };
    let subject: FeedbackSubject = match args.instead {
        Some(alternative_skill_id) => FeedbackSubject::Paired { alternative_skill_id },
        None => match args.verdict {
            Some(given) => match parse_verdict(given.as_str()) {
                Some(verdict) => FeedbackSubject::Single { verdict },
                None => {
                    let mut message: String = "Invalid verdict '".to_owned();
                    message.append(given.as_str());
                    message.append(
                        "'; expected 'useful', 'not-useful' (or 'harmful'), or 'unknown' (or 'neutral')",
                    );
                    return Err((2, "invalid-arguments", message));
                },
            },
            None => return Err(refused("Cannot specify both --instead and --verdict")),
        },
    };
    Ok(
        FeedbackRequest {
            event_id,
            skill_id,
            subject,
            reason_code: args.reason,
            provenance: args.provenance,
            expected_version,
        },
    )
}

/// Why the ledger refused feedback.
#[derive(Clone, Debug, PartialEq, Eq)]
pub enum FeedbackError {
    MissingSnapshot,
    IneligibleAlternative { skill_id: String, reason: Option<String> },
    RevisionConflict { expected: u64, actual: u64 },
    IdenticalSkills,
    InvalidSkillId(String),
    OriginalSkillNotFound(String),
    EventNotFound(String),
    StaleStamp,
    /// A storage error, by its text.
    Store(String),
}

/// The error categories that feedback reports under.
#[derive(Clone, Copy, Debug, PartialEq, Eq)]
pub struct FeedbackCategories {
    pub incomplete_roster: ErrorCategory,
    pub revision_conflict: ErrorCategory,
}

/// What a refusal of the ledger says.
pub open spec fn feedback_failure_view(error: FeedbackError, categories: FeedbackCategories) -> (
    u8,
    Seq<char>,
    Seq<char>,
) {
    match error {
        FeedbackError::MissingSnapshot => (
            categories.incomplete_roster.code,
            categories.incomplete_roster.name@,
            "Roster snapshot missing or incomplete for event. For a single judgment, supply a retained stable skill ID. Otherwise create a new ranking with an explicit --roster; this cannot repair the old event's history"@,
        ),
        FeedbackError::IneligibleAlternative { skill_id, reason } => (
            2u8,
            "ineligible-alternative"@,
            "Alternative skill '"@ + skill_id@ + "' is ineligible: "@ + match reason {
                Some(reason) => reason@,
                None => "ineligible"@,
            },
        ),
        FeedbackError::RevisionConflict { expected, actual } => (
            categories.revision_conflict.code,
            categories.revision_conflict.name@,
            "Ledger revision conflict: expected "@ + decimal(expected as nat) + ", actual "@
                + decimal(actual as nat),
        ),
        FeedbackError::IdenticalSkills => (
            2u8,
            "invalid-arguments"@,
            "Original and alternative skill IDs must be distinct"@,
        ),
        FeedbackError::InvalidSkillId(detail) => (
            2u8,
            "invalid-arguments"@,
            "Invalid skill ID: "@ + detail@,
        ),
        FeedbackError::OriginalSkillNotFound(id) => (
            2u8,
            "skill-not-found"@,
            "Original skill '"@ + id@ + "' not found in event or roster snapshot"@,
        ),
        FeedbackError::EventNotFound(id) => (
            2u8,
            "event-not-found"@,
            "Ranking event '"@ + id@ + "' not found in ledger"@,
        ),
        FeedbackError::StaleStamp => (
            categories.revision_conflict.code,
            categories.revision_conflict.name@,
            "Ledger stamp is stale"@,
        ),
        FeedbackError::Store(detail) => (
            9u8,
            "storage-failure"@,
            "Ledger storage error: "@ + detail@,
        ),
    }
}

/// The failure of feedback that the ledger refused.
pub fn feedback_failure(error: FeedbackError, categories: FeedbackCategories) -> (r: Failure)
    ensures
        failure_view(r) == feedback_failure_view(error, categories),
{
    match error {
        FeedbackError::MissingSnapshot => category_failure(
            categories.incomplete_roster,
            "Roster snapshot missing or incomplete for event. For a single judgment, supply a retained stable skill ID. Otherwise create a new ranking with an explicit --roster; this cannot repair the old event's history".to_owned(),
        ),
        FeedbackError::IneligibleAlternative { skill_id, reason } => {
            let mut message: String = "Alternative skill '".to_owned();
            message.append(skill_id.as_str());
            message.append("' is ineligible: ");
            match reason {
                Some(reason) => message.append(reason.as_str()),
                None => message.append("ineligible"),
            }
            (2, "ineligible-alternative", message)
        },
        FeedbackError::RevisionConflict { expected, actual } => {
            let mut message: String = "Ledger revision conflict: expected ".to_owned();
            message.append(text::number(expected).as_str());
            message.append(", actual ");
            message.append(text::number(actual).as_str());
            category_failure(categories.revision_conflict, message)
        },
        FeedbackError::IdenticalSkills => refused(
            "Original and alternative skill IDs must be distinct",
        ),
        FeedbackError::InvalidSkillId(detail) => {
            let mut message: String = "Invalid skill ID: ".to_owned();
            message.append(detail.as_str());
            (2, "invalid-arguments", message)
        },
        FeedbackError::OriginalSkillNotFound(id) => {
            let mut message: String = "Original skill '".to_owned();
            message.append(id.as_str());
            message.append("' not found in event or roster snapshot");
            (2, "skill-not-found", message)
        },
        FeedbackError::EventNotFound(id) => {
            let mut message: String = "Ranking event '".to_owned();
            message.append(id.as_str());
            message.append("' not found in ledger");
            (2, "event-not-found", message)
        },
        FeedbackError::StaleStamp => category_failure(
            categories.revision_conflict,
            "Ledger stamp is stale".to_owned(),
        ),
        FeedbackError::Store(detail) => {
            let mut message: String = "Ledger storage error: ".to_owned();
            message.append(detail.as_str());
            (9, "storage-failure", message)
        },
    }
}

/// What recorded feedback came to.
#[derive(Clone, Debug, PartialEq, Eq)]
pub enum FeedbackOutcome {
    PairedCorrection {
        group_id: String,
        data_generation: u64,
        original_judgment_id: String,
        alternative_judgment_id: String,
        alternative_skill_id: String,
    },
    ProspectiveProposal { proposal_id: String, alternative_skill_id: String, reason: String },
    SingleJudgment { judgment_id: String, verdict: JudgmentLabel, data_generation: u64 },
}

/// The name of a judgment.
pub open spec fn label_name(label: JudgmentLabel) -> Seq<char> {
    match label {
        JudgmentLabel::Useful => "Useful"@,
        JudgmentLabel::Harmful => "Harmful"@,
        JudgmentLabel::Neutral => "Neutral"@,
    }
}

/// What recorded feedback says to a person.
pub open spec fn feedback_text(outcome: FeedbackOutcome, skill_id: Seq<char>) -> Seq<char> {
    match outcome {
        FeedbackOutcome::PairedCorrection {
            group_id,
            data_generation,
            original_judgment_id,
            alternative_judgment_id,
            alternative_skill_id,
        } => "Recorded paired correction (group: "@ + group_id@ + ", data generation: "@ + decimal(
            data_generation as nat,
        ) + ")\n  Original '"@ + skill_id + "' judged harmful ("@ + original_judgment_id@
            + ")\n  Alternative '"@ + alternative_skill_id@ + "' judged useful ("@
            + alternative_judgment_id@ + ")\n"@,
        FeedbackOutcome::ProspectiveProposal { proposal_id, alternative_skill_id, reason } =>
            "Alternative '"@ + alternative_skill_id@
                + "' was historically absent from roster snapshot ("@ + reason@
                + ").\nRecorded prospective library proposal: "@ + proposal_id@
                + "\nNo historical usefulness judgments committed.\n"@,
        FeedbackOutcome::SingleJudgment { judgment_id, verdict, data_generation } =>
            "Recorded feedback for '"@ + skill_id + "': "@ + label_name(verdict) + " ("@
                + judgment_id@ + ", data generation: "@ + decimal(data_generation as nat)
                + ")\n"@,
    }
}

/// Say what recorded feedback came to.
pub fn render_feedback(outcome: &FeedbackOutcome, skill_id: &str) -> (r: String)
    ensures
        r@ == feedback_text(*outcome, skill_id@),
{
    match outcome {
        FeedbackOutcome::PairedCorrection {
            group_id,
            data_generation,
            original_judgment_id,
            alternative_judgment_id,
            alternative_skill_id,
        } => {
            let mut out: String = "Recorded paired correction (group: ".to_owned();
            out.append(group_id.as_str());
            out.append(", data generation: ");
            out.append(text::number(*data_generation).as_str());
            out.append(")\n  Original '");
            out.append(skill_id);
            out.append("' judged harmful (");
            out.append(original_judgment_id.as_str());
            out.append(")\n  Alternative '");
            out.append(alternative_skill_id.as_str());
            out.append("' judged useful (");
            out.append(alternative_judgment_id.as_str());
            out.append(")\n");
            out
        },
        FeedbackOutcome::ProspectiveProposal { proposal_id, alternative_skill_id, reason } => {
            let mut out: String = "Alternative '".to_owned();
            out.append(alternative_skill_id.as_str());
            out.append("' was historically absent from roster snapshot (");
            out.append(reason.as_str());
            out.append(").\nRecorded prospective library proposal: ");
            out.append(proposal_id.as_str());
            out.append("\nNo historical usefulness judgments committed.\n");
            out
        },
        FeedbackOutcome::SingleJudgment { judgment_id, verdict, data_generation } => {
            let mut out: String = "Recorded feedback for '".to_owned();
            out.append(skill_id);
            out.append("': ");
            match verdict {
                JudgmentLabel::Useful => out.append("Useful"),
                JudgmentLabel::Harmful => out.append("Harmful"),
                JudgmentLabel::Neutral => out.append("Neutral"),
            }
            out.append(" (");
            out.append(judgment_id.as_str());
            out.append(", data generation: ");
            out.append(text::number(*data_generation).as_str());
            out.append(")\n");
            out
        },
    }
}

/// What the feedback command answers: the failure of feedback that the ledger
/// refused, else the outcome as a document where one is asked for, else in
/// words.
pub open spec fn feedback_answer(
    outcome: Result<FeedbackOutcome, FeedbackError>,
    categories: FeedbackCategories,
    skill_id: Seq<char>,
    document: Option<Option<String>>,
) -> Result<Seq<char>, (u8, Seq<char>, Seq<char>)> {
    match outcome {
        Err(error) => Err(feedback_failure_view(error, categories)),
        Ok(outcome) => match document {
            Some(Some(document)) => Ok(document@ + "\n"@),
            Some(None) => Err((9u8, "serialization-failure"@, "Failed to serialize outcome"@)),
            None => Ok(feedback_text(outcome, skill_id)),
        },
    }
}

/// Answer the feedback command. `document` is the outcome in writing, where one
/// is asked for, and nothing within it where it could not be written.
pub fn finish_feedback(
    outcome: Result<FeedbackOutcome, FeedbackError>,
    categories: FeedbackCategories,
    skill_id: &str,
    document: Option<Option<String>>,
) -> (r: Result<String, Failure>)
    ensures
        answers(r, feedback_answer(outcome, categories, skill_id@, document)),
{
    match outcome {
        Err(error) => Err(feedback_failure(error, categories)),
        Ok(outcome) => match document {
            Some(Some(document)) => {
                let mut out: String = document;
                out.append("\n");
                Ok(out)
            },
            Some(None) => Err(
                failure(9, "serialization-failure", "Failed to serialize outcome"),
            ),
            None => Ok(render_feedback(&outcome, skill_id)),
        },
    }
}

/// The verdicts that a person may give, in any case and with underscores for
/// hyphens: praise is recorded as useful, blame as harmful, and neither as
/// neutral. Nothing else is a verdict.
pub proof fn lemma_verdicts_keep_their_sense(verdict: Seq<char>)
    ensures
        spells(verdict, "useful"@) <==> verdict_label(verdict) == Some(JudgmentLabel::Useful),
        spells(verdict, "harmful"@) || spells(verdict, "not-useful"@) <==> verdict_label(verdict)
            == Some(JudgmentLabel::Harmful),
        spells(verdict, "neutral"@) || spells(verdict, "unknown"@) <==> verdict_label(verdict)
            == Some(JudgmentLabel::Neutral),
{
    reveal_strlit("useful");
    reveal_strlit("harmful");
    reveal_strlit("not-useful");
    reveal_strlit("neutral");
    reveal_strlit("unknown");
    lemma_hyphenated_spells(verdict, "useful"@);
    lemma_hyphenated_spells(verdict, "harmful"@);
    lemma_hyphenated_spells(verdict, "not-useful"@);
    lemma_hyphenated_spells(verdict, "neutral"@);
    lemma_hyphenated_spells(verdict, "unknown"@);
    assert("useful"@.len() == 6 && "harmful"@.len() == 7 && "not-useful"@.len() == 10);
    assert("neutral"@[0] == 'n' && "unknown"@[0] == 'u' && "harmful"@[0] == 'h');
}

/// Two verdicts that differ in case and in underscores for hyphens alone are one
/// verdict.
pub proof fn lemma_verdicts_ignore_case(a: Seq<char>, b: Seq<char>, word: Seq<char>)
    requires
        spells(a, word),
        spells(b, word),
    ensures
        verdict_label(a) == verdict_label(b),
{
    lemma_hyphenated_spells(a, word);
    lemma_hyphenated_spells(b, word);
}

/// Feedback is accepted exactly where it names an event and a skill, gives
/// either an alternative or a verdict and not both, and every number and verdict
/// in it is one.
pub proof fn lemma_feedback_accepted(args: FeedbackArguments)
    ensures
        feedback_refusal(args) is None <==> {
            &&& args.event_id is Some || args.event is Some
            &&& args.skill is Some
            &&& args.instead is Some <==> args.verdict is None
            &&& args.expected_version is Some ==> numeral(args.expected_version->0@) is Some
                && numeral(args.expected_version->0@)->0 <= u32::MAX
            &&& args.verdict is Some ==> verdict_label(args.verdict->0@) is Some
        },
        feedback_refusal(args) is Some ==> (feedback_refusal(args)->0).0 == 2,
{
}

/// An accepted request holds what was given, each in its own place: the event
/// as it was given by position, else by flag, the skill that is judged, and the
/// alternative or the verdict on it.
pub proof fn lemma_feedback_request_holds_what_was_given(
    r: FeedbackRequest,
    args: FeedbackArguments,
)
    requires
        feedback_refusal(args) is None,
        requests(r, args),
    ensures
        args.event_id is Some ==> r.event_id@ == args.event_id->0@,
        args.event_id is None ==> r.event_id@ == args.event->0@,
        r.skill_id@ == args.skill->0@,
        args.instead is Some <==> r.subject is Paired,
        args.instead is Some ==> r.subject->alternative_skill_id@ == args.instead->0@,
        args.verdict is Some ==> r.subject is Single && verdict_label(args.verdict->0@) == Some(
            r.subject->verdict,
        ),
        r.reason_code is Some <==> args.reason is Some,
        args.reason is Some ==> r.reason_code->0@ == args.reason->0@,
        r.provenance is Some <==> args.provenance is Some,
        args.provenance is Some ==> r.provenance->0@ == args.provenance->0@,
        args.expected_version is Some ==> r.expected_version is Some
            && numeral(args.expected_version->0@) == Some(r.expected_version->0 as nat),
        args.expected_version is None ==> r.expected_version is None,
{
}

/// A judgment is reported under its own name, for the skill it was given for.
pub proof fn lemma_judgment_reported_by_name(
    judgment_id: String,
    verdict: JudgmentLabel,
    data_generation: u64,
    skill_id: Seq<char>,
)
    ensures
        ({
            let text = feedback_text(
                FeedbackOutcome::SingleJudgment { judgment_id, verdict, data_generation },
                skill_id,
            );
            let named = "Recorded feedback for '"@ + skill_id + "': "@;
            let mark = " ("@ + judgment_id@ + ", data generation: "@ + decimal(
                data_generation as nat,
            ) + ")"@;
            &&& verdict is Useful ==> occurs(text, named + "Useful"@ + mark)
            &&& verdict is Harmful ==> occurs(text, named + "Harmful"@ + mark)
            &&& verdict is Neutral ==> occurs(text, named + "Neutral"@ + mark)
        }),
{
    reveal_strlit(")\n");
    reveal_strlit(")");
    reveal_strlit("\n");
    let text = feedback_text(
        FeedbackOutcome::SingleJudgment { judgment_id, verdict, data_generation },
        skill_id,
    );
    let name = match verdict {
        JudgmentLabel::Useful => "Useful"@,
        JudgmentLabel::Harmful => "Harmful"@,
        JudgmentLabel::Neutral => "Neutral"@,
    };
    let part = "Recorded feedback for '"@ + skill_id + "': "@ + name + (" ("@ + judgment_id@
        + ", data generation: "@ + decimal(data_generation as nat) + ")"@);
    assert(")\n"@ =~= ")"@ + "\n"@);
    assert(text =~= part + "\n"@);
    lemma_occurs_between(Seq::empty(), part, "\n"@);
}

/// A paired correction says of the original skill that it was judged harmful,
/// and of the alternative that it was judged useful, each with its own judgment.
pub proof fn lemma_correction_names_both_sides(
    group_id: String,
    data_generation: u64,
    original_judgment_id: String,
    alternative_judgment_id: String,
    alternative_skill_id: String,
    skill_id: Seq<char>,
)
    ensures
        ({
            let text = feedback_text(
                FeedbackOutcome::PairedCorrection {
                    group_id,
                    data_generation,
                    original_judgment_id,
                    alternative_judgment_id,
                    alternative_skill_id,
                },
                skill_id,
            );
            &&& occurs(text, "(group: "@ + group_id@ + ", data generation: "@)
            &&& occurs(
                text,
                "'"@ + skill_id + "' judged harmful ("@ + original_judgment_id@ + ")"@,
            )
            &&& occurs(
                text,
                "'"@ + alternative_skill_id@ + "' judged useful ("@ + alternative_judgment_id@
                    + ")"@,
            )
        }),
{
    reveal_strlit("Recorded paired correction (group: ");
    reveal_strlit("(group: ");
    reveal_strlit("Recorded paired correction ");
    reveal_strlit(")\n  Original '");
    reveal_strlit(")\n  Original ");
    reveal_strlit(")\n  Alternative '");
    reveal_strlit(")\n  Alternative ");
    reveal_strlit("\n  Alternative '");
    reveal_strlit("'");
    reveal_strlit(")");
    reveal_strlit(")\n");
    reveal_strlit("\n");
    let generation = decimal(data_generation as nat);
    let text = feedback_text(
        FeedbackOutcome::PairedCorrection {
            group_id,
            data_generation,
            original_judgment_id,
            alternative_judgment_id,
            alternative_skill_id,
        },
        skill_id,
    );
    let group = "(group: "@ + group_id@ + ", data generation: "@;
    let original = "'"@ + skill_id + "' judged harmful ("@ + original_judgment_id@ + ")"@;
    let alternative = "'"@ + alternative_skill_id@ + "' judged useful ("@
        + alternative_judgment_id@ + ")"@;
    let head = "Recorded paired correction "@ + group + generation + ")\n  Original "@;
    let tail = "\n  Alternative "@ + alternative + "\n"@;
    assert(text =~= head + original + tail) by {
        reveal_strlit("\n  Alternative ");
    }
    lemma_occurs_between("Recorded paired correction "@, group, generation + ")\n  Original "@);
    assert(head =~= "Recorded paired correction "@ + group + (generation + ")\n  Original "@));
    lemma_occurs_in_longer(Seq::empty(), head, original);
    lemma_occurs_in_longer(Seq::empty(), head + original, tail);
    lemma_occurs_between(head, original, tail);
    lemma_occurs_between("\n  Alternative "@, alternative, "\n"@);
    lemma_occurs_in_longer(head + original, tail, Seq::empty());
}

/// A refusal of the ledger names what was refused: the numbers of a conflict in
/// their order, and the skill or the event that was not found.
pub proof fn lemma_feedback_refusals_name_their_cause(
    expected: u64,
    actual: u64,
    id: String,
    categories: FeedbackCategories,
)
    ensures
        ({
            let conflict = feedback_failure_view(
                FeedbackError::RevisionConflict { expected, actual },
                categories,
            );
            let skill = feedback_failure_view(FeedbackError::OriginalSkillNotFound(id), categories);
            let event = feedback_failure_view(FeedbackError::EventNotFound(id), categories);
            &&& conflict.0 == categories.revision_conflict.code
            &&& conflict.1 == categories.revision_conflict.name@
            &&& occurs(
                conflict.2,
                "expected "@ + decimal(expected as nat) + ", actual "@ + decimal(actual as nat),
            )
            &&& skill.0 == 2 && event.0 == 2
            &&& occurs(skill.2, "skill '"@ + id@ + "' not found"@)
            &&& occurs(event.2, "event '"@ + id@ + "' not found"@)
        }),
{
    reveal_strlit("Ledger revision conflict: expected ");
    reveal_strlit("Ledger revision conflict: ");
    reveal_strlit("expected ");
    let numbers = "expected "@ + decimal(expected as nat) + ", actual "@ + decimal(actual as nat);
    assert(feedback_failure_view(
        FeedbackError::RevisionConflict { expected, actual },
        categories,
    ).2 =~= "Ledger revision conflict: "@ + numbers);
    lemma_occurs_between("Ledger revision conflict: "@, numbers, Seq::empty());
    reveal_strlit("Original skill '");
    reveal_strlit("Original ");
    reveal_strlit("skill '");
    reveal_strlit("' not found in event or roster snapshot");
    reveal_strlit("' not found");
    reveal_strlit(" in event or roster snapshot");
    let skill = "skill '"@ + id@ + "' not found"@;
    assert(feedback_failure_view(FeedbackError::OriginalSkillNotFound(id), categories).2
        =~= "Original "@ + skill + " in event or roster snapshot"@);
    lemma_occurs_between("Original "@, skill, " in event or roster snapshot"@);
    reveal_strlit("Ranking event '");
    reveal_strlit("Ranking ");
    reveal_strlit("event '");
    reveal_strlit("' not found in ledger");
    reveal_strlit(" in ledger");
    let event = "event '"@ + id@ + "' not found"@;
    assert(feedback_failure_view(FeedbackError::EventNotFound(id), categories).2 =~= "Ranking "@
        + event + " in ledger"@);
    lemma_occurs_between("Ranking "@, event, " in ledger"@);
}

} // verus!
