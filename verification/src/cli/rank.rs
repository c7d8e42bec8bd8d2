//! Ranking once: what its arguments and its document come to.

use crate::cli::config::{
    cache_root_of, cli_layer, cli_sources, config_root_of, environment_sources,
    recognized_variable, setting_views, user_cache_root, user_config_root, CliArgument,
    ConfigSources, EnvPath, UserRoot,
};
use crate::cli::failure::{
    failure_view, finish_invocation, invalid, late_refusal, refuses, timely,
    validate_rank_completion, Decision, Failure, OutputKind,
};
use crate::json;
use crate::json::{json_of, json_text, Json};
use crate::text;
use nix::sys::stat::SFlag;
use serde_json::Value;
use vstd::prelude::*;
use vstd::string::*;

verus! {

/// An argument that names a skill or a place in a trace.
#[derive(Clone, Copy, Debug, PartialEq, Eq, Structural)]
pub enum RankArgument {
    Harness,
    RequireSkill,
    ShortlistId,
    WhyNot,
    Cursor,
}

/// What an argument that cannot be read says.
pub open spec fn argument_refusal(argument: RankArgument, given: Seq<char>) -> (
    u8,
    Seq<char>,
    Seq<char>,
) {
    match argument {
        RankArgument::Harness => (2u8, "invalid-configuration"@, "Invalid harness ID"@),
        RankArgument::RequireSkill => (
            5u8,
            "unresolved-explicit"@,
            "Invalid skill ID: "@ + given,
        ),
        RankArgument::ShortlistId => (
            2u8,
            "invalid-configuration"@,
            "Invalid skill ID for --shortlist-ids"@,
        ),
        RankArgument::WhyNot => (
            2u8,
            "invalid-usage"@,
            "Invalid skill ID for --why-not: "@ + given,
        ),
        RankArgument::Cursor => (2u8, "invalid-usage"@, "Invalid trace cursor token: "@ + given),
    }
}

/// The failure of an argument that cannot be read.
pub fn argument_failure(argument: RankArgument, given: &str) -> (r: Failure)
    ensures
        failure_view(r) == argument_refusal(argument, given@),
{
    match argument {
        RankArgument::Harness => invalid("Invalid harness ID"),
        RankArgument::RequireSkill => {
            let mut message: String = "Invalid skill ID: ".to_owned();
            message.append(given);
            (5, "unresolved-explicit", message)
        },
        RankArgument::ShortlistId => invalid("Invalid skill ID for --shortlist-ids"),
        RankArgument::WhyNot => {
            let mut message: String = "Invalid skill ID for --why-not: ".to_owned();
            message.append(given);
            (2, "invalid-usage", message)
        },
        RankArgument::Cursor => {
            let mut message: String = "Invalid trace cursor token: ".to_owned();
            message.append(given);
            (2, "invalid-usage", message)
        },
    }
}

/// The document of a decision, or the local one a preview holds.
pub open spec fn decision_of(document: Json) -> Json {
    if document.has("local_decision"@) {
        document.member("local_decision"@)
    } else {
        document
    }
}

/// Whether a list holds a name.
pub open spec fn known_name(known: Seq<&'static str>, name: Seq<char>) -> bool {
    exists|i: int| 0 <= i < known.len() && (#[trigger] known[i])@ == name
}

/// The error kind of an unavailable decision, where it is a known one.
pub open spec fn unavailable_kind(document: Json, known: Seq<&'static str>) -> Seq<char> {
    match decision_of(document).member("error"@).member("kind"@).text() {
        Some(kind) => if known_name(known, kind) {
            kind
        } else {
            "unavailable"@
        },
        None => "unavailable"@,
    }
}

/// What an unavailable decision says: the whole document in JSON, else the
/// message of its error.
pub open spec fn unavailable_message(document: Json, as_json: bool) -> Seq<char> {
    if as_json {
        json_text(document)
    } else {
        match decision_of(document).member("error"@).member("message"@).text() {
            Some(message) => message,
            None => "Unavailable"@,
        }
    }
}

fn find_known(known: &Vec<&'static str>, name: &str) -> (r: Option<&'static str>)
    ensures
        r is Some <==> known_name(known@, name@),
        r is Some ==> r->0@ == name@,
{
    let mut i: usize = 0;
    while i < known.len()
        invariant
            i <= known@.len(),
            forall|j: int| 0 <= j < i ==> (#[trigger] known@[j])@ != name@,
        decreases known@.len() - i,
    {
        let candidate: &'static str = known[i];
        if text::eq(candidate, name) {
            assert(known@[i as int]@ == name@);
            return Some(candidate);
        }
        i = i + 1;
    }
    None
}

/// The failure of an unavailable decision, or of a preview of one: it exits
/// with its error category, and its whole document is still the JSON output.
pub fn unavailable_failure(
    document: &Value,
    code: u8,
    known: &Vec<&'static str>,
    as_json: bool,
) -> (r: Failure)
    ensures
        failure_view(r) == (
            code,
            unavailable_kind(json_of(*document), known@),
            unavailable_message(json_of(*document), as_json),
        ),
{
    let decision: &Value = match json::get(document, "local_decision") {
        Some(local) => local,
        None => document,
    };
    let error: Option<&Value> = json::get(decision, "error");
    let given: Option<&str> = match error {
        Some(error) => json::member_text(error, "kind"),
        None => None,
    };
    let kind: &'static str = match given {
        Some(given) => match find_known(known, given) {
            Some(kind) => kind,
            None => "unavailable",
        },
        None => "unavailable",
    };
    if as_json {
        return (code, kind, json::to_text(document));
    }
    let message: Option<&str> = match error {
        Some(error) => json::member_text(error, "message"),
        None => None,
    };
    match message {
        Some(message) => (code, kind, message.to_owned()),
        None => (code, kind, "Unavailable".to_owned()),
    }
}

/// The file types that standard input may have.
#[derive(Clone, Copy, Debug, PartialEq, Eq, Structural)]
pub enum InputType {
    Fifo,
    Socket,
    Regular,
}

/// The bits of a file type in a mode, as POSIX systems number them.
pub open spec fn type_bits(kind: InputType) -> u32 {
    match kind {
        InputType::Fifo => 0x1000,
        InputType::Socket => 0xc000,
        InputType::Regular => 0x8000,
    }
}

/// `SFlag::from_bits_truncate` and `contains`: claimed to be true exactly where
/// the mode has every bit of the file type.
#[verifier::external_body]
fn mode_contains(mode: u32, kind: InputType) -> (r: bool)
    ensures
        r == (mode & type_bits(kind) == type_bits(kind)),
{
    SFlag::from_bits_truncate(mode).contains(match kind {
        InputType::Fifo => SFlag::S_IFIFO,
        InputType::Socket => SFlag::S_IFSOCK,
        InputType::Regular => SFlag::S_IFREG,
    })
}

/// Whether an input of a mode was supplied rather than typed.
pub open spec fn supplied(terminal: bool, mode: Option<u32>) -> bool {
    !terminal && mode is Some && (mode->0 & 0x1000 == 0x1000 || mode->0 & 0x8000 == 0x8000)
}

/// Whether input is supplied on the standard input: it is no terminal, and a
/// pipe, a socket or a regular file. Without a mode nothing is known of it.
pub fn stdin_supplied(terminal: bool, mode: Option<u32>) -> (r: bool)
    ensures
        r == supplied(terminal, mode),
{
    if terminal {
        return false;
    }
    match mode {
        Some(mode) => {
            proof {
                assert(mode & 0xc000 == 0xc000 ==> mode & 0x8000 == 0x8000) by (bit_vector);
            }
            mode_contains(mode, InputType::Fifo) || mode_contains(mode, InputType::Socket)
                || mode_contains(mode, InputType::Regular)
        },
        None => false,
    }
}

/// The deadline of a ranking: the configured one, else the default. An invalid
/// configuration keeps the default; the pipeline's own load reports it.
pub fn ranking_timeout(configured: Option<u64>, default_ms: u64) -> (r: u64)
    ensures
        r == match configured {
            Some(ms) => ms,
            None => default_ms,
        },
{
    match configured {
        Some(ms) => ms,
        None => default_ms,
    }
}

/// An identifier that was given, and whether it is a valid one.
#[derive(Clone, Debug, PartialEq, Eq)]
pub struct GivenId {
    pub text: String,
    pub valid: bool,
}

/// What an invocation finds around it: whether work is admitted, the first
/// conflict among its effect flags, the settings of its command line and its
/// environment, and the directories it can use.
#[derive(Clone, Debug, PartialEq, Eq)]
pub struct Surroundings {
    pub admits_work: bool,
    pub flag_conflict: Option<String>,
    pub settings: Vec<CliArgument>,
    pub variables: Vec<(Vec<u8>, Vec<u8>)>,
    pub max_variables: usize,
    pub has_workspace: bool,
    pub xdg_config: EnvPath,
    pub home: EnvPath,
    pub xdg_cache: EnvPath,
    pub platform_cache: bool,
}

/// What stops an invocation before its own arguments are read, in the order it
/// is looked at.
pub open spec fn surroundings_refusal(around: Surroundings) -> Option<(u8, Seq<char>, Seq<char>)> {
    let bad = |message: Seq<char>| Some((2u8, "invalid-configuration"@, message));
    if !around.admits_work {
        Some(late_refusal())
    } else if around.flag_conflict is Some {
        Some((2u8, "invalid-usage"@, around.flag_conflict->0@))
    } else if cli_layer(around.settings@) is Err {
        bad(cli_layer(around.settings@)->Err_0)
    } else if around.variables@.filter(recognized_variable()).len() > around.max_variables {
        bad("Too many environment settings"@)
    } else if !around.has_workspace {
        bad("Workspace is unavailable"@)
    } else if config_root_of(around.xdg_config, around.home) is Err {
        bad(config_root_of(around.xdg_config, around.home)->Err_0)
    } else if cache_root_of(around.xdg_cache, around.platform_cache) is Err {
        bad(cache_root_of(around.xdg_cache, around.platform_cache)->Err_0)
    } else {
        None
    }
}

/// The layers an invocation was given and the directories it reads and writes.
#[derive(Clone, Debug, PartialEq, Eq)]
pub struct Prepared {
    pub sources: ConfigSources,
    pub config_root: UserRoot,
    pub cache_root: UserRoot,
}

/// Gather what an invocation finds around it.
pub fn prepare(around: Surroundings) -> (r: Result<Prepared, Failure>)
    ensures
        refuses(r, surroundings_refusal(around)),
        r is Ok ==> {
            let sources = r->Ok_0.sources;
            &&& setting_views(sources.cli@) == cli_layer(around.settings@)->Ok_0
            &&& sources.environment@ == around.variables@.filter(recognized_variable())
            &&& sources.trusted_user@.len() == 0
            &&& sources.project@.len() == 0
            &&& r->Ok_0.config_root == config_root_of(around.xdg_config, around.home)->Ok_0
            &&& r->Ok_0.cache_root == cache_root_of(around.xdg_cache, around.platform_cache)->Ok_0
        },
{
    match timely(around.admits_work) {
        Ok(_) => {},
        Err(f) => return Err(f),
    }
    if let Some(conflict) = around.flag_conflict {
        return Err((2, "invalid-usage", conflict));
    }
    let mut sources: ConfigSources = ConfigSources::empty();
    sources.cli = match cli_sources(&around.settings) {
        Ok(list) => list,
        Err(f) => return Err(f),
    };
    sources.environment = match environment_sources(around.variables, around.max_variables) {
        Ok(list) => list,
        Err(f) => return Err(f),
    };
    if !around.has_workspace {
        return Err(invalid("Workspace is unavailable"));
    }
    let config_root: UserRoot = match user_config_root(around.xdg_config, around.home) {
        Ok(root) => root,
        Err(f) => return Err(f),
    };
    let cache_root: UserRoot = match user_cache_root(around.xdg_cache, around.platform_cache) {
        Ok(root) => root,
        Err(f) => return Err(f),
    };
    Ok(Prepared { sources, config_root, cache_root })
}

/// The arguments of a ranking that name something.
#[derive(Clone, Debug, PartialEq, Eq)]
pub struct RankNames {
    pub harness: Option<GivenId>,
    pub require_skills: Vec<GivenId>,
    pub shortlist_ids: Vec<GivenId>,
    pub why_not: Option<GivenId>,
    pub cursor: Option<GivenId>,
}

/// The first identifier of a list that is not valid.
pub open spec fn first_invalid(list: Seq<GivenId>) -> Option<Seq<char>>
    decreases list.len(),
{
    if list.len() == 0 {
        None
    } else if !list[0].valid {
        Some(list[0].text@)
    } else {
        first_invalid(list.drop_first())
    }
}

/// The identifier, where it is not valid.
pub open spec fn one_invalid(given: Option<GivenId>) -> Option<Seq<char>> {
    match given {
        Some(id) => if id.valid {
            None
        } else {
            Some(id.text@)
        },
        None => None,
    }
}

/// What stops a ranking whose arguments are read: the first that names nothing.
pub open spec fn names_refusal(names: RankNames) -> Option<(u8, Seq<char>, Seq<char>)> {
    if one_invalid(names.harness) is Some {
        Some(argument_refusal(RankArgument::Harness, one_invalid(names.harness)->0))
    } else if first_invalid(names.require_skills@) is Some {
        Some(
            argument_refusal(
                RankArgument::RequireSkill,
                first_invalid(names.require_skills@)->0,
            ),
        )
    } else if first_invalid(names.shortlist_ids@) is Some {
        Some(
            argument_refusal(RankArgument::ShortlistId, first_invalid(names.shortlist_ids@)->0),
        )
    } else if one_invalid(names.why_not) is Some {
        Some(argument_refusal(RankArgument::WhyNot, one_invalid(names.why_not)->0))
    } else if one_invalid(names.cursor) is Some {
        Some(argument_refusal(RankArgument::Cursor, one_invalid(names.cursor)->0))
    } else {
        None
    }
}

fn check_one(argument: RankArgument, given: &Option<GivenId>) -> (r: Result<(), Failure>)
    ensures
        refuses(
            r,
            match one_invalid(*given) {
                Some(text) => Some(argument_refusal(argument, text)),
                None => None,
            },
        ),
{
    match given {
        Some(id) => if id.valid {
            Ok(())
        } else {
            Err(argument_failure(argument, id.text.as_str()))
        },
        None => Ok(()),
    }
}

fn check_all(argument: RankArgument, list: &Vec<GivenId>) -> (r: Result<(), Failure>)
    ensures
        refuses(
            r,
            match first_invalid(list@) {
                Some(text) => Some(argument_refusal(argument, text)),
                None => None,
            },
        ),
{
    let mut i: usize = 0;
    assert(list@.skip(0) =~= list@);
    while i < list.len()
        invariant
            i <= list@.len(),
            first_invalid(list@) == first_invalid(list@.skip(i as int)),
        decreases list@.len() - i,
    {
        assert(list@.skip(i as int).drop_first() =~= list@.skip(i + 1));
        if !list[i].valid {
            return Err(argument_failure(argument, list[i].text.as_str()));
        }
        i = i + 1;
    }
    Ok(())
}

/// Read the arguments of a ranking that name something.
pub fn check_names(names: &RankNames) -> (r: Result<(), Failure>)
    ensures
        refuses(r, names_refusal(*names)),
{
    match check_one(RankArgument::Harness, &names.harness) {
        Ok(_) => {},
        Err(f) => return Err(f),
    }
    match check_all(RankArgument::RequireSkill, &names.require_skills) {
        Ok(_) => {},
        Err(f) => return Err(f),
    }
    match check_all(RankArgument::ShortlistId, &names.shortlist_ids) {
        Ok(_) => {},
        Err(f) => return Err(f),
    }
    match check_one(RankArgument::WhyNot, &names.why_not) {
        Ok(_) => {},
        Err(f) => return Err(f),
    }
    check_one(RankArgument::Cursor, &names.cursor)
}

/// Prepare a ranking: what is around it first, then what its arguments name.
pub fn prepare_rank(around: Surroundings, names: &RankNames) -> (r: Result<Prepared, Failure>)
    ensures
        refuses(
            r,
            match surroundings_refusal(around) {
                Some(refusal) => Some(refusal),
                None => names_refusal(*names),
            },
        ),
        r is Ok ==> {
            let sources = r->Ok_0.sources;
            &&& setting_views(sources.cli@) == cli_layer(around.settings@)->Ok_0
            &&& sources.environment@ == around.variables@.filter(recognized_variable())
            &&& sources.trusted_user@.len() == 0
            &&& sources.project@.len() == 0
            &&& r->Ok_0.config_root == config_root_of(around.xdg_config, around.home)->Ok_0
            &&& r->Ok_0.cache_root == cache_root_of(around.xdg_cache, around.platform_cache)->Ok_0
        },
{
    let prepared: Prepared = match prepare(around) {
        Ok(prepared) => prepared,
        Err(f) => return Err(f),
    };
    match check_names(names) {
        Ok(_) => Ok(prepared),
        Err(f) => Err(f),
    }
}

/// Whether a deadline can be used: it lies within its bound and the clock takes
/// it.
pub fn usable_deadline(accepted: bool, admits_work: bool) -> (r: Result<(), Failure>)
    ensures
        refuses(
            r,
            if !accepted {
                Some((2u8, "invalid-configuration"@, "Invalid ranking deadline"@))
            } else if !admits_work {
                Some(late_refusal())
            } else {
                None
            },
        ),
{
    if accepted {
        timely(admits_work)
    } else {
        Err(invalid("Invalid ranking deadline"))
    }
}

/// The document of a ranking: what it is, its exit code, its JSON value and its
/// table.
pub struct RankDocument {
    pub kind: OutputKind,
    pub code: u8,
    pub value: Value,
    pub table: String,
}

/// How the runtime of a ranking ended: whether it shut down, when that was and
/// when the invocation expires, and whether the work was done before its
/// cutoff.
#[derive(Clone, Copy, Debug, PartialEq, Eq, Structural)]
pub struct RankEnding {
    pub shut_down: bool,
    pub now_ms: u64,
    pub expires_ms: u64,
    pub completed_in_time: bool,
}

/// What stops the document of a ranking from being printed.
pub open spec fn rank_refusal(
    ending: RankEnding,
    outcome: Result<RankDocument, Failure>,
    known: Seq<&'static str>,
    as_json: bool,
) -> Option<(u8, Seq<char>, Seq<char>)> {
    if !(ending.shut_down && ending.now_ms < ending.expires_ms) {
        Some(
            (
                6u8,
                "timeout"@,
                "Runtime cleanup did not finish within the invocation deadline"@,
            ),
        )
    } else {
        match outcome {
            Err(f) => Some(failure_view(f)),
            Ok(document) => if !ending.completed_in_time && document.kind != OutputKind::Decision(
                Decision::Unavailable,
            ) {
                Some(late_refusal())
            } else if document.code != 0 {
                Some(
                    (
                        document.code,
                        unavailable_kind(json_of(document.value), known),
                        unavailable_message(json_of(document.value), as_json),
                    ),
                )
            } else {
                None
            },
        }
    }
}

/// What is printed of a ranking.
pub open spec fn rank_text(document: RankDocument, as_json: bool) -> Seq<char> {
    if as_json {
        json_text(json_of(document.value)) + "\n"@
    } else {
        document.table@
    }
}

/// Print the document of a ranking. Work must be done before its cutoff, but
/// its teardown may use the reserved cleanup window.
pub fn finish_rank(
    ending: RankEnding,
    outcome: Result<RankDocument, Failure>,
    known: &Vec<&'static str>,
    as_json: bool,
) -> (r: Result<String, Failure>)
    ensures
        refuses(r, rank_refusal(ending, outcome, known@, as_json)),
        r is Ok ==> r->Ok_0@ == rank_text(outcome->Ok_0, as_json),
{
    let finished: Result<RankDocument, Failure> = finish_invocation(
        ending.shut_down,
        ending.now_ms,
        ending.expires_ms,
        outcome,
    );
    let document: RankDocument = match finished {
        Ok(document) => document,
        Err(f) => return Err(f),
    };
    match validate_rank_completion(timely(ending.completed_in_time), document.kind) {
        Ok(_) => {},
        Err(f) => return Err(f),
    }
    if document.code != 0 {
        return Err(unavailable_failure(&document.value, document.code, known, as_json));
    }
    if as_json {
        Ok(json::line_of(&document.value))
    } else {
        Ok(document.table)
    }
}

/// A list is valid exactly where every identity in it is, and else the first that
/// is not is named.
pub proof fn lemma_first_invalid_is_named(list: Seq<GivenId>, i: int)
    requires
        0 <= i <= list.len(),
        forall|j: int| 0 <= j < i ==> (#[trigger] list[j]).valid,
    ensures
        i == list.len() ==> first_invalid(list) is None,
        i < list.len() && !list[i].valid ==> first_invalid(list) == Some(list[i].text@),
    decreases list.len(),
{
    if i > 0 {
        let rest = list.drop_first();
        assert forall|j: int| 0 <= j < i - 1 implies (#[trigger] rest[j]).valid by {
            assert(rest[j] == list[j + 1]);
        }
        assert(list[0].valid);
        lemma_first_invalid_is_named(rest, i - 1);
        if i < list.len() {
            assert(rest[i - 1] == list[i]);
        }
    }
}

/// The names of a ranking are refused exactly where one of them is invalid. A
/// required skill that is none is unresolved; any other bad name is wrong usage or
/// configuration, and what was given is said of it.
pub proof fn lemma_invalid_names_are_refused(names: RankNames)
    ensures
        names_refusal(names) is None <==> {
            &&& names.harness is Some ==> names.harness->0.valid
            &&& forall|i: int|
                0 <= i < names.require_skills@.len() ==> (#[trigger] names.require_skills@[i]).valid
            &&& forall|i: int|
                0 <= i < names.shortlist_ids@.len() ==> (#[trigger] names.shortlist_ids@[i]).valid
            &&& names.why_not is Some ==> names.why_not->0.valid
            &&& names.cursor is Some ==> names.cursor->0.valid
        },
        names_refusal(names) is Some ==> (names_refusal(names)->0).0 == if (names.harness is None
            || names.harness->0.valid) && first_invalid(names.require_skills@) is Some {
            5u8
        } else {
            2
        },
{
    lemma_valid_list(names.require_skills@);
    lemma_valid_list(names.shortlist_ids@);
}

proof fn lemma_valid_list(list: Seq<GivenId>)
    ensures
        first_invalid(list) is None <==> forall|i: int|
            0 <= i < list.len() ==> (#[trigger] list[i]).valid,
    decreases list.len(),
{
    if list.len() > 0 {
        let rest = list.drop_first();
        lemma_valid_list(rest);
        if list[0].valid && first_invalid(rest) is None {
            assert forall|i: int| 0 <= i < list.len() implies (#[trigger] list[i]).valid by {
                if i > 0 {
                    assert(rest[i - 1] == list[i]);
                }
            }
        }
        if forall|i: int| 0 <= i < list.len() ==> (#[trigger] list[i]).valid {
            assert forall|i: int| 0 <= i < rest.len() implies (#[trigger] rest[i]).valid by {
                assert(rest[i] == list[i + 1]);
            }
            assert(list[0].valid);
        }
    }
}

/// What is wrong with an argument is said of that argument, with what was given
/// where it is quoted.
pub proof fn lemma_bad_arguments_are_told_apart(given: Seq<char>)
    ensures
        argument_refusal(RankArgument::RequireSkill, given) == (
            5u8,
            "unresolved-explicit"@,
            "Invalid skill ID: "@ + given,
        ),
        argument_refusal(RankArgument::WhyNot, given).0 == 2 && argument_refusal(
            RankArgument::WhyNot,
            given,
        ).2 == "Invalid skill ID for --why-not: "@ + given,
        argument_refusal(RankArgument::Cursor, given).0 == 2 && argument_refusal(
            RankArgument::Cursor,
            given,
        ).2 == "Invalid trace cursor token: "@ + given,
        argument_refusal(RankArgument::Harness, given).0 == 2,
        argument_refusal(RankArgument::Harness, given).2 == "Invalid harness ID"@,
        argument_refusal(RankArgument::ShortlistId, given).0 == 2,
        argument_refusal(RankArgument::ShortlistId, given).2
            == "Invalid skill ID for --shortlist-ids"@,
{
}

/// A ranking is printed exactly where its runtime shut down before the deadline,
/// it succeeded with no code of failure, and its work was in time. A late one is a
/// timeout, unless it only says that it is unavailable.
pub proof fn lemma_what_a_ranking_prints(
    ending: RankEnding,
    outcome: Result<RankDocument, Failure>,
    known: Seq<&'static str>,
    as_json: bool,
)
    ensures
        ({
            let refusal = rank_refusal(ending, outcome, known, as_json);
            let closed = ending.shut_down && ending.now_ms < ending.expires_ms;
            let unavailable = outcome is Ok && outcome->Ok_0.kind is Decision
                && outcome->Ok_0.kind->Decision_0 is Unavailable;
            &&& refusal is None <==> closed && outcome is Ok && outcome->Ok_0.code == 0 && (
            ending.completed_in_time || unavailable)
            &&& !closed ==> (refusal->0).0 == 6 && (refusal->0).1 == "timeout"@
            &&& closed && outcome is Err ==> refusal == Some(
                (outcome->Err_0.0, outcome->Err_0.1@, outcome->Err_0.2@),
            )
            &&& closed && outcome is Ok && !ending.completed_in_time && !unavailable ==> (
            refusal->0).0 == 6
            &&& closed && outcome is Ok && outcome->Ok_0.code != 0 && (ending.completed_in_time
                || unavailable) ==> (refusal->0).0 == outcome->Ok_0.code
        }),
{
}

/// A decision that is unavailable fails under the kind it gives, where that is a
/// known one, and with the message it gives. A local decision speaks before the
/// document that holds it.
pub proof fn lemma_unavailable_decisions_say_why(
    document: Json,
    known: Seq<&'static str>,
    i: int,
)
    ensures
        ({
            let decision = if document.has("local_decision"@) {
                document.member("local_decision"@)
            } else {
                document
            };
            let kind = decision.member("error"@).member("kind"@).text();
            let message = decision.member("error"@).member("message"@).text();
            &&& 0 <= i < known.len() && kind == Some(known[i]@) ==> unavailable_kind(
                document,
                known,
            ) == known[i]@
            &&& kind is None ==> unavailable_kind(document, known) == "unavailable"@
            &&& known.len() == 0 ==> unavailable_kind(document, known) == "unavailable"@
            &&& message is Some ==> unavailable_message(document, false) == message->0
            &&& message is None ==> unavailable_message(document, false) == "Unavailable"@
            &&& unavailable_message(document, true) == json_text(document)
        }),
{
    let decision = decision_of(document);
    let kind = decision.member("error"@).member("kind"@).text();
    if 0 <= i < known.len() && kind == Some(known[i]@) {
        assert(known_name(known, known[i]@));
    }
}

/// A ranking goes ahead exactly where there is time for it, no flags contradict
/// each other, its settings can be read and are not too many, it has a workspace,
/// and its directories are known.
pub proof fn lemma_surroundings_of_a_ranking(around: Surroundings)
    ensures
        surroundings_refusal(around) is None <==> {
            &&& around.admits_work
            &&& around.flag_conflict is None
            &&& cli_layer(around.settings@) is Ok
            &&& around.variables@.filter(recognized_variable()).len() <= around.max_variables
            &&& around.has_workspace
            &&& config_root_of(around.xdg_config, around.home) is Ok
            &&& cache_root_of(around.xdg_cache, around.platform_cache) is Ok
        },
        !around.admits_work ==> (surroundings_refusal(around)->0).0 == 6,
        around.admits_work && surroundings_refusal(around) is Some ==> (surroundings_refusal(
            around,
        )->0).0 == 2,
        around.admits_work && around.flag_conflict is Some ==> (surroundings_refusal(around)->0).2
            == around.flag_conflict->0@,
{
}

/// A ranking is printed as a document and a line break where one is asked for, and as
/// its table else.
pub proof fn lemma_how_a_ranking_is_printed(document: RankDocument)
    ensures
        rank_text(document, true) == json_text(json_of(document.value)) + "\n"@,
        rank_text(document, false) == document.table@,
{
}

/// A terminal supplies no input, and neither does what cannot be looked at. A pipe, a
/// socket and a file do; a device that is read by the character does not.
pub proof fn lemma_what_supplies_input(terminal: bool, mode: u32)
    ensures
        !supplied(true, Some(mode)) && !supplied(terminal, None),
        mode & 0xf000 == 0x1000 ==> supplied(false, Some(mode)),
        mode & 0xf000 == 0xc000 ==> supplied(false, Some(mode)),
        mode & 0xf000 == 0x8000 ==> supplied(false, Some(mode)),
        mode & 0xf000 == 0x2000 ==> !supplied(false, Some(mode)),
        mode & 0xf000 == 0x4000 ==> !supplied(false, Some(mode)),
{
    assert(mode & 0xf000 == 0x1000 ==> mode & 0x1000 == 0x1000) by (bit_vector);
    assert(mode & 0xf000 == 0xc000 ==> mode & 0x8000 == 0x8000) by (bit_vector);
    assert(mode & 0xf000 == 0x8000 ==> mode & 0x8000 == 0x8000) by (bit_vector);
    assert(mode & 0xf000 == 0x2000 ==> mode & 0x1000 != 0x1000 && mode & 0x8000 != 0x8000)
        by (bit_vector);
    assert(mode & 0xf000 == 0x4000 ==> mode & 0x1000 != 0x1000 && mode & 0x8000 != 0x8000)
        by (bit_vector);
}

} // verus!
