//! From parsed arguments to the command they ask for.

use crate::cli::failure::{answers, failure, failure_view, Failure};
use crate::text;
use crate::text::uppercased;
use vstd::prelude::*;
use vstd::string::*;

verus! {

/// The main help, up to the name of the harness that has a hook.
pub const HELP: &'static str = "SkillRanker — powered by TypeSafe.ai Jev\n\nUsage: sr [rank] [--context FILE | --transcript FILE --harness NAME | --session PATH | --latest]\n                 [--roster FILE] [--require-skill ID] [--dry-run [--shortlist-ids ID,...]]\n                 [--offline | --allow-network] [--json | --table]\n                 [--top N] [--shortlist M] [--gate FLOAT] [--fits FLOAT]\n                 [--explain] [--why-not ID] [--cursor TOKEN] [--no-tools] [--no-cache]\n                 [--save-case FILE]\n       sr doctor [--json | --table] [--offline | --allow-network]\n       sr doctor --config [--json | --table] [--top N] [--shortlist N]\n       sr roster [--json] [--limit N] [--cursor TOKEN]\n       sr roster --snapshot FILE | --diff FILE\n       sr capabilities [--json]\n       sr demo --case <useful|none|explicit|unavailable> [--json | --table]\n       sr replay FILE [--policy FILE] [--compare-policy FILE] [--json | --table]\n       sr eval --dataset FILE [--allow-network] [--max-runtime-ms MS] [--timeout-ms MS] [--policy FILE] [--compare-policy FILE] [--explain] [--json | --table]\n       sr eval --dataset FRAME --labels FILE [--sample-size N [--seed S]] [--online --allow-network --max-requests N [--max-runtime-ms MS] [--robustness]] [--explain] [--json | --table]\n       sr feedback <EVENT_ID> --skill ID [--instead ID] [--verdict <useful|not-useful|unknown>] [--reason CODE] [--provenance TEXT] [--expected-version GEN] [--dir DIR] [--json]\n       sr ledger <init|migrate|status|prune|clear> [--before TIME] [--apply] [--json]\n       sr observe [--context FILE | --transcript FILE --harness NAME | --session PATH] [--branch NAME] [--roster FILE] [--dir DIR] [--json]\n       sr stats [--since DURATION] [--by-skill] [--dir DIR] [--json | --table]\n       sr hook <";

/// The main help from there to the harness a hook is installed for.
pub const HELP_INSTALL: &'static str = "> [--shadow] [--offline | --allow-network] [--dir DIR]\n       sr install-hook <";

/// The main help from there to the harness a hook is removed from.
pub const HELP_UNINSTALL: &'static str = "> [--settings FILE] [--target-dir DIR] [--apply] [--json]\n       sr uninstall-hook <";

/// The rest of the main help.
pub const HELP_END: &'static str = "> [--settings FILE] [--target-dir DIR] [--apply] [--json]\n       sr --help | --version\n\nRank the next step of an agent session using TypeSafe Jev.\nRequires your own TypeSafe API key (TYPESAFE_API_KEY) and network consent (--allow-network).\n";

pub const EVAL_HELP: &'static str = "sr eval --dataset FILE [--allow-network] [--max-runtime-ms MS] [--timeout-ms MS] [--policy FILE] [--compare-policy FILE] [--explain] [--json | --table]\n       sr eval --dataset FRAME --labels FILE [--sample-size N [--seed S]] [--online --allow-network --max-requests N [--max-runtime-ms MS] [--robustness]] [--explain] [--json | --table]\n\nEvaluate recorded or synthetic replay batches against local or comparison policies with bounded runtime and explicit accounting.\nWith --labels, score a labeled case frame against independent judgments, optionally over a stratified sample frozen before labels are joined.\n";

pub const STATS_HELP: &'static str = "sr stats [--since DURATION] [--by-skill] [--dir DIR] [--json | --table]\n\nReport observation and operational metrics across honest cohorts (evaluations, suggestions, abstentions, latency, loads, judgments, tokens, and cost).\n";

pub const FEEDBACK_HELP: &'static str = "sr feedback <EVENT_ID> --skill ID [--instead ID] [--verdict <useful|not-useful|unknown>] [--reason CODE] [--provenance TEXT] [--expected-version GEN] [--dir DIR] [--json]\n\nRecord explicit feedback or paired corrective labels for a historical ranking event.\n";

pub const OBSERVE_HELP: &'static str = "sr observe [--context FILE | --transcript FILE --harness NAME | --session PATH] [--branch NAME] [--roster FILE] [--dir DIR] [--json]\n\nIngest session tool events, record loaded skill observations, attribute to recent emissions, and advance observation watermark.\n";

/// What each argument says; nothing where it is no text.
pub open spec fn arg_texts(args: Seq<Option<String>>) -> Seq<Option<Seq<char>>> {
    Seq::new(
        args.len(),
        |i: int|
            match args[i] {
                Some(text) => Some(text@),
                None => None,
            },
    )
}

/// Whether a command line has a flag of the ranking where a command is named.
pub open spec fn leads_with_flag(args: Seq<Option<Seq<char>>>) -> bool {
    args.len() > 1 && args[1] is Some && text::has_prefix(args[1]->0, "-"@) && args[1]->0
        != "--help"@ && args[1]->0 != "-h"@ && args[1]->0 != "--version"@ && args[1]->0 != "-V"@
}

/// Whether `rank` is to be put behind the program name: bare `sr` is `sr rank`,
/// so rank flags may follow the program name directly.
pub open spec fn implies_rank(args: Seq<Option<String>>) -> bool {
    leads_with_flag(arg_texts(args))
}

/// The command line that is parsed: `rank` stands behind the program name where
/// it is implied, and everything else as it was given.
pub open spec fn ranked(args: Seq<Option<Seq<char>>>) -> Seq<Option<Seq<char>>> {
    if leads_with_flag(args) {
        args.insert(1, Some("rank"@))
    } else {
        args
    }
}

/// Bare `sr` with flags is `sr rank`: either command line is parsed as the
/// other is, and what is parsed implies no further word.
pub proof fn lemma_bare_flags_are_rank(args: Seq<Option<Seq<char>>>)
    ensures
        leads_with_flag(args) ==> ranked(args) == ranked(args.insert(1, Some("rank"@))),
        !leads_with_flag(ranked(args)),
        ranked(ranked(args)) == ranked(args),
{
    reveal_strlit("rank");
    reveal_strlit("-");
    if leads_with_flag(args) {
        let given = args.insert(1, Some("rank"@));
        assert(given[1] == Some("rank"@));
        assert("rank"@.take(1)[0] == 'r' && "-"@[0] == '-');
    }
}

/// Whether `rank` is to be put behind the program name.
pub fn needs_rank(args: &Vec<Option<String>>) -> (r: bool)
    ensures
        r == implies_rank(args@),
{
    if args.len() < 2 {
        return false;
    }
    assert(arg_texts(args@).len() == args@.len());
    match &args[1] {
        Some(first) => text::starts_with(first.as_str(), "-") && !text::eq(
            first.as_str(),
            "--help",
        ) && !text::eq(first.as_str(), "-h") && !text::eq(first.as_str(), "--version")
            && !text::eq(first.as_str(), "-V"),
        None => false,
    }
}

/// The command line to parse.
pub fn with_rank(args: Vec<Option<String>>) -> (r: Vec<Option<String>>)
    ensures
        arg_texts(r@) == ranked(arg_texts(args@)),
        !implies_rank(r@),
{
    let ghost given = arg_texts(args@);
    let mut out: Vec<Option<String>> = args;
    if needs_rank(&out) {
        out.insert(1, Some("rank".to_owned()));
        assert(arg_texts(out@) =~= given.insert(1, Some("rank"@)));
    }
    proof {
        lemma_bare_flags_are_rank(given);
    }
    out
}

/// The failure of arguments that do not parse: a command that is planned but
/// not implemented names the phase it waits on.
pub open spec fn unparsed_refusal(planned_phase: Option<Seq<char>>) -> (
    u8,
    Seq<char>,
    Seq<char>,
) {
    (
        2u8,
        "invalid-usage"@,
        match planned_phase {
            Some(phase) =>
                "This build does not implement that command; it is planned for phase "@
                    + uppercased(phase) + ". Run sr capabilities for command status."@,
            None => "Unsupported or conflicting arguments; use --help"@,
        },
    )
}

/// The failure of arguments that do not parse.
pub fn unparsed(planned_phase: Option<&str>) -> (r: Failure)
    ensures
        failure_view(r) == unparsed_refusal(
            match planned_phase {
                Some(phase) => Some(phase@),
                None => None,
            },
        ),
{
    match planned_phase {
        Some(phase) => {
            let mut message: String =
                "This build does not implement that command; it is planned for phase ".to_owned();
            message.append(text::to_uppercase(phase).as_str());
            message.append(". Run sr capabilities for command status.");
            (2, "invalid-usage", message)
        },
        None => failure(2, "invalid-usage", "Unsupported or conflicting arguments; use --help"),
    }
}

/// The commands.
#[derive(Clone, Copy, Debug, PartialEq, Eq, Structural)]
pub enum CommandName {
    Roster,
    Doctor,
    Rank,
    Capabilities,
    Demo,
    Replay,
    Eval,
    Ledger,
    Feedback,
    Observe,
    Stats,
    Hook,
    InstallHook,
    UninstallHook,
}

/// The name of a command as it is typed.
pub open spec fn typed_name(name: CommandName) -> Seq<char> {
    match name {
        CommandName::Roster => "roster"@,
        CommandName::Doctor => "doctor"@,
        CommandName::Rank => "rank"@,
        CommandName::Capabilities => "capabilities"@,
        CommandName::Demo => "demo"@,
        CommandName::Replay => "replay"@,
        CommandName::Eval => "eval"@,
        CommandName::Ledger => "ledger"@,
        CommandName::Feedback => "feedback"@,
        CommandName::Observe => "observe"@,
        CommandName::Stats => "stats"@,
        CommandName::Hook => "hook"@,
        CommandName::InstallHook => "install-hook"@,
        CommandName::UninstallHook => "uninstall-hook"@,
    }
}

/// The command that a word names.
pub fn named_command(word: &str) -> (r: Option<CommandName>)
    ensures
        r is Some ==> typed_name(r->0) == word@,
        r is None ==> forall|name: CommandName| #[trigger] typed_name(name) != word@,
{
    if text::eq(word, "roster") {
        Some(CommandName::Roster)
    } else if text::eq(word, "doctor") {
        Some(CommandName::Doctor)
    } else if text::eq(word, "rank") {
        Some(CommandName::Rank)
    } else if text::eq(word, "capabilities") {
        Some(CommandName::Capabilities)
    } else if text::eq(word, "demo") {
        Some(CommandName::Demo)
    } else if text::eq(word, "replay") {
        Some(CommandName::Replay)
    } else if text::eq(word, "eval") {
        Some(CommandName::Eval)
    } else if text::eq(word, "ledger") {
        Some(CommandName::Ledger)
    } else if text::eq(word, "feedback") {
        Some(CommandName::Feedback)
    } else if text::eq(word, "observe") {
        Some(CommandName::Observe)
    } else if text::eq(word, "stats") {
        Some(CommandName::Stats)
    } else if text::eq(word, "hook") {
        Some(CommandName::Hook)
    } else if text::eq(word, "install-hook") {
        Some(CommandName::InstallHook)
    } else if text::eq(word, "uninstall-hook") {
        Some(CommandName::UninstallHook)
    } else {
        None
    }
}

fn name_text(name: CommandName) -> (r: &'static str)
    ensures
        r@ == typed_name(name),
{
    match name {
        CommandName::Roster => "roster",
        CommandName::Doctor => "doctor",
        CommandName::Rank => "rank",
        CommandName::Capabilities => "capabilities",
        CommandName::Demo => "demo",
        CommandName::Replay => "replay",
        CommandName::Eval => "eval",
        CommandName::Ledger => "ledger",
        CommandName::Feedback => "feedback",
        CommandName::Observe => "observe",
        CommandName::Stats => "stats",
        CommandName::Hook => "hook",
        CommandName::InstallHook => "install-hook",
        CommandName::UninstallHook => "uninstall-hook",
    }
}

/// A flag that is planned but not implemented, and its phase.
#[derive(Clone, Debug, PartialEq, Eq)]
pub struct PlannedFlag {
    pub flag: String,
    pub phase: String,
}

/// A parsed command.
#[derive(Clone, Debug, PartialEq, Eq)]
pub struct ParsedCommand {
    pub name: CommandName,
    pub help: bool,
    /// Whether a subcommand follows, and whether it is the harness.
    pub nested: bool,
    pub harness: bool,
    pub harness_help: bool,
    /// The first planned flag of this command that was given.
    pub planned: Option<PlannedFlag>,
}

/// Parsed arguments.
#[derive(Clone, Debug, PartialEq, Eq)]
pub struct ParsedArguments {
    pub help: bool,
    pub version: bool,
    pub command: Option<ParsedCommand>,
}

/// The help texts.
#[derive(Clone, Copy, Debug, PartialEq, Eq, Structural)]
pub enum HelpTopic {
    Main,
    Eval,
    Feedback,
    Observe,
    Stats,
}

/// The text of a help topic.
pub open spec fn help_of(topic: HelpTopic, harness: Seq<char>) -> Seq<char> {
    match topic {
        HelpTopic::Main => HELP@ + harness + HELP_INSTALL@ + harness + HELP_UNINSTALL@ + harness
            + HELP_END@,
        HelpTopic::Eval => EVAL_HELP@,
        HelpTopic::Feedback => FEEDBACK_HELP@,
        HelpTopic::Observe => OBSERVE_HELP@,
        HelpTopic::Stats => STATS_HELP@,
    }
}

/// The text of a help topic.
pub fn help_text(topic: HelpTopic, harness: &str) -> (r: String)
    ensures
        r@ == help_of(topic, harness@),
{
    match topic {
        HelpTopic::Main => {
            let mut out: String = HELP.to_owned();
            out.append(harness);
            out.append(HELP_INSTALL);
            out.append(harness);
            out.append(HELP_UNINSTALL);
            out.append(harness);
            out.append(HELP_END);
            out
        },
        HelpTopic::Eval => EVAL_HELP.to_owned(),
        HelpTopic::Feedback => FEEDBACK_HELP.to_owned(),
        HelpTopic::Observe => OBSERVE_HELP.to_owned(),
        HelpTopic::Stats => STATS_HELP.to_owned(),
    }
}

/// What the arguments ask for.
#[derive(Clone, Copy, Debug, PartialEq, Eq, Structural)]
pub enum Route {
    Help(HelpTopic),
    Version,
    Run(CommandName),
    HarnessHook,
}

/// The help topic of a command.
pub open spec fn topic_of(name: CommandName) -> HelpTopic {
    match name {
        CommandName::Eval => HelpTopic::Eval,
        CommandName::Feedback => HelpTopic::Feedback,
        CommandName::Observe => HelpTopic::Observe,
        CommandName::Stats => HelpTopic::Stats,
        _ => HelpTopic::Main,
    }
}

/// Whether help on a command wins over the command: those that hold
/// subcommands of a harness pass it on to them.
pub open spec fn shows_help(command: ParsedCommand) -> bool {
    command.help && match command.name {
        CommandName::Hook | CommandName::InstallHook | CommandName::UninstallHook =>
            !command.nested,
        _ => true,
    }
}

/// Why parsed arguments are refused.
pub open spec fn route_refusal(parsed: ParsedArguments, harness: Seq<char>) -> Option<
    (u8, Seq<char>, Seq<char>),
> {
    match parsed.command {
        None => None,
        Some(command) => if parsed.help || parsed.version {
            Some((2u8, "invalid-usage"@, "Top-level flags cannot accompany a command"@))
        } else if !command.help && command.planned is Some {
            Some(
                (
                    2u8,
                    "invalid-usage"@,
                    "This build does not implement "@ + typed_name(command.name) + " --"@
                        + command.planned->0.flag@ + "; it is planned for phase "@ + uppercased(
                        command.planned->0.phase@,
                    ) + ". Run sr capabilities for flag status."@,
                ),
            )
        } else if command.name is Hook && !shows_help(command) && !command.harness {
            Some((2u8, "invalid-usage"@, "Use sr hook "@ + harness))
        } else {
            None
        },
    }
}

/// What parsed arguments ask for. Bare `sr` ranks once.
pub open spec fn route_of(parsed: ParsedArguments) -> Route {
    match parsed.command {
        None => if parsed.help {
            Route::Help(HelpTopic::Main)
        } else if parsed.version {
            Route::Version
        } else {
            Route::Run(CommandName::Rank)
        },
        Some(command) => if shows_help(command) {
            Route::Help(topic_of(command.name))
        } else if command.name is Hook {
            if command.harness_help {
                Route::Help(HelpTopic::Main)
            } else {
                Route::HarnessHook
            }
        } else {
            Route::Run(command.name)
        },
    }
}

/// Decide what parsed arguments ask for.
pub fn route(parsed: &ParsedArguments, harness: &str) -> (r: Result<Route, Failure>)
    ensures
        match r {
            Ok(route) => route_refusal(*parsed, harness@) is None && route == route_of(*parsed),
            Err(f) => route_refusal(*parsed, harness@) == Some(failure_view(f)),
        },
{
    let command: &ParsedCommand = match &parsed.command {
        Some(command) => command,
        None => {
            return if parsed.help {
                Ok(Route::Help(HelpTopic::Main))
            } else if parsed.version {
                Ok(Route::Version)
            } else {
                Ok(Route::Run(CommandName::Rank))
            };
        },
    };
    if parsed.help || parsed.version {
        return Err(failure(2, "invalid-usage", "Top-level flags cannot accompany a command"));
    }
    if !command.help {
        if let Some(planned) = &command.planned {
            let mut message: String = "This build does not implement ".to_owned();
            message.append(name_text(command.name));
            message.append(" --");
            message.append(planned.flag.as_str());
            message.append("; it is planned for phase ");
            message.append(text::to_uppercase(planned.phase.as_str()).as_str());
            message.append(". Run sr capabilities for flag status.");
            return Err((2, "invalid-usage", message));
        }
    }
    let (is_hook, passes_on): (bool, bool) = match command.name {
        CommandName::Hook => (true, true),
        CommandName::InstallHook | CommandName::UninstallHook => (false, true),
        _ => (false, false),
    };
    if command.help && !(passes_on && command.nested) {
        let topic: HelpTopic = match command.name {
            CommandName::Eval => HelpTopic::Eval,
            CommandName::Feedback => HelpTopic::Feedback,
            CommandName::Observe => HelpTopic::Observe,
            CommandName::Stats => HelpTopic::Stats,
            _ => HelpTopic::Main,
        };
        return Ok(Route::Help(topic));
    }
    if is_hook {
        if !command.harness {
            let mut message: String = "Use sr hook ".to_owned();
            message.append(harness);
            return Err((2, "invalid-usage", message));
        }
        return if command.harness_help {
            Ok(Route::Help(HelpTopic::Main))
        } else {
            Ok(Route::HarnessHook)
        };
    }
    Ok(Route::Run(command.name))
}

/// What the version flag prints.
pub fn version_text(version: &str) -> (r: String)
    ensures
        r@ == "sr "@ + version@ + "\n"@,
{
    let mut out: String = "sr ".to_owned();
    out.append(version);
    out.append("\n");
    out
}

/// Whether the output is a document rather than a table.
pub open spec fn writes_document(json: bool, table: bool, terminal: bool) -> bool {
    json || (!table && !terminal)
}

/// Whether a command prints JSON: where it was asked for, or where no table
/// was and the output is no terminal.
pub fn prints_json(json: bool, table: bool, terminal: bool) -> (r: bool)
    ensures
        r == writes_document(json, table, terminal),
{
    json || (!table && !terminal)
}

/// What a command prints: its document and a line break where one is asked for, else
/// its table.
pub open spec fn printed(as_json: bool, wire: Result<String, String>, table: String) -> Result<
    Seq<char>,
    (u8, Seq<char>, Seq<char>),
> {
    if as_json && wire is Err {
        Err((2u8, "output-error"@, wire->Err_0@))
    } else if as_json {
        Ok(wire->Ok_0@ + "\n"@)
    } else {
        Ok(table@)
    }
}

/// Print a document: its JSON text on a line, else its table. `wire` is the
/// JSON text, or why there is none.
pub fn print_document(as_json: bool, wire: Result<String, String>, table: String) -> (r: Result<
    String,
    Failure,
>)
    ensures
        answers(r, printed(as_json, wire, table)),
{
    if !as_json {
        return Ok(table);
    }
    match wire {
        Ok(text) => {
            let mut out: String = text;
            out.append("\n");
            Ok(out)
        },
        Err(detail) => Err((2, "output-error", detail)),
    }
}

/// No two commands are typed alike.
pub proof fn lemma_commands_are_typed_apart(a: CommandName, b: CommandName)
    requires
        typed_name(a) == typed_name(b),
    ensures
        a == b,
{
    reveal_strlit("roster");
    reveal_strlit("doctor");
    reveal_strlit("rank");
    reveal_strlit("capabilities");
    reveal_strlit("demo");
    reveal_strlit("replay");
    reveal_strlit("eval");
    reveal_strlit("ledger");
    reveal_strlit("feedback");
    reveal_strlit("observe");
    reveal_strlit("stats");
    reveal_strlit("hook");
    reveal_strlit("install-hook");
    reveal_strlit("uninstall-hook");
    assert("roster"@.len() == 6 && "roster"@[0] == 'r' && "roster"@[1] == 'o');
    assert("doctor"@.len() == 6 && "doctor"@[0] == 'd' && "doctor"@[1] == 'o');
    assert("rank"@.len() == 4 && "rank"@[0] == 'r' && "rank"@[1] == 'a');
    assert("capabilities"@.len() == 12 && "capabilities"@[0] == 'c' && "capabilities"@[1] == 'a');
    assert("demo"@.len() == 4 && "demo"@[0] == 'd' && "demo"@[1] == 'e');
    assert("replay"@.len() == 6 && "replay"@[0] == 'r' && "replay"@[1] == 'e');
    assert("eval"@.len() == 4 && "eval"@[0] == 'e' && "eval"@[1] == 'v');
    assert("ledger"@.len() == 6 && "ledger"@[0] == 'l' && "ledger"@[1] == 'e');
    assert("feedback"@.len() == 8 && "feedback"@[0] == 'f' && "feedback"@[1] == 'e');
    assert("observe"@.len() == 7 && "observe"@[0] == 'o' && "observe"@[1] == 'b');
    assert("stats"@.len() == 5 && "stats"@[0] == 's' && "stats"@[1] == 't');
    assert("hook"@.len() == 4 && "hook"@[0] == 'h' && "hook"@[1] == 'o');
    assert("install-hook"@.len() == 12 && "install-hook"@[0] == 'i' && "install-hook"@[1] == 'n');
    assert("uninstall-hook"@.len() == 14 && "uninstall-hook"@[0] == 'u' && "uninstall-hook"@[1] == 'n');
}

/// Every command is typed as it is called.
pub proof fn lemma_commands_are_typed_as_called()
    ensures
        typed_name(CommandName::Roster) == "roster"@,
        typed_name(CommandName::Doctor) == "doctor"@,
        typed_name(CommandName::Rank) == "rank"@,
        typed_name(CommandName::Capabilities) == "capabilities"@,
        typed_name(CommandName::Demo) == "demo"@,
        typed_name(CommandName::Replay) == "replay"@,
        typed_name(CommandName::Eval) == "eval"@,
        typed_name(CommandName::Ledger) == "ledger"@,
        typed_name(CommandName::Feedback) == "feedback"@,
        typed_name(CommandName::Observe) == "observe"@,
        typed_name(CommandName::Stats) == "stats"@,
        typed_name(CommandName::Hook) == "hook"@,
        typed_name(CommandName::InstallHook) == "install-hook"@,
        typed_name(CommandName::UninstallHook) == "uninstall-hook"@,
{
}

/// A command whose help was asked for shows it, unless a hook passes the question
/// on; evaluation, feedback, observation and statistics have a help of their own.
/// Without a command the help or the version is shown, else a ranking runs. Any
/// other command runs itself.
pub proof fn lemma_where_arguments_lead(parsed: ParsedArguments, harness: Seq<char>)
    requires
        route_refusal(parsed, harness) is None,
    ensures
        ({
            let route = route_of(parsed);
            let command = parsed.command->0;
            let hooks = command.name is Hook || command.name is InstallHook || command.name
                is UninstallHook;
            let helped = command.help && !(hooks && command.nested);
            &&& parsed.command is None && parsed.help ==> route == Route::Help(HelpTopic::Main)
            &&& parsed.command is None && !parsed.help && parsed.version ==> route is Version
            &&& parsed.command is None && !parsed.help && !parsed.version ==> route == Route::Run(
                CommandName::Rank,
            )
            &&& parsed.command is Some && helped ==> route is Help
            &&& parsed.command is Some && helped ==> {
                &&& route->Help_0 is Eval <==> command.name is Eval
                &&& route->Help_0 is Feedback <==> command.name is Feedback
                &&& route->Help_0 is Observe <==> command.name is Observe
                &&& route->Help_0 is Stats <==> command.name is Stats
            }
            &&& parsed.command is Some && !helped && !(command.name is Hook) ==> route
                == Route::Run(command.name)
            &&& parsed.command is Some && !helped && command.name is Hook ==> route
                == if command.harness_help {
                Route::Help(HelpTopic::Main)
            } else {
                Route::HarnessHook
            }
        }),
{
}

/// Arguments are refused exactly where top-level flags accompany a command, a flag
/// is only planned and no help was asked for, or a hook names no harness.
pub proof fn lemma_arguments_that_are_refused(parsed: ParsedArguments, harness: Seq<char>)
    ensures
        route_refusal(parsed, harness) is Some <==> parsed.command is Some && {
            let command = parsed.command->0;
            ||| parsed.help || parsed.version
            ||| !command.help && command.planned is Some
            ||| command.name is Hook && !command.harness && (!command.help || command.nested)
        },
        route_refusal(parsed, harness) is Some ==> (route_refusal(parsed, harness)->0).0 == 2,
{
}

/// A bare flag in the first place leads to a ranking, and nothing else does: no
/// word, and none of the flags that ask for help or the version.
pub proof fn lemma_what_leads_to_a_ranking(args: Seq<Option<Seq<char>>>)
    ensures
        leads_with_flag(args) <==> {
            &&& args.len() > 1
            &&& args[1] is Some
            &&& args[1]->0.len() > 0 && args[1]->0[0] == '-'
            &&& args[1]->0 != "--help"@ && args[1]->0 != "-h"@
            &&& args[1]->0 != "--version"@ && args[1]->0 != "-V"@
        },
        leads_with_flag(args) ==> ranked(args)[1] == Some("rank"@) && ranked(args).len()
            == args.len() + 1 && ranked(args)[0] == args[0] && forall|i: int|
            1 <= i < args.len() ==> #[trigger] ranked(args)[i + 1] == args[i],
        !leads_with_flag(args) ==> ranked(args) == args,
{
    reveal_strlit("-");
    if args.len() > 1 && args[1] is Some && args[1]->0.len() > 0 {
        let first = args[1]->0;
        assert("-"@ =~= seq!['-']);
        assert(first.take(1) =~= seq![first[0]]);
        if first[0] != '-' {
            assert(first.take(1)[0] != "-"@[0]);
        }
    }
}

/// A document is written where it is asked for, or where nothing is and nobody reads
/// along; a table that is asked for is not overruled by where it goes.
pub proof fn lemma_when_a_document_is_written(json: bool, table: bool, terminal: bool)
    ensures
        json ==> writes_document(json, table, terminal),
        !json && table ==> !writes_document(json, table, terminal),
        !json && !table ==> (writes_document(json, table, terminal) <==> !terminal),
{
}

/// A table is printed whatever became of the document, and a document that could not
/// be written fails only where it is asked for.
pub proof fn lemma_what_is_printed(as_json: bool, wire: Result<String, String>, table: String)
    ensures
        printed(as_json, wire, table) is Err <==> as_json && wire is Err,
        !as_json ==> printed(as_json, wire, table)->Ok_0 == table@,
        as_json && wire is Ok ==> printed(as_json, wire, table)->Ok_0 == wire->Ok_0@ + "\n"@,
        as_json && wire is Err ==> (printed(as_json, wire, table)->Err_0).2 == wire->Err_0@,
{
}

} // verus!
