//! The command line: its grammar, its routes and what it finds around it.

use skillranker::cli::args::{
    asks_help, counts_hook_entry, document_event, is_hook_claude_invocation, mentions,
    try_extract_dir, try_extract_event_id, DirArgument,
};
use skillranker::cli::config::{CliArgument, EnvPath, RawValue, UserRoot, ValueKind};
use skillranker::cli::failure::{Decision, Failure, OutputKind};
use skillranker::cli::grammar::{
    arguments, command_name, is_coherent, planned_argument, setting_argument, subcommands,
    ArgKind, ArgRule, CommandPath,
};
use skillranker::cli::hook::{
    clamp_timeout, emission_to_record, entry_terms, entry_timeout, finish_hook, hook_budget, hook_publication,
    hook_settings, hook_timeout, report_change, unsupported_harness, HookChange, HookPublication,
};
use skillranker::cli::rank::{
    argument_failure, finish_rank, prepare, prepare_rank, ranking_timeout, stdin_supplied,
    unavailable_failure, usable_deadline, GivenId, RankArgument, RankDocument, RankEnding,
    RankNames, Surroundings,
};
use skillranker::cli::recorded::{plan_demo, plan_replay, replay_inputs};
use skillranker::cli::routing::{
    help_text, named_command, needs_rank, print_document, prints_json, route, unparsed,
    version_text, with_rank,
    CommandName, HelpTopic, ParsedArguments, ParsedCommand, PlannedFlag, Route,
};
use std::collections::HashSet;

const HARNESS: &str = "harness-x";

fn args(list: &[&str]) -> Vec<Option<String>> {
    list.iter().map(|s| Some((*s).to_owned())).collect()
}

fn every_path() -> Vec<CommandPath> {
    let mut all = vec![CommandPath::Root];
    let mut i = 0;
    while i < all.len() {
        let below = subcommands(all[i]);
        all.extend(below);
        i += 1;
    }
    all
}

/// The command that the grammar describes, as the argument parser takes it.
fn built(path: CommandPath) -> clap::Command {
    let mut command = clap::Command::new(command_name(path, HARNESS)).disable_help_flag(true);
    for rule in arguments(path) {
        command = command.arg(built_arg(&rule));
    }
    for sub in subcommands(path) {
        command = command.subcommand(built(sub));
    }
    command
}

fn built_arg(rule: &ArgRule) -> clap::Arg {
    let mut arg = clap::Arg::new(rule.name);
    if rule.kind != ArgKind::Positional {
        arg = arg.long(rule.name);
    }
    if let Some(letter) = rule.short {
        arg = arg.short(letter);
    }
    if let Some(other) = rule.requires {
        arg = arg.requires(other);
    }
    arg = arg.conflicts_with_all(rule.conflicts.clone());
    match rule.kind {
        ArgKind::Flag => arg.action(clap::ArgAction::SetTrue),
        ArgKind::Value | ArgKind::Positional => {
            if rule.choices.is_empty() {
                arg.action(clap::ArgAction::Set)
            } else {
                arg.value_parser(rule.choices.clone())
            }
        }
        ArgKind::Repeated => arg.action(clap::ArgAction::Append),
        ArgKind::Listed => {
            arg.num_args(1..).value_delimiter(',').action(clap::ArgAction::Append)
        }
    }
}

#[test]
fn every_command_is_coherent_and_has_help() {
    let all = every_path();
    assert_eq!(all.len(), 23);
    for path in all {
        let rules = arguments(path);
        assert!(is_coherent(&rules), "{path:?}");
        assert_eq!((rules[0].name, rules[0].short), ("help", Some('h')));
        let names: HashSet<&str> = rules.iter().map(|rule| rule.name).collect();
        assert_eq!(names.len(), rules.len());
        if names.contains("json") && names.contains("table") {
            let json = rules.iter().find(|rule| rule.name == "json").unwrap();
            assert_eq!(json.conflicts, ["table"]);
        }
    }
}

#[test]
fn incoherent_arguments_are_found() {
    let a = setting_argument("a");
    assert!(!is_coherent(&vec![a.clone(), a.clone()]));
    let stray = ArgRule { conflicts: vec!["gone"], ..a.clone() };
    assert!(!is_coherent(&vec![stray]));
    let selfish = ArgRule { requires: Some("a"), ..a.clone() };
    assert!(!is_coherent(&vec![selfish]));
    let pair = ArgRule { requires: Some("b"), ..a };
    assert!(is_coherent(&vec![pair, setting_argument("b")]));
}

#[test]
fn the_grammar_parses_what_it_describes() {
    let command = built(CommandPath::Root);
    command.clone().debug_assert();
    let parses = |list: &[&str]| command.clone().try_get_matches_from(list).is_ok();
    assert!(parses(&["sr", "rank", "--json", "--offline"]));
    assert!(!parses(&["sr", "rank", "--json", "--table"]));
    assert!(!parses(&["sr", "rank", "--offline", "--allow-network"]));
    assert!(!parses(&["sr", "rank", "--transcript", "f"]));
    assert!(parses(&["sr", "rank", "--transcript", "f", "--harness", "h"]));
    assert!(!parses(&["sr", "rank", "--why-not", "x"]));
    assert!(parses(&["sr", "rank", "--dry-run", "--shortlist-ids", "a,b", "c"]));
    assert!(!parses(&["sr", "eval", "--sample-size", "2"]));
    assert!(!parses(&["sr", "eval", "--labels", "l", "--policy", "p"]));
    assert!(parses(&["sr", "demo", "--case", "useful"]));
    assert!(!parses(&["sr", "demo", "--case", "odd"]));
    assert!(!parses(&["sr", "roster", "--snapshot", "s", "--diff", "d"]));
    assert!(parses(&["sr", "feedback", "event", "--skill", "s"]));
    assert!(parses(&["sr", "hook", HARNESS, "--shadow"]));
    assert!(parses(&["sr", "ledger", "prune", "--before", "30d", "--apply"]));
    assert!(!parses(&["sr", "--version", "--help"]));
}

#[test]
fn hook_changes_take_their_documented_flags() {
    let command = built(CommandPath::Root);
    let parses = |list: &[&str]| command.clone().try_get_matches_from(list).is_ok();
    for name in ["install-hook", "uninstall-hook"] {
        assert!(parses(&["sr", name, HARNESS, "--settings", "s.json", "--apply"]));
        assert!(parses(&["sr", name, HARNESS, "--target-dir", "d", "--json"]));
        assert!(parses(&["sr", name, HARNESS, "--settings-file", "s.json"]));
        assert!(!parses(&["sr", name, HARNESS, "--settings"]));
        assert!(!parses(&["sr", name, HARNESS, "--settings", "a", "--settings-file", "b"]));
        let found = command
            .clone()
            .try_get_matches_from(["sr", name, HARNESS, "--settings", "s.json"])
            .unwrap();
        let below = found.subcommand().unwrap().1.subcommand().unwrap().1;
        assert_eq!(below.get_one::<String>("settings").unwrap(), "s.json");
    }
}

#[test]
fn settings_and_planned_flags_have_arguments() {
    assert_eq!(setting_argument("shadow").kind, ArgKind::Flag);
    assert_eq!(setting_argument("no-tools").kind, ArgKind::Flag);
    assert_eq!(setting_argument("top").kind, ArgKind::Value);
    let planned = planned_argument("window", true);
    assert!(planned.hidden && planned.kind == ArgKind::Value);
    assert_eq!(planned_argument("all", false).kind, ArgKind::Flag);
}

#[test]
fn a_hook_invocation_is_known_by_its_first_words() {
    let is_hook = |list: &[&str]| is_hook_claude_invocation(&args(list), HARNESS);
    assert!(is_hook(&["sr", "hook", HARNESS]));
    assert!(is_hook(&["sr", "--json", "hook", HARNESS, "--shadow"]));
    assert!(!is_hook(&["sr", "hook"]));
    assert!(!is_hook(&["sr", "hook", "--shadow", HARNESS]));
    assert!(!is_hook(&["sr", "rank", "hook", HARNESS]));
    assert!(!is_hook(&["hook", HARNESS]));
    let with = |flag: &str| args(&["sr", "hook", HARNESS, flag]);
    assert!(counts_hook_entry(&with("--shadow"), HARNESS));
    for flag in ["--help", "-h", "--no-ledger", "--no-persist"] {
        assert!(!counts_hook_entry(&with(flag), HARNESS), "{flag}");
    }
    assert!(asks_help(&args(&["sr", "-h"])) && !asks_help(&args(&["sr", "help"])));
    assert!(mentions(&args(&["sr", "--json"]), "--json"));
    assert!(!mentions(&vec![None], ""));
}

#[test]
fn the_ledger_directory_is_read_off_the_arguments() {
    assert_eq!(try_extract_dir(&args(&["sr", "--dir", "/x"])), Some(DirArgument::At(2)));
    assert_eq!(
        try_extract_dir(&args(&["sr", "--dir=/y"])),
        Some(DirArgument::Text("/y".to_owned()))
    );
    assert_eq!(try_extract_dir(&args(&["sr", "--directory", "/x"])), None);
}

#[test]
fn an_emitted_event_is_read_off_the_output() {
    let document = r#"{"event_id":"evt-1","decision":"ranked"}"#;
    let value: serde_json::Value = serde_json::from_str(document).unwrap();
    assert_eq!(document_event(&value), try_extract_event_id(document));
    assert_eq!(try_extract_event_id("plain text"), None);
}

fn parsed(name: CommandName) -> ParsedCommand {
    ParsedCommand {
        name,
        help: false,
        nested: false,
        harness: false,
        harness_help: false,
        planned: None,
    }
}

fn routed(command: ParsedCommand) -> Result<Route, Failure> {
    route(&ParsedArguments { help: false, version: false, command: Some(command) }, HARNESS)
}

#[test]
fn parsed_arguments_go_to_their_command() {
    let bare = |help, version| ParsedArguments { help, version, command: None };
    assert_eq!(route(&bare(false, false), HARNESS), Ok(Route::Run(CommandName::Rank)));
    assert_eq!(route(&bare(true, false), HARNESS), Ok(Route::Help(HelpTopic::Main)));
    assert_eq!(route(&bare(false, true), HARNESS), Ok(Route::Version));
    assert_eq!(routed(parsed(CommandName::Stats)), Ok(Route::Run(CommandName::Stats)));
    let help = ParsedCommand { help: true, ..parsed(CommandName::Stats) };
    assert_eq!(routed(help), Ok(Route::Help(HelpTopic::Stats)));
    assert_eq!(
        routed(parsed(CommandName::Hook)),
        Err((2, "invalid-usage", format!("Use sr hook {HARNESS}")))
    );
    let hook = ParsedCommand { nested: true, harness: true, ..parsed(CommandName::Hook) };
    assert_eq!(routed(hook.clone()), Ok(Route::HarnessHook));
    assert_eq!(
        routed(ParsedCommand { harness_help: true, ..hook }),
        Ok(Route::Help(HelpTopic::Main))
    );
    let planned = Some(PlannedFlag { flag: "window".to_owned(), phase: "p7".to_owned() });
    assert_eq!(
        routed(ParsedCommand { planned, ..parsed(CommandName::Stats) }).unwrap_err().2,
        "This build does not implement stats --window; it is planned for phase P7. Run sr capabilities for flag status."
    );
    let both =
        ParsedArguments { help: true, version: false, command: Some(parsed(CommandName::Rank)) };
    assert_eq!(
        route(&both, HARNESS).unwrap_err().2,
        "Top-level flags cannot accompany a command"
    );
}

#[test]
fn bare_flags_rank_and_planned_commands_name_their_phase() {
    assert!(needs_rank(&args(&["sr", "--json"])));
    assert!(!needs_rank(&args(&["sr", "doctor"])));
    // Bare flags are parsed as those of a ranking, and only once.
    let ranked = args(&["sr", "rank", "--json"]);
    assert_eq!(with_rank(args(&["sr", "--json"])), ranked);
    assert_eq!(with_rank(ranked.clone()), ranked);
    for given in [vec!["sr"], vec!["sr", "doctor"], vec!["sr", "-h"], vec!["sr", "--version"]] {
        assert_eq!(with_rank(args(&given)), args(&given));
    }
    let opaque = vec![Some("sr".to_owned()), Some("--context".to_owned()), None];
    assert_eq!(with_rank(opaque)[3], None);
    assert_eq!(with_rank(vec![Some("sr".to_owned()), None]).len(), 2);
    assert_eq!(named_command("install-hook"), Some(CommandName::InstallHook));
    assert_eq!(named_command("hook"), Some(CommandName::Hook));
    assert_eq!(named_command("install"), None);
    assert_eq!(unparsed(None).2, "Unsupported or conflicting arguments; use --help");
    let planned = unparsed(Some("p8"));
    assert_eq!((planned.0, planned.1), (2, "invalid-usage"));
    assert!(planned.2.contains("P8"), "{}", planned.2);
}

#[test]
fn documents_and_help_are_printed() {
    assert_eq!(version_text("0.3.0"), "sr 0.3.0\n");
    let help = help_text(HelpTopic::Main, HARNESS);
    assert!(help.starts_with("SkillRanker"));
    assert!(help.contains(&format!("sr hook <{HARNESS}> [--shadow]")));
    assert!(help.contains(&format!("sr install-hook <{HARNESS}> [--settings FILE]")));
    assert!(help.contains(&format!("sr uninstall-hook <{HARNESS}>")));
    assert!(help_text(HelpTopic::Feedback, HARNESS).starts_with("sr feedback <EVENT_ID>"));
    assert!(help_text(HelpTopic::Observe, HARNESS).starts_with("sr observe"));
    assert!(prints_json(true, true, true) && prints_json(false, false, false));
    assert!(!prints_json(false, false, true) && !prints_json(false, true, false));
    let table = || "table\n".to_owned();
    assert_eq!(print_document(true, Ok("{}".to_owned()), table()), Ok("{}\n".to_owned()));
    assert_eq!(print_document(false, Err("x".to_owned()), table()), Ok(table()));
    assert_eq!(
        print_document(true, Err("x".to_owned()), table()),
        Err((2, "output-error", "x".to_owned()))
    );
}

fn setting(flag: &str, path: &str, kind: ValueKind, argument: Option<&str>) -> CliArgument {
    CliArgument {
        flag_name: flag.to_owned(),
        path: path.to_owned(),
        kind,
        flag: false,
        argument: argument.map(str::to_owned),
        number: None,
    }
}

fn around() -> Surroundings {
    Surroundings {
        admits_work: true,
        flag_conflict: None,
        settings: vec![setting("top", "ranking.top", ValueKind::Count, Some("+3"))],
        variables: vec![
            (b"SR_TOP".to_vec(), b"4".to_vec()),
            (b"PATH".to_vec(), b"/bin".to_vec()),
            (b"TYPESAFE_API_KEY".to_vec(), b"k".to_vec()),
        ],
        max_variables: 2,
        has_workspace: true,
        xdg_config: EnvPath::Unset,
        home: EnvPath::Absolute,
        xdg_cache: EnvPath::Absolute,
        platform_cache: false,
    }
}

fn no_names() -> RankNames {
    RankNames {
        harness: None,
        require_skills: Vec::new(),
        shortlist_ids: Vec::new(),
        why_not: None,
        cursor: None,
    }
}

#[test]
fn a_ranking_is_refused_for_the_first_thing_around_it() {
    let prepared = prepare(around()).unwrap();
    assert_eq!(
        prepared.sources.cli,
        [("ranking.top".to_owned(), RawValue::Integer(3))]
    );
    assert_eq!(prepared.sources.environment.len(), 2);
    assert_eq!((prepared.config_root, prepared.cache_root), (UserRoot::Home, UserRoot::Xdg));
    let refusal = |around: Surroundings| prepare(around).unwrap_err().2;
    assert_eq!(
        refusal(Surroundings { admits_work: false, has_workspace: false, ..around() }),
        "Local inspection deadline exceeded"
    );
    assert_eq!(
        refusal(Surroundings { flag_conflict: Some("clash".to_owned()), ..around() }),
        "clash"
    );
    let bad = vec![setting("top", "ranking.top", ValueKind::Count, Some("many"))];
    assert_eq!(
        refusal(Surroundings { settings: bad, ..around() }),
        "CLI count must be an integer"
    );
    let unit = vec![setting("fits", "ranking.fits", ValueKind::Unit, Some("x"))];
    assert_eq!(
        refusal(Surroundings { settings: unit, ..around() }),
        "CLI threshold must be numeric"
    );
    assert_eq!(
        refusal(Surroundings { max_variables: 1, ..around() }),
        "Too many environment settings"
    );
    assert_eq!(
        refusal(Surroundings { has_workspace: false, ..around() }),
        "Workspace is unavailable"
    );
    assert_eq!(
        refusal(Surroundings { xdg_config: EnvPath::Relative, ..around() }),
        "User configuration directory must be absolute"
    );
    assert_eq!(
        refusal(Surroundings { home: EnvPath::Relative, ..around() }),
        "Home directory must be absolute"
    );
    assert_eq!(
        refusal(Surroundings { xdg_cache: EnvPath::Relative, ..around() }),
        "User cache directory must be absolute"
    );
}

#[test]
fn a_ranking_names_the_argument_it_cannot_read() {
    let given = |text: &str, valid: bool| GivenId { text: text.to_owned(), valid };
    let prepared = prepare_rank(around(), &no_names()).unwrap();
    assert!(prepared.sources.trusted_user.is_empty() && prepared.sources.project.is_empty());
    let names = RankNames {
        require_skills: vec![given("ok", true), given("b@d", false), given("w@rse", false)],
        why_not: Some(given("no", false)),
        ..no_names()
    };
    assert_eq!(
        prepare_rank(around(), &names).unwrap_err(),
        (5, "unresolved-explicit", "Invalid skill ID: b@d".to_owned())
    );
    let late = Surroundings { admits_work: false, ..around() };
    assert_eq!(prepare_rank(late, &names).unwrap_err().0, 6);
    assert_eq!(argument_failure(RankArgument::Harness, "h").2, "Invalid harness ID");
    assert_eq!(
        argument_failure(RankArgument::ShortlistId, "s").2,
        "Invalid skill ID for --shortlist-ids"
    );
    assert_eq!(
        argument_failure(RankArgument::WhyNot, "w").2,
        "Invalid skill ID for --why-not: w"
    );
    assert_eq!(
        argument_failure(RankArgument::Cursor, "c"),
        (2, "invalid-usage", "Invalid trace cursor token: c".to_owned())
    );
}

fn document(kind: OutputKind, code: u8, text: &str) -> RankDocument {
    RankDocument {
        kind,
        code,
        value: serde_json::from_str(text).unwrap(),
        table: "TABLE\n".to_owned(),
    }
}

const ON_TIME: RankEnding =
    RankEnding { shut_down: true, now_ms: 9, expires_ms: 10, completed_in_time: true };

#[test]
fn a_finished_ranking_prints_its_document() {
    let known: Vec<&'static str> = vec!["timeout", "empty-roster"];
    let ranked = || document(OutputKind::Decision(Decision::Ranked), 0, r#"{"b":1,"a":2}"#);
    assert_eq!(
        finish_rank(ON_TIME, Ok(ranked()), &known, true),
        Ok("{\"a\":2,\"b\":1}\n".to_owned())
    );
    assert_eq!(finish_rank(ON_TIME, Ok(ranked()), &known, false), Ok("TABLE\n".to_owned()));
    let late = RankEnding { completed_in_time: false, ..ON_TIME };
    assert_eq!(finish_rank(late, Ok(ranked()), &known, true).unwrap_err().0, 6);
    let unfinished = RankEnding { shut_down: false, ..ON_TIME };
    assert_eq!(
        finish_rank(unfinished, Ok(ranked()), &known, true).unwrap_err().2,
        "Runtime cleanup did not finish within the invocation deadline"
    );
    // A late but unavailable decision keeps its own error and document.
    let failing = r#"{"decision":"unavailable","error":{"kind":"empty-roster","message":"none"}}"#;
    let unavailable = || document(OutputKind::Decision(Decision::Unavailable), 5, failing);
    assert_eq!(
        finish_rank(late, Ok(unavailable()), &known, false),
        Err((5, "empty-roster", "none".to_owned()))
    );
    assert_eq!(
        finish_rank(late, Ok(unavailable()), &known, true),
        Err((5, "empty-roster", failing.to_owned()))
    );
    assert_eq!(
        finish_rank(ON_TIME, Err((7, "malformed-input", "bad".to_owned())), &known, true),
        Err((7, "malformed-input", "bad".to_owned()))
    );
}

#[test]
fn an_unavailable_preview_reports_its_local_decision() {
    let known: Vec<&'static str> = vec!["timeout"];
    let value = serde_json::from_str(
        r#"{"local_decision":{"error":{"kind":"timeout"}},"error":{"kind":"other"}}"#,
    )
    .unwrap();
    assert_eq!(
        unavailable_failure(&value, 6, &known, false),
        (6, "timeout", "Unavailable".to_owned())
    );
    let odd = serde_json::from_str(r#"{"error":{"kind":"novel"}}"#).unwrap();
    assert_eq!(unavailable_failure(&odd, 4, &known, false).1, "unavailable");
}

#[test]
fn standard_input_is_supplied_by_pipes_sockets_and_files() {
    assert!(stdin_supplied(false, Some(0o010_600)));
    assert!(stdin_supplied(false, Some(0o140_777)));
    assert!(stdin_supplied(false, Some(0o100_644)));
    assert!(!stdin_supplied(false, Some(0o020_620)));
    assert!(!stdin_supplied(false, Some(0o040_755)));
    assert!(!stdin_supplied(true, Some(0o010_600)));
    assert!(!stdin_supplied(false, None));
    assert_eq!(ranking_timeout(Some(5), 7), 5);
    assert_eq!(ranking_timeout(None, 7), 7);
    assert_eq!(usable_deadline(false, true).unwrap_err().2, "Invalid ranking deadline");
    assert_eq!(usable_deadline(true, false).unwrap_err().0, 6);
    assert!(usable_deadline(true, true).is_ok());
}

#[test]
fn a_hook_deadline_never_exceeds_its_budget() {
    assert_eq!(hook_timeout(Some("1500"), 900), 1_500);
    assert_eq!(hook_timeout(Some("soon"), 900), 900);
    assert_eq!(hook_timeout(None, 900), 900);
    assert_eq!(hook_budget(Some(7), 10, 2), 7);
    assert_eq!(hook_budget(None, 10, 2), 8_000);
    assert_eq!(clamp_timeout(8_000, 8_000), (8_000, None));
    assert_eq!(
        clamp_timeout(9_000, 8_000),
        (
            8_000,
            Some(
                "configured timeout (9000ms) exceeds installed hook budget (8000ms); clamped to installed budget"
                    .to_owned()
            )
        )
    );
    assert_eq!(entry_timeout(Some("20"), 10), 20);
    assert_eq!(entry_timeout(Some("4294967296"), 10), 10);
    assert_eq!(entry_timeout(None, 10), 10);
    assert_eq!(entry_terms(Some((false, 7)), 10), (false, 7));
    assert_eq!(entry_terms(None, 10), (true, 10));
}

#[test]
fn a_hook_publishes_only_what_policy_allows() {
    let ranked = OutputKind::Decision(Decision::Ranked);
    let explicit = OutputKind::Decision(Decision::Explicit);
    assert_eq!(hook_publication(true, false, ranked, None), HookPublication::Publish);
    assert_eq!(hook_publication(true, true, ranked, None), HookPublication::Silent(None));
    assert_eq!(
        hook_publication(false, false, ranked, None),
        HookPublication::Silent(Some(
            "configuration became invalid before hook publication".to_owned()
        ))
    );
    assert_eq!(
        hook_publication(true, false, ranked, Some("Unverified")),
        HookPublication::Silent(Some(
            "native advice disabled for unverified harness (Unverified)".to_owned()
        ))
    );
    // Explicit directives are not blocked by qualification.
    assert_eq!(
        hook_publication(true, false, explicit, Some("Unverified")),
        HookPublication::Publish
    );
    let late = RankEnding { completed_in_time: false, ..ON_TIME };
    assert_eq!(finish_hook(late, Ok(ranked), true, false, None).unwrap_err().0, 6);
    assert_eq!(
        finish_hook(ON_TIME, Ok(ranked), true, false, None),
        Ok(HookPublication::Publish)
    );
    assert_eq!(
        emission_to_record(true, 10, Some("evt".to_owned())),
        Some(("evt".to_owned(), 11))
    );
    assert_eq!(emission_to_record(false, 10, Some("evt".to_owned())), None);
    assert_eq!(emission_to_record(true, 10, None), None);
    let settings = hook_settings(true);
    let shadowed = prepare(Surroundings { settings, ..around() }).unwrap();
    assert_eq!(
        shadowed.sources.cli,
        [("hook.mode".to_owned(), RawValue::Text("shadow".to_owned()))]
    );
    let plain = prepare(Surroundings { settings: hook_settings(false), ..around() }).unwrap();
    assert!(plain.sources.cli.is_empty());
}

#[test]
fn changing_a_hook_says_what_happened() {
    let message = || "done".to_owned();
    assert_eq!(
        report_change(HookChange::Preview { diff: "+x".to_owned(), message: message() }),
        Ok("+x\ndone\n".to_owned())
    );
    assert_eq!(
        report_change(HookChange::Applied { backup_path: "/b".to_owned(), message: message() }),
        Ok("done\n(Backup created at /b)\n".to_owned())
    );
    assert_eq!(
        report_change(HookChange::Unchanged { message: message() }),
        Ok("done\n".to_owned())
    );
    assert_eq!(
        report_change(HookChange::Conflict { message: message() }),
        Err((2, "invalid-usage", message()))
    );
    assert_eq!(
        report_change(HookChange::MalformedSettings(message())),
        Err((7, "malformed-input", message()))
    );
    assert_eq!(
        report_change(HookChange::Refused(message())),
        Err((2, "invalid-usage", message()))
    );
    assert_eq!(
        report_change(HookChange::Io(message())),
        Err((9, "storage-failure", message()))
    );
    assert_eq!(
        unsupported_harness(true, HARNESS).2,
        "Supported harness is 'harness-x'; e.g. sr install-hook harness-x [--apply]"
    );
    assert_eq!(
        unsupported_harness(false, HARNESS).2,
        "Supported harness is 'harness-x'; e.g. sr uninstall-hook harness-x [--apply]"
    );
}

#[test]
fn replays_and_demonstrations_need_their_case() {
    assert_eq!(plan_replay(true, Some("f".to_owned())), Ok("f".to_owned()));
    assert_eq!(plan_replay(true, None).unwrap_err().2, "Missing required case file");
    assert_eq!(plan_replay(false, None).unwrap_err().0, 6);
    let bad = |n: u8| Err::<(), Failure>((n, "malformed-input", "bad".to_owned()));
    assert!(replay_inputs(Ok(()), None, Some(Ok(()))).is_ok());
    assert_eq!(replay_inputs(bad(1), Some(bad(2)), None).unwrap_err().0, 1);
    assert_eq!(replay_inputs(Ok(()), Some(bad(2)), Some(bad(3))).unwrap_err().0, 2);
    assert_eq!(replay_inputs(Ok(()), None, Some(bad(3))).unwrap_err().0, 3);
    assert_eq!(plan_demo(true, Some("useful".to_owned()), true), Ok("useful".to_owned()));
    assert_eq!(plan_demo(true, None, true).unwrap_err().2, "Missing required argument --case");
    assert_eq!(
        plan_demo(true, Some("odd".to_owned()), false).unwrap_err().2,
        "Unknown demo case: odd"
    );
}
