//! The command line: its commands, the arguments each takes, and what each
//! argument needs beside it or cannot stand beside.

use crate::text;
use vstd::prelude::*;

verus! {

/// What follows an argument.
#[derive(Clone, Copy, Debug, PartialEq, Eq, Structural)]
pub enum ArgKind {
    /// Nothing: it is given or not.
    Flag,
    /// One value.
    Value,
    /// One value, each time it is given.
    Repeated,
    /// Values separated by commas, each time it is given.
    Listed,
    /// It is itself a value, known by its place.
    Positional,
}

/// An argument of a command.
#[derive(Clone, Debug, PartialEq, Eq)]
pub struct ArgRule {
    pub name: &'static str,
    pub kind: ArgKind,
    pub short: Option<char>,
    /// Arguments it cannot stand beside.
    pub conflicts: Vec<&'static str>,
    /// An argument it needs beside it.
    pub requires: Option<&'static str>,
    /// The only values it takes, where it does not take any.
    pub choices: Vec<&'static str>,
    /// What its value is called, or nothing.
    pub value_name: &'static str,
    /// What it is for, or nothing.
    pub help: &'static str,
    /// Planned, and not to be shown.
    pub hidden: bool,
}

/// What an argument says.
#[verifier::ext_equal]
pub struct ArgView {
    pub name: Seq<char>,
    pub kind: ArgKind,
    pub short: Option<char>,
    pub conflicts: Seq<Seq<char>>,
    pub requires: Option<Seq<char>>,
    pub choices: Seq<Seq<char>>,
    pub value_name: Seq<char>,
    pub help: Seq<char>,
    pub hidden: bool,
}

/// The characters of each text of a list.
pub open spec fn str_views(list: Seq<&'static str>) -> Seq<Seq<char>> {
    Seq::new(list.len(), |i: int| list[i]@)
}

impl View for ArgRule {
    type V = ArgView;

    open spec fn view(&self) -> ArgView {
        ArgView {
            name: self.name@,
            kind: self.kind,
            short: self.short,
            conflicts: str_views(self.conflicts@),
            requires: match self.requires {
                Some(other) => Some(other@),
                None => None,
            },
            choices: str_views(self.choices@),
            value_name: self.value_name@,
            help: self.help@,
            hidden: self.hidden,
        }
    }
}

impl ArgView {
    pub open spec fn against(self, others: Seq<Seq<char>>) -> ArgView {
        ArgView { conflicts: others, ..self }
    }

    pub open spec fn needing(self, other: Seq<char>) -> ArgView {
        ArgView { requires: Some(other), ..self }
    }

    pub open spec fn among(self, choices: Seq<Seq<char>>) -> ArgView {
        ArgView { choices, ..self }
    }

    pub open spec fn about(self, value_name: Seq<char>, help: Seq<char>) -> ArgView {
        ArgView { value_name, help, ..self }
    }
}

/// An argument without any rule.
pub open spec fn plain_view(name: Seq<char>, kind: ArgKind) -> ArgView {
    ArgView {
        name,
        kind,
        short: None,
        conflicts: Seq::empty(),
        requires: None,
        choices: Seq::empty(),
        value_name: ""@,
        help: ""@,
        hidden: false,
    }
}

/// A flag that one letter stands for too.
pub open spec fn short_flag_view(name: Seq<char>, letter: char) -> ArgView {
    ArgView { short: Some(letter), ..plain_view(name, ArgKind::Flag) }
}

/// What each argument of a list says.
pub open spec fn arg_views(list: Seq<ArgRule>) -> Seq<ArgView> {
    Seq::new(list.len(), |i: int| list[i]@)
}

fn plain(name: &'static str, kind: ArgKind) -> (r: ArgRule)
    ensures
        r@ == plain_view(name@, kind),
{
    let r = ArgRule {
        name,
        kind,
        short: None,
        conflicts: Vec::new(),
        requires: None,
        choices: Vec::new(),
        value_name: "",
        help: "",
        hidden: false,
    };
    assert(r@ =~= plain_view(name@, kind));
    r
}

fn short_flag(name: &'static str, letter: char) -> (r: ArgRule)
    ensures
        r@ == short_flag_view(name@, letter),
{
    let mut r = plain(name, ArgKind::Flag);
    r.short = Some(letter);
    r
}

fn one(a: &'static str) -> (r: Vec<&'static str>)
    ensures
        str_views(r@) == seq![a@],
{
    let r = vec![a];
    assert(str_views(r@) =~= seq![a@]);
    r
}

fn two(a: &'static str, b: &'static str) -> (r: Vec<&'static str>)
    ensures
        str_views(r@) == seq![a@, b@],
{
    let r = vec![a, b];
    assert(str_views(r@) =~= seq![a@, b@]);
    r
}

fn three(a: &'static str, b: &'static str, c: &'static str) -> (r: Vec<&'static str>)
    ensures
        str_views(r@) == seq![a@, b@, c@],
{
    let r = vec![a, b, c];
    assert(str_views(r@) =~= seq![a@, b@, c@]);
    r
}

fn four(a: &'static str, b: &'static str, c: &'static str, d: &'static str) -> (r: Vec<
    &'static str,
>)
    ensures
        str_views(r@) == seq![a@, b@, c@, d@],
{
    let r = vec![a, b, c, d];
    assert(str_views(r@) =~= seq![a@, b@, c@, d@]);
    r
}

impl ArgRule {
    fn against(self, others: Vec<&'static str>) -> (r: ArgRule)
        ensures
            r@ == self@.against(str_views(others@)),
    {
        let mut r = self;
        r.conflicts = others;
        r
    }

    fn needing(self, other: &'static str) -> (r: ArgRule)
        ensures
            r@ == self@.needing(other@),
    {
        let mut r = self;
        r.requires = Some(other);
        r
    }

    fn among(self, choices: Vec<&'static str>) -> (r: ArgRule)
        ensures
            r@ == self@.among(str_views(choices@)),
    {
        let mut r = self;
        r.choices = choices;
        r
    }

    fn about(self, value_name: &'static str, help: &'static str) -> (r: ArgRule)
        ensures
            r@ == self@.about(value_name@, help@),
    {
        let mut r = self;
        r.value_name = value_name;
        r.help = help;
        r
    }
}

/// A command with its place below others.
#[derive(Clone, Copy, Debug, PartialEq, Eq, Structural)]
pub enum CommandPath {
    Root,
    Doctor,
    Rank,
    Capabilities,
    Roster,
    Demo,
    Replay,
    Eval,
    Ledger,
    LedgerInit,
    LedgerMigrate,
    LedgerStatus,
    LedgerPrune,
    LedgerClear,
    Feedback,
    Observe,
    Hook,
    HookHarness,
    InstallHook,
    InstallHookHarness,
    UninstallHook,
    UninstallHookHarness,
    Stats,
}

/// The name of a command as it is typed.
pub open spec fn path_name(path: CommandPath, harness: Seq<char>) -> Seq<char> {
    match path {
        CommandPath::Root => "sr"@,
        CommandPath::Doctor => "doctor"@,
        CommandPath::Rank => "rank"@,
        CommandPath::Capabilities => "capabilities"@,
        CommandPath::Roster => "roster"@,
        CommandPath::Demo => "demo"@,
        CommandPath::Replay => "replay"@,
        CommandPath::Eval => "eval"@,
        CommandPath::Ledger => "ledger"@,
        CommandPath::LedgerInit => "init"@,
        CommandPath::LedgerMigrate => "migrate"@,
        CommandPath::LedgerStatus => "status"@,
        CommandPath::LedgerPrune => "prune"@,
        CommandPath::LedgerClear => "clear"@,
        CommandPath::Feedback => "feedback"@,
        CommandPath::Observe => "observe"@,
        CommandPath::Hook => "hook"@,
        CommandPath::HookHarness => harness,
        CommandPath::InstallHook => "install-hook"@,
        CommandPath::InstallHookHarness => harness,
        CommandPath::UninstallHook => "uninstall-hook"@,
        CommandPath::UninstallHookHarness => harness,
        CommandPath::Stats => "stats"@,
    }
}

/// The name of a command as it is typed.
pub fn command_name(path: CommandPath, harness: &'static str) -> (r: &'static str)
    ensures
        r@ == path_name(path, harness@),
{
    match path {
        CommandPath::Root => "sr",
        CommandPath::Doctor => "doctor",
        CommandPath::Rank => "rank",
        CommandPath::Capabilities => "capabilities",
        CommandPath::Roster => "roster",
        CommandPath::Demo => "demo",
        CommandPath::Replay => "replay",
        CommandPath::Eval => "eval",
        CommandPath::Ledger => "ledger",
        CommandPath::LedgerInit => "init",
        CommandPath::LedgerMigrate => "migrate",
        CommandPath::LedgerStatus => "status",
        CommandPath::LedgerPrune => "prune",
        CommandPath::LedgerClear => "clear",
        CommandPath::Feedback => "feedback",
        CommandPath::Observe => "observe",
        CommandPath::Hook => "hook",
        CommandPath::HookHarness => harness,
        CommandPath::InstallHook => "install-hook",
        CommandPath::InstallHookHarness => harness,
        CommandPath::UninstallHook => "uninstall-hook",
        CommandPath::UninstallHookHarness => harness,
        CommandPath::Stats => "stats",
    }
}

/// The commands below a command.
pub open spec fn below(path: CommandPath) -> Seq<CommandPath> {
    match path {
        CommandPath::Root => seq![
            CommandPath::Doctor,
            CommandPath::Rank,
            CommandPath::Capabilities,
            CommandPath::Roster,
            CommandPath::Demo,
            CommandPath::Replay,
            CommandPath::Eval,
            CommandPath::Ledger,
            CommandPath::Feedback,
            CommandPath::Observe,
            CommandPath::Hook,
            CommandPath::InstallHook,
            CommandPath::UninstallHook,
            CommandPath::Stats,
        ],
        CommandPath::Ledger => seq![
            CommandPath::LedgerInit,
            CommandPath::LedgerMigrate,
            CommandPath::LedgerStatus,
            CommandPath::LedgerPrune,
            CommandPath::LedgerClear,
        ],
        CommandPath::Hook => seq![
            CommandPath::HookHarness,
        ],
        CommandPath::InstallHook => seq![
            CommandPath::InstallHookHarness,
        ],
        CommandPath::UninstallHook => seq![
            CommandPath::UninstallHookHarness,
        ],
        _ => Seq::empty(),
    }
}

/// The commands below a command.
pub fn subcommands(path: CommandPath) -> (r: Vec<CommandPath>)
    ensures
        r@ == below(path),
{
    match path {
        CommandPath::Root => vec![
            CommandPath::Doctor,
            CommandPath::Rank,
            CommandPath::Capabilities,
            CommandPath::Roster,
            CommandPath::Demo,
            CommandPath::Replay,
            CommandPath::Eval,
            CommandPath::Ledger,
            CommandPath::Feedback,
            CommandPath::Observe,
            CommandPath::Hook,
            CommandPath::InstallHook,
            CommandPath::UninstallHook,
            CommandPath::Stats,
        ],
        CommandPath::Ledger => vec![
            CommandPath::LedgerInit,
            CommandPath::LedgerMigrate,
            CommandPath::LedgerStatus,
            CommandPath::LedgerPrune,
            CommandPath::LedgerClear,
        ],
        CommandPath::Hook => vec![
            CommandPath::HookHarness,
        ],
        CommandPath::InstallHook => vec![
            CommandPath::InstallHookHarness,
        ],
        CommandPath::UninstallHook => vec![
            CommandPath::UninstallHookHarness,
        ],
        _ => Vec::new(),
    }
}

/// The arguments of `sr`.
pub open spec fn root_grammar() -> Seq<ArgView> {
    seq![
        short_flag_view("help"@, 'h'),
        short_flag_view("version"@, 'V').against(seq!["help"@]),
    ]
}

fn root_arguments() -> (r: Vec<ArgRule>)
    ensures
        arg_views(r@) == root_grammar(),
{
    let mut list: Vec<ArgRule> = Vec::new();
    list.push(short_flag("help", 'h'));
    list.push(short_flag("version", 'V').against(one("help")));
    assert(arg_views(list@) =~= root_grammar());
    list
}

/// The arguments of `doctor`.
pub open spec fn doctor_grammar() -> Seq<ArgView> {
    seq![
        short_flag_view("help"@, 'h'),
        plain_view("config"@, ArgKind::Flag),
        plain_view("json"@, ArgKind::Flag).against(seq!["table"@]),
        plain_view("table"@, ArgKind::Flag),
        plain_view("offline"@, ArgKind::Flag),
        plain_view("allow-network"@, ArgKind::Flag),
    ]
}

fn doctor_arguments() -> (r: Vec<ArgRule>)
    ensures
        arg_views(r@) == doctor_grammar(),
{
    let mut list: Vec<ArgRule> = Vec::new();
    list.push(short_flag("help", 'h'));
    list.push(plain("config", ArgKind::Flag));
    list.push(plain("json", ArgKind::Flag).against(one("table")));
    list.push(plain("table", ArgKind::Flag));
    list.push(plain("offline", ArgKind::Flag));
    list.push(plain("allow-network", ArgKind::Flag));
    assert(arg_views(list@) =~= doctor_grammar());
    list
}

/// The arguments of `rank`.
pub open spec fn rank_grammar() -> Seq<ArgView> {
    seq![
        short_flag_view("help"@, 'h'),
        plain_view("context"@, ArgKind::Value).against(seq!["transcript"@, "session"@]),
        plain_view("transcript"@, ArgKind::Value).against(seq!["context"@, "session"@]).needing("harness"@),
        plain_view("harness"@, ArgKind::Value).against(seq!["context"@, "session"@]).needing("transcript"@),
        plain_view("session"@, ArgKind::Value).against(seq!["context"@, "transcript"@, "harness"@]),
        plain_view("latest"@, ArgKind::Flag).against(seq!["context"@, "transcript"@, "session"@]),
        plain_view("roster"@, ArgKind::Value),
        plain_view("require-skill"@, ArgKind::Repeated),
        plain_view("explain"@, ArgKind::Flag),
        plain_view("why-not"@, ArgKind::Value).needing("explain"@),
        plain_view("cursor"@, ArgKind::Value).needing("explain"@),
        plain_view("json"@, ArgKind::Flag).against(seq!["table"@]),
        plain_view("table"@, ArgKind::Flag),
        plain_view("offline"@, ArgKind::Flag).against(seq!["allow-network"@]),
        plain_view("allow-network"@, ArgKind::Flag).against(seq!["offline"@]),
        plain_view("dry-run"@, ArgKind::Flag).against(seq!["allow-network"@, "save-case"@]),
        plain_view("shortlist-ids"@, ArgKind::Listed).needing("dry-run"@).about("ID"@, ""@),
        plain_view("no-cache"@, ArgKind::Flag),
        plain_view("no-ledger"@, ArgKind::Flag),
        plain_view("no-persist"@, ArgKind::Flag).against(seq!["save-case"@]),
        plain_view("save-case"@, ArgKind::Value).against(seq!["dry-run"@, "no-persist"@]).about("FILE"@, "Save a recorded case file atomically to the given path"@),
    ]
}

fn rank_arguments() -> (r: Vec<ArgRule>)
    ensures
        arg_views(r@) == rank_grammar(),
{
    let mut list: Vec<ArgRule> = Vec::new();
    list.push(short_flag("help", 'h'));
    list.push(plain("context", ArgKind::Value).against(two("transcript", "session")));
    list.push(plain("transcript", ArgKind::Value).against(two("context", "session")).needing("harness"));
    list.push(plain("harness", ArgKind::Value).against(two("context", "session")).needing("transcript"));
    list.push(plain("session", ArgKind::Value).against(three("context", "transcript", "harness")));
    list.push(plain("latest", ArgKind::Flag).against(three("context", "transcript", "session")));
    list.push(plain("roster", ArgKind::Value));
    list.push(plain("require-skill", ArgKind::Repeated));
    list.push(plain("explain", ArgKind::Flag));
    list.push(plain("why-not", ArgKind::Value).needing("explain"));
    list.push(plain("cursor", ArgKind::Value).needing("explain"));
    list.push(plain("json", ArgKind::Flag).against(one("table")));
    list.push(plain("table", ArgKind::Flag));
    list.push(plain("offline", ArgKind::Flag).against(one("allow-network")));
    list.push(plain("allow-network", ArgKind::Flag).against(one("offline")));
    list.push(plain("dry-run", ArgKind::Flag).against(two("allow-network", "save-case")));
    list.push(plain("shortlist-ids", ArgKind::Listed).needing("dry-run").about("ID", ""));
    list.push(plain("no-cache", ArgKind::Flag));
    list.push(plain("no-ledger", ArgKind::Flag));
    list.push(plain("no-persist", ArgKind::Flag).against(one("save-case")));
    list.push(plain("save-case", ArgKind::Value).against(two("dry-run", "no-persist")).about("FILE", "Save a recorded case file atomically to the given path"));
    assert(arg_views(list@) =~= rank_grammar());
    list
}

/// The arguments of a command that prints or lists.
pub open spec fn capabilities_grammar() -> Seq<ArgView> {
    seq![
        short_flag_view("help"@, 'h'),
        plain_view("json"@, ArgKind::Flag),
    ]
}

fn capabilities_arguments() -> (r: Vec<ArgRule>)
    ensures
        arg_views(r@) == capabilities_grammar(),
{
    let mut list: Vec<ArgRule> = Vec::new();
    list.push(short_flag("help", 'h'));
    list.push(plain("json", ArgKind::Flag));
    assert(arg_views(list@) =~= capabilities_grammar());
    list
}

/// The arguments of `roster`.
pub open spec fn roster_grammar() -> Seq<ArgView> {
    seq![
        short_flag_view("help"@, 'h'),
        plain_view("json"@, ArgKind::Flag),
        plain_view("limit"@, ArgKind::Value),
        plain_view("cursor"@, ArgKind::Value),
        plain_view("snapshot"@, ArgKind::Value).against(seq!["diff"@, "limit"@, "cursor"@]),
        plain_view("diff"@, ArgKind::Value).against(seq!["limit"@, "cursor"@]),
    ]
}

fn roster_arguments() -> (r: Vec<ArgRule>)
    ensures
        arg_views(r@) == roster_grammar(),
{
    let mut list: Vec<ArgRule> = Vec::new();
    list.push(short_flag("help", 'h'));
    list.push(plain("json", ArgKind::Flag));
    list.push(plain("limit", ArgKind::Value));
    list.push(plain("cursor", ArgKind::Value));
    list.push(plain("snapshot", ArgKind::Value).against(three("diff", "limit", "cursor")));
    list.push(plain("diff", ArgKind::Value).against(two("limit", "cursor")));
    assert(arg_views(list@) =~= roster_grammar());
    list
}

/// The arguments of `demo`.
pub open spec fn demo_grammar() -> Seq<ArgView> {
    seq![
        short_flag_view("help"@, 'h'),
        plain_view("case"@, ArgKind::Value).among(seq!["useful"@, "none"@, "explicit"@, "unavailable"@]),
        plain_view("json"@, ArgKind::Flag).against(seq!["table"@]),
        plain_view("table"@, ArgKind::Flag),
    ]
}

fn demo_arguments() -> (r: Vec<ArgRule>)
    ensures
        arg_views(r@) == demo_grammar(),
{
    let mut list: Vec<ArgRule> = Vec::new();
    list.push(short_flag("help", 'h'));
    list.push(plain("case", ArgKind::Value).among(four("useful", "none", "explicit", "unavailable")));
    list.push(plain("json", ArgKind::Flag).against(one("table")));
    list.push(plain("table", ArgKind::Flag));
    assert(arg_views(list@) =~= demo_grammar());
    list
}

/// The arguments of `replay`.
pub open spec fn replay_grammar() -> Seq<ArgView> {
    seq![
        short_flag_view("help"@, 'h'),
        plain_view("file"@, ArgKind::Positional).about(""@, "Path to the recorded or synthetic case file"@),
        plain_view("policy"@, ArgKind::Value).about("FILE"@, "Path to a local policy override file"@),
        plain_view("compare-policy"@, ArgKind::Value).about("FILE"@, "Path to a comparison policy file"@),
        plain_view("json"@, ArgKind::Flag).against(seq!["table"@]),
        plain_view("table"@, ArgKind::Flag),
    ]
}

fn replay_arguments() -> (r: Vec<ArgRule>)
    ensures
        arg_views(r@) == replay_grammar(),
{
    let mut list: Vec<ArgRule> = Vec::new();
    list.push(short_flag("help", 'h'));
    list.push(plain("file", ArgKind::Positional).about("", "Path to the recorded or synthetic case file"));
    list.push(plain("policy", ArgKind::Value).about("FILE", "Path to a local policy override file"));
    list.push(plain("compare-policy", ArgKind::Value).about("FILE", "Path to a comparison policy file"));
    list.push(plain("json", ArgKind::Flag).against(one("table")));
    list.push(plain("table", ArgKind::Flag));
    assert(arg_views(list@) =~= replay_grammar());
    list
}

/// The arguments of `eval`.
pub open spec fn eval_grammar() -> Seq<ArgView> {
    seq![
        short_flag_view("help"@, 'h'),
        plain_view("dataset"@, ArgKind::Value).about("FILE"@, "Path to the evaluation dataset (JSONL / JSON)"@),
        plain_view("labels"@, ArgKind::Value).against(seq!["policy"@, "compare-policy"@, "timeout-ms"@]).about("FILE"@, "Independent judged labels; the dataset is then a labeled case frame"@),
        plain_view("sample-size"@, ArgKind::Value).needing("labels"@).about("N"@, "Freeze a stratified sample of N task-family representatives"@),
        plain_view("online"@, ArgKind::Flag).needing("labels"@).about(""@, "Rank the labeled cases fresh with Jev (needs network authorization and --max-requests)"@),
        plain_view("robustness"@, ArgKind::Flag).needing("online"@).about(""@, "Also rank whitespace, distraction and hostile-instruction variants of each judged case on leftover budget"@),
        plain_view("max-requests"@, ArgKind::Value).needing("online"@).about("N"@, "Maximum HTTP attempts across the live batch, retries included"@),
        plain_view("explain"@, ArgKind::Flag).about(""@, "Include equations, substituted values, assumptions and interpretation"@),
        plain_view("seed"@, ArgKind::Value).needing("sample-size"@).about("S"@, "Reproduce a diagnostic selection instead of a fresh OS-random seed"@),
        plain_view("allow-network"@, ArgKind::Flag).about(""@, "Explicit network authorization consent"@),
        plain_view("max-runtime-ms"@, ArgKind::Value).about("MS"@, "Maximum runtime deadline for the batch in milliseconds"@),
        plain_view("timeout-ms"@, ArgKind::Value).about("MS"@, "Optional per-case deadline in milliseconds"@),
        plain_view("policy"@, ArgKind::Value).about("FILE"@, "Path to a local policy override file"@),
        plain_view("compare-policy"@, ArgKind::Value).about("FILE"@, "Path to a comparison policy file"@),
        plain_view("json"@, ArgKind::Flag).against(seq!["table"@]),
        plain_view("table"@, ArgKind::Flag),
    ]
}

fn eval_arguments() -> (r: Vec<ArgRule>)
    ensures
        arg_views(r@) == eval_grammar(),
{
    let mut list: Vec<ArgRule> = Vec::new();
    list.push(short_flag("help", 'h'));
    list.push(plain("dataset", ArgKind::Value).about("FILE", "Path to the evaluation dataset (JSONL / JSON)"));
    list.push(plain("labels", ArgKind::Value).against(three("policy", "compare-policy", "timeout-ms")).about("FILE", "Independent judged labels; the dataset is then a labeled case frame"));
    list.push(plain("sample-size", ArgKind::Value).needing("labels").about("N", "Freeze a stratified sample of N task-family representatives"));
    list.push(plain("online", ArgKind::Flag).needing("labels").about("", "Rank the labeled cases fresh with Jev (needs network authorization and --max-requests)"));
    list.push(plain("robustness", ArgKind::Flag).needing("online").about("", "Also rank whitespace, distraction and hostile-instruction variants of each judged case on leftover budget"));
    list.push(plain("max-requests", ArgKind::Value).needing("online").about("N", "Maximum HTTP attempts across the live batch, retries included"));
    list.push(plain("explain", ArgKind::Flag).about("", "Include equations, substituted values, assumptions and interpretation"));
    list.push(plain("seed", ArgKind::Value).needing("sample-size").about("S", "Reproduce a diagnostic selection instead of a fresh OS-random seed"));
    list.push(plain("allow-network", ArgKind::Flag).about("", "Explicit network authorization consent"));
    list.push(plain("max-runtime-ms", ArgKind::Value).about("MS", "Maximum runtime deadline for the batch in milliseconds"));
    list.push(plain("timeout-ms", ArgKind::Value).about("MS", "Optional per-case deadline in milliseconds"));
    list.push(plain("policy", ArgKind::Value).about("FILE", "Path to a local policy override file"));
    list.push(plain("compare-policy", ArgKind::Value).about("FILE", "Path to a comparison policy file"));
    list.push(plain("json", ArgKind::Flag).against(one("table")));
    list.push(plain("table", ArgKind::Flag));
    assert(arg_views(list@) =~= eval_grammar());
    list
}

/// The arguments of creating a ledger or showing its state.
pub open spec fn ledger_store_grammar() -> Seq<ArgView> {
    seq![
        short_flag_view("help"@, 'h'),
        plain_view("json"@, ArgKind::Flag),
        plain_view("dir"@, ArgKind::Value).about(""@, "Custom ledger directory"@),
    ]
}

fn ledger_store_arguments() -> (r: Vec<ArgRule>)
    ensures
        arg_views(r@) == ledger_store_grammar(),
{
    let mut list: Vec<ArgRule> = Vec::new();
    list.push(short_flag("help", 'h'));
    list.push(plain("json", ArgKind::Flag));
    list.push(plain("dir", ArgKind::Value).about("", "Custom ledger directory"));
    assert(arg_views(list@) =~= ledger_store_grammar());
    list
}

/// The arguments of `ledger migrate`.
pub open spec fn ledger_migrate_grammar() -> Seq<ArgView> {
    seq![
        short_flag_view("help"@, 'h'),
        plain_view("apply"@, ArgKind::Flag).about(""@, "Apply migrations after backup"@),
        plain_view("json"@, ArgKind::Flag),
        plain_view("dir"@, ArgKind::Value).about(""@, "Custom ledger directory"@),
    ]
}

fn ledger_migrate_arguments() -> (r: Vec<ArgRule>)
    ensures
        arg_views(r@) == ledger_migrate_grammar(),
{
    let mut list: Vec<ArgRule> = Vec::new();
    list.push(short_flag("help", 'h'));
    list.push(plain("apply", ArgKind::Flag).about("", "Apply migrations after backup"));
    list.push(plain("json", ArgKind::Flag));
    list.push(plain("dir", ArgKind::Value).about("", "Custom ledger directory"));
    assert(arg_views(list@) =~= ledger_migrate_grammar());
    list
}

/// The arguments of `ledger prune`.
pub open spec fn ledger_prune_grammar() -> Seq<ArgView> {
    seq![
        short_flag_view("help"@, 'h'),
        plain_view("before"@, ArgKind::Value).about(""@, "Cutoff date (YYYY-MM-DD), timestamp, or duration (30d)"@),
        plain_view("apply"@, ArgKind::Flag).about(""@, "Apply the retention cleanup"@),
        plain_view("json"@, ArgKind::Flag),
        plain_view("dir"@, ArgKind::Value).about(""@, "Custom ledger directory"@),
    ]
}

fn ledger_prune_arguments() -> (r: Vec<ArgRule>)
    ensures
        arg_views(r@) == ledger_prune_grammar(),
{
    let mut list: Vec<ArgRule> = Vec::new();
    list.push(short_flag("help", 'h'));
    list.push(plain("before", ArgKind::Value).about("", "Cutoff date (YYYY-MM-DD), timestamp, or duration (30d)"));
    list.push(plain("apply", ArgKind::Flag).about("", "Apply the retention cleanup"));
    list.push(plain("json", ArgKind::Flag));
    list.push(plain("dir", ArgKind::Value).about("", "Custom ledger directory"));
    assert(arg_views(list@) =~= ledger_prune_grammar());
    list
}

/// The arguments of `ledger clear`.
pub open spec fn ledger_clear_grammar() -> Seq<ArgView> {
    seq![
        short_flag_view("help"@, 'h'),
        plain_view("apply"@, ArgKind::Flag).about(""@, "Apply clearing all history"@),
        plain_view("json"@, ArgKind::Flag),
        plain_view("dir"@, ArgKind::Value).about(""@, "Custom ledger directory"@),
    ]
}

fn ledger_clear_arguments() -> (r: Vec<ArgRule>)
    ensures
        arg_views(r@) == ledger_clear_grammar(),
{
    let mut list: Vec<ArgRule> = Vec::new();
    list.push(short_flag("help", 'h'));
    list.push(plain("apply", ArgKind::Flag).about("", "Apply clearing all history"));
    list.push(plain("json", ArgKind::Flag));
    list.push(plain("dir", ArgKind::Value).about("", "Custom ledger directory"));
    assert(arg_views(list@) =~= ledger_clear_grammar());
    list
}

/// The arguments of `feedback`.
pub open spec fn feedback_grammar() -> Seq<ArgView> {
    seq![
        short_flag_view("help"@, 'h'),
        plain_view("event_id"@, ArgKind::Positional).about(""@, "Attributed ranking event ID"@),
        plain_view("event"@, ArgKind::Value).about(""@, "Attributed ranking event ID"@),
        plain_view("skill"@, ArgKind::Value).about(""@, "Original target skill ID"@),
        plain_view("instead"@, ArgKind::Value).about(""@, "Better alternative skill ID for paired correction"@),
        plain_view("verdict"@, ArgKind::Value).about(""@, "Single skill judgment verdict (useful, not-useful, or unknown)"@),
        plain_view("reason"@, ArgKind::Value).about(""@, "Optional bounded reason code"@),
        plain_view("provenance"@, ArgKind::Value).about(""@, "Optional user provenance or tag"@),
        plain_view("expected-version"@, ArgKind::Value).about(""@, "Expected schema/data generation for revision fencing"@),
        plain_view("dir"@, ArgKind::Value).about(""@, "Custom ledger directory"@),
        plain_view("json"@, ArgKind::Flag),
    ]
}

fn feedback_arguments() -> (r: Vec<ArgRule>)
    ensures
        arg_views(r@) == feedback_grammar(),
{
    let mut list: Vec<ArgRule> = Vec::new();
    list.push(short_flag("help", 'h'));
    list.push(plain("event_id", ArgKind::Positional).about("", "Attributed ranking event ID"));
    list.push(plain("event", ArgKind::Value).about("", "Attributed ranking event ID"));
    list.push(plain("skill", ArgKind::Value).about("", "Original target skill ID"));
    list.push(plain("instead", ArgKind::Value).about("", "Better alternative skill ID for paired correction"));
    list.push(plain("verdict", ArgKind::Value).about("", "Single skill judgment verdict (useful, not-useful, or unknown)"));
    list.push(plain("reason", ArgKind::Value).about("", "Optional bounded reason code"));
    list.push(plain("provenance", ArgKind::Value).about("", "Optional user provenance or tag"));
    list.push(plain("expected-version", ArgKind::Value).about("", "Expected schema/data generation for revision fencing"));
    list.push(plain("dir", ArgKind::Value).about("", "Custom ledger directory"));
    list.push(plain("json", ArgKind::Flag));
    assert(arg_views(list@) =~= feedback_grammar());
    list
}

/// The arguments of `observe`.
pub open spec fn observe_grammar() -> Seq<ArgView> {
    seq![
        short_flag_view("help"@, 'h'),
        plain_view("context"@, ArgKind::Value).against(seq!["transcript"@, "session"@]),
        plain_view("transcript"@, ArgKind::Value).against(seq!["context"@, "session"@]).needing("harness"@),
        plain_view("harness"@, ArgKind::Value).against(seq!["context"@, "session"@]).needing("transcript"@),
        plain_view("session"@, ArgKind::Value).against(seq!["context"@, "transcript"@, "harness"@]),
        plain_view("branch"@, ArgKind::Value),
        plain_view("roster"@, ArgKind::Value),
        plain_view("dir"@, ArgKind::Value),
        plain_view("json"@, ArgKind::Flag),
        plain_view("no-ledger"@, ArgKind::Flag),
        plain_view("no-persist"@, ArgKind::Flag),
    ]
}

fn observe_arguments() -> (r: Vec<ArgRule>)
    ensures
        arg_views(r@) == observe_grammar(),
{
    let mut list: Vec<ArgRule> = Vec::new();
    list.push(short_flag("help", 'h'));
    list.push(plain("context", ArgKind::Value).against(two("transcript", "session")));
    list.push(plain("transcript", ArgKind::Value).against(two("context", "session")).needing("harness"));
    list.push(plain("harness", ArgKind::Value).against(two("context", "session")).needing("transcript"));
    list.push(plain("session", ArgKind::Value).against(three("context", "transcript", "harness")));
    list.push(plain("branch", ArgKind::Value));
    list.push(plain("roster", ArgKind::Value));
    list.push(plain("dir", ArgKind::Value));
    list.push(plain("json", ArgKind::Flag));
    list.push(plain("no-ledger", ArgKind::Flag));
    list.push(plain("no-persist", ArgKind::Flag));
    assert(arg_views(list@) =~= observe_grammar());
    list
}

/// The arguments of a command that names a harness.
pub open spec fn harness_grammar() -> Seq<ArgView> {
    seq![
        short_flag_view("help"@, 'h'),
    ]
}

fn harness_arguments() -> (r: Vec<ArgRule>)
    ensures
        arg_views(r@) == harness_grammar(),
{
    let mut list: Vec<ArgRule> = Vec::new();
    list.push(short_flag("help", 'h'));
    assert(arg_views(list@) =~= harness_grammar());
    list
}

/// The arguments of the hook of a harness.
pub open spec fn hook_harness_grammar() -> Seq<ArgView> {
    seq![
        short_flag_view("help"@, 'h'),
        plain_view("shadow"@, ArgKind::Flag),
        plain_view("dir"@, ArgKind::Value),
        plain_view("workspace"@, ArgKind::Value),
        plain_view("user-config-root"@, ArgKind::Value),
        plain_view("allow-network"@, ArgKind::Flag).against(seq!["offline"@]),
        plain_view("offline"@, ArgKind::Flag).against(seq!["allow-network"@]),
        plain_view("no-cache"@, ArgKind::Flag),
        plain_view("no-ledger"@, ArgKind::Flag),
        plain_view("no-persist"@, ArgKind::Flag),
        plain_view("timeout-ms"@, ArgKind::Value),
    ]
}

fn hook_harness_arguments() -> (r: Vec<ArgRule>)
    ensures
        arg_views(r@) == hook_harness_grammar(),
{
    let mut list: Vec<ArgRule> = Vec::new();
    list.push(short_flag("help", 'h'));
    list.push(plain("shadow", ArgKind::Flag));
    list.push(plain("dir", ArgKind::Value));
    list.push(plain("workspace", ArgKind::Value));
    list.push(plain("user-config-root", ArgKind::Value));
    list.push(plain("allow-network", ArgKind::Flag).against(one("offline")));
    list.push(plain("offline", ArgKind::Flag).against(one("allow-network")));
    list.push(plain("no-cache", ArgKind::Flag));
    list.push(plain("no-ledger", ArgKind::Flag));
    list.push(plain("no-persist", ArgKind::Flag));
    list.push(plain("timeout-ms", ArgKind::Value));
    assert(arg_views(list@) =~= hook_harness_grammar());
    list
}

/// The arguments of installing and removing a hook. `settings` and
/// `settings-file` name the same file.
pub open spec fn hook_entry_grammar() -> Seq<ArgView> {
    seq![
        short_flag_view("help"@, 'h'),
        plain_view("apply"@, ArgKind::Flag),
        plain_view("settings"@, ArgKind::Value).against(seq!["settings-file"@]),
        plain_view("settings-file"@, ArgKind::Value),
        plain_view("target-dir"@, ArgKind::Value),
        plain_view("timeout-secs"@, ArgKind::Value),
        plain_view("binary-path"@, ArgKind::Value),
        plain_view("json"@, ArgKind::Flag),
    ]
}

fn hook_entry_arguments() -> (r: Vec<ArgRule>)
    ensures
        arg_views(r@) == hook_entry_grammar(),
{
    let mut list: Vec<ArgRule> = Vec::new();
    list.push(short_flag("help", 'h'));
    list.push(plain("apply", ArgKind::Flag));
    list.push(plain("settings", ArgKind::Value).against(one("settings-file")));
    list.push(plain("settings-file", ArgKind::Value));
    list.push(plain("target-dir", ArgKind::Value));
    list.push(plain("timeout-secs", ArgKind::Value));
    list.push(plain("binary-path", ArgKind::Value));
    list.push(plain("json", ArgKind::Flag));
    assert(arg_views(list@) =~= hook_entry_grammar());
    list
}

/// The arguments of `stats`.
pub open spec fn stats_grammar() -> Seq<ArgView> {
    seq![
        short_flag_view("help"@, 'h'),
        plain_view("since"@, ArgKind::Value).about("DURATION"@, "Time window cutoff, e.g. 7d, 24h, 30m, or ISO timestamp"@),
        plain_view("by-skill"@, ArgKind::Flag).about(""@, "Break down metrics per skill"@),
        plain_view("dir"@, ArgKind::Value).about(""@, "Custom ledger directory"@),
        plain_view("json"@, ArgKind::Flag).against(seq!["table"@]),
        plain_view("table"@, ArgKind::Flag),
    ]
}

fn stats_arguments() -> (r: Vec<ArgRule>)
    ensures
        arg_views(r@) == stats_grammar(),
{
    let mut list: Vec<ArgRule> = Vec::new();
    list.push(short_flag("help", 'h'));
    list.push(plain("since", ArgKind::Value).about("DURATION", "Time window cutoff, e.g. 7d, 24h, 30m, or ISO timestamp"));
    list.push(plain("by-skill", ArgKind::Flag).about("", "Break down metrics per skill"));
    list.push(plain("dir", ArgKind::Value).about("", "Custom ledger directory"));
    list.push(plain("json", ArgKind::Flag).against(one("table")));
    list.push(plain("table", ArgKind::Flag));
    assert(arg_views(list@) =~= stats_grammar());
    list
}

/// The arguments of a command, before those of the settings and the planned
/// ones.
pub open spec fn grammar(path: CommandPath) -> Seq<ArgView> {
    match path {
        CommandPath::Root => root_grammar(),
        CommandPath::Doctor => doctor_grammar(),
        CommandPath::Rank => rank_grammar(),
        CommandPath::Capabilities => capabilities_grammar(),
        CommandPath::Roster => roster_grammar(),
        CommandPath::Demo => demo_grammar(),
        CommandPath::Replay => replay_grammar(),
        CommandPath::Eval => eval_grammar(),
        CommandPath::Ledger => capabilities_grammar(),
        CommandPath::LedgerInit => ledger_store_grammar(),
        CommandPath::LedgerMigrate => ledger_migrate_grammar(),
        CommandPath::LedgerStatus => ledger_store_grammar(),
        CommandPath::LedgerPrune => ledger_prune_grammar(),
        CommandPath::LedgerClear => ledger_clear_grammar(),
        CommandPath::Feedback => feedback_grammar(),
        CommandPath::Observe => observe_grammar(),
        CommandPath::Hook => harness_grammar(),
        CommandPath::HookHarness => hook_harness_grammar(),
        CommandPath::InstallHook => harness_grammar(),
        CommandPath::InstallHookHarness => hook_entry_grammar(),
        CommandPath::UninstallHook => harness_grammar(),
        CommandPath::UninstallHookHarness => hook_entry_grammar(),
        CommandPath::Stats => stats_grammar(),
    }
}

/// The arguments of a command, before those of the settings and the planned
/// ones.
pub fn arguments(path: CommandPath) -> (r: Vec<ArgRule>)
    ensures
        arg_views(r@) == grammar(path),
{
    match path {
        CommandPath::Root => root_arguments(),
        CommandPath::Doctor => doctor_arguments(),
        CommandPath::Rank => rank_arguments(),
        CommandPath::Capabilities => capabilities_arguments(),
        CommandPath::Roster => roster_arguments(),
        CommandPath::Demo => demo_arguments(),
        CommandPath::Replay => replay_arguments(),
        CommandPath::Eval => eval_arguments(),
        CommandPath::Ledger => capabilities_arguments(),
        CommandPath::LedgerInit => ledger_store_arguments(),
        CommandPath::LedgerMigrate => ledger_migrate_arguments(),
        CommandPath::LedgerStatus => ledger_store_arguments(),
        CommandPath::LedgerPrune => ledger_prune_arguments(),
        CommandPath::LedgerClear => ledger_clear_arguments(),
        CommandPath::Feedback => feedback_arguments(),
        CommandPath::Observe => observe_arguments(),
        CommandPath::Hook => harness_arguments(),
        CommandPath::HookHarness => hook_harness_arguments(),
        CommandPath::InstallHook => harness_arguments(),
        CommandPath::InstallHookHarness => hook_entry_arguments(),
        CommandPath::UninstallHook => harness_arguments(),
        CommandPath::UninstallHookHarness => hook_entry_arguments(),
        CommandPath::Stats => stats_arguments(),
    }
}

/// The argument that gives a setting: two are flags, any other takes a value.
pub open spec fn setting_view(flag: Seq<char>) -> ArgView {
    plain_view(
        flag,
        if flag == "shadow"@ || flag == "no-tools"@ {
            ArgKind::Flag
        } else {
            ArgKind::Value
        },
    )
}

/// The argument that gives a setting.
pub fn setting_argument(flag: &'static str) -> (r: ArgRule)
    ensures
        r@ == setting_view(flag@),
{
    if text::eq(flag, "shadow") || text::eq(flag, "no-tools") {
        plain(flag, ArgKind::Flag)
    } else {
        plain(flag, ArgKind::Value)
    }
}

/// A planned argument: known, so that it can be answered, and not shown.
pub fn planned_argument(flag: &'static str, takes_value: bool) -> (r: ArgRule)
    ensures
        r@ == (ArgView {
            hidden: true,
            ..plain_view(
                flag@,
                if takes_value {
                    ArgKind::Value
                } else {
                    ArgKind::Flag
                },
            )
        }),
{
    let mut r = if takes_value {
        plain(flag, ArgKind::Value)
    } else {
        plain(flag, ArgKind::Flag)
    };
    r.hidden = true;
    r
}

/// Whether one of some arguments has a name.
pub open spec fn takes(list: Seq<ArgView>, name: Seq<char>) -> bool {
    exists|i: int| 0 <= i < list.len() && (#[trigger] list[i]).name == name
}

/// Whether the rules of an argument speak of other arguments of its command
/// only.
pub open spec fn rules_hold(list: Seq<ArgView>, i: int) -> bool {
    &&& forall|k: int|
        0 <= k < list[i].conflicts.len() ==> takes(list, #[trigger] list[i].conflicts[k])
            && list[i].conflicts[k] != list[i].name
    &&& list[i].requires is Some ==> takes(list, list[i].requires->0) && list[i].requires->0
        != list[i].name
}

/// Whether the arguments of a command are coherent: no name occurs twice, and
/// each rule speaks of another argument that the command takes.
pub open spec fn coherent(list: Seq<ArgView>) -> bool {
    &&& forall|i: int, j: int|
        0 <= i < j < list.len() ==> (#[trigger] list[i]).name != (#[trigger] list[j]).name
    &&& forall|i: int| 0 <= i < list.len() ==> #[trigger] rules_hold(list, i)
}

fn takes_name(list: &Vec<ArgRule>, name: &str) -> (r: bool)
    ensures
        r == takes(arg_views(list@), name@),
{
    let mut i: usize = 0;
    while i < list.len()
        invariant
            i <= list@.len(),
            forall|j: int| 0 <= j < i ==> (#[trigger] arg_views(list@)[j]).name != name@,
        decreases list@.len() - i,
    {
        if text::eq(list[i].name, name) {
            assert(arg_views(list@)[i as int].name == name@);
            return true;
        }
        i = i + 1;
    }
    false
}

fn check_rules(list: &Vec<ArgRule>, i: usize) -> (r: bool)
    requires
        i < list@.len(),
    ensures
        r == rules_hold(arg_views(list@), i as int),
{
    let ghost all = arg_views(list@);
    let rule: &ArgRule = &list[i];
    assert(all[i as int] == rule@);
    let mut k: usize = 0;
    while k < rule.conflicts.len()
        invariant
            k <= rule.conflicts@.len(),
            i < list@.len(),
            all == arg_views(list@),
            rule == list@[i as int],
            all[i as int] == rule@,
            forall|j: int|
                0 <= j < k ==> takes(all, #[trigger] all[i as int].conflicts[j])
                    && all[i as int].conflicts[j] != all[i as int].name,
        decreases rule.conflicts@.len() - k,
    {
        let other: &'static str = rule.conflicts[k];
        assert(all[i as int].conflicts[k as int] == other@);
        if text::eq(other, rule.name) || !takes_name(list, other) {
            return false;
        }
        k = k + 1;
    }
    match rule.requires {
        Some(other) => !text::eq(other, rule.name) && takes_name(list, other),
        None => true,
    }
}

/// Whether the arguments of a command are coherent.
pub fn is_coherent(list: &Vec<ArgRule>) -> (r: bool)
    ensures
        r == coherent(arg_views(list@)),
{
    let ghost all = arg_views(list@);
    let mut i: usize = 0;
    while i < list.len()
        invariant
            i <= list@.len(),
            all == arg_views(list@),
            forall|a: int, b: int|
                0 <= a < b < all.len() && a < i ==> (#[trigger] all[a]).name != (
                #[trigger] all[b]).name,
            forall|a: int| 0 <= a < i ==> #[trigger] rules_hold(all, a),
        decreases list@.len() - i,
    {
        let mut j: usize = i + 1;
        while j < list.len()
            invariant
                i < j <= list@.len(),
                all == arg_views(list@),
                forall|b: int| i < b < j ==> all[i as int].name != (#[trigger] all[b]).name,
            decreases list@.len() - j,
        {
            if text::eq(list[i].name, list[j].name) {
                assert(all[i as int].name == all[j as int].name);
                return false;
            }
            j = j + 1;
        }
        if !check_rules(list, i) {
            return false;
        }
        i = i + 1;
    }
    true
}

/// Whether an argument of a command is accepted only beside another.
pub open spec fn needs(list: Seq<ArgView>, name: Seq<char>, other: Seq<char>) -> bool {
    exists|i: int|
        0 <= i < list.len() && (#[trigger] list[i]).name == name && list[i].requires == Some(other)
}

/// Whether an argument of a command is refused beside another.
pub open spec fn excludes(list: Seq<ArgView>, name: Seq<char>, other: Seq<char>) -> bool {
    exists|i: int|
        0 <= i < list.len() && (#[trigger] list[i]).name == name && list[i].conflicts.contains(
            other,
        )
}

/// Every command takes the flag for help first, by its name or its letter.
pub proof fn lemma_every_command_takes_help(path: CommandPath)
    ensures
        grammar(path).len() > 0,
        grammar(path)[0].name == "help"@,
        grammar(path)[0].kind is Flag,
        grammar(path)[0].short == Some('h'),
        grammar(path)[0].conflicts.len() == 0 && grammar(path)[0].requires is None,
{
}

/// No command that offers both prints a document and a table at once.
pub proof fn lemma_one_form_of_output()
    ensures
        excludes(grammar(CommandPath::Doctor), "json"@, "table"@),
        excludes(grammar(CommandPath::Rank), "json"@, "table"@),
        excludes(grammar(CommandPath::Demo), "json"@, "table"@),
        excludes(grammar(CommandPath::Replay), "json"@, "table"@),
        excludes(grammar(CommandPath::Eval), "json"@, "table"@),
        excludes(grammar(CommandPath::Stats), "json"@, "table"@),
{
    assert(grammar(CommandPath::Doctor)[2].name == "json"@);
    assert(grammar(CommandPath::Doctor)[2].conflicts[0] == "table"@);
    assert(grammar(CommandPath::Rank)[11].name == "json"@);
    assert(grammar(CommandPath::Rank)[11].conflicts[0] == "table"@);
    assert(grammar(CommandPath::Demo)[2].name == "json"@);
    assert(grammar(CommandPath::Demo)[2].conflicts[0] == "table"@);
    assert(grammar(CommandPath::Replay)[4].name == "json"@);
    assert(grammar(CommandPath::Replay)[4].conflicts[0] == "table"@);
    assert(grammar(CommandPath::Eval)[14].name == "json"@);
    assert(grammar(CommandPath::Eval)[14].conflicts[0] == "table"@);
    assert(grammar(CommandPath::Stats)[4].name == "json"@);
    assert(grammar(CommandPath::Stats)[4].conflicts[0] == "table"@);
}

/// A ranking and an observation read one source: a context, a transcript or a
/// session. A transcript and its harness come together.
pub proof fn lemma_one_source_of_a_session()
    ensures
        excludes(grammar(CommandPath::Rank), "context"@, "transcript"@),
        excludes(grammar(CommandPath::Rank), "context"@, "session"@),
        excludes(grammar(CommandPath::Rank), "transcript"@, "session"@),
        excludes(grammar(CommandPath::Rank), "latest"@, "context"@),
        excludes(grammar(CommandPath::Rank), "latest"@, "transcript"@),
        excludes(grammar(CommandPath::Rank), "latest"@, "session"@),
        needs(grammar(CommandPath::Rank), "transcript"@, "harness"@),
        needs(grammar(CommandPath::Rank), "harness"@, "transcript"@),
        excludes(grammar(CommandPath::Observe), "context"@, "transcript"@),
        excludes(grammar(CommandPath::Observe), "context"@, "session"@),
        excludes(grammar(CommandPath::Observe), "transcript"@, "session"@),
        needs(grammar(CommandPath::Observe), "transcript"@, "harness"@),
        needs(grammar(CommandPath::Observe), "harness"@, "transcript"@),
{
    assert(grammar(CommandPath::Rank)[1].name == "context"@);
    assert(grammar(CommandPath::Rank)[1].conflicts[0] == "transcript"@);
    assert(grammar(CommandPath::Rank)[1].name == "context"@);
    assert(grammar(CommandPath::Rank)[1].conflicts[1] == "session"@);
    assert(grammar(CommandPath::Rank)[2].name == "transcript"@);
    assert(grammar(CommandPath::Rank)[2].conflicts[1] == "session"@);
    assert(grammar(CommandPath::Rank)[5].name == "latest"@);
    assert(grammar(CommandPath::Rank)[5].conflicts[0] == "context"@);
    assert(grammar(CommandPath::Rank)[5].name == "latest"@);
    assert(grammar(CommandPath::Rank)[5].conflicts[1] == "transcript"@);
    assert(grammar(CommandPath::Rank)[5].name == "latest"@);
    assert(grammar(CommandPath::Rank)[5].conflicts[2] == "session"@);
    assert(grammar(CommandPath::Rank)[2].name == "transcript"@);
    assert(grammar(CommandPath::Rank)[3].name == "harness"@);
    assert(grammar(CommandPath::Observe)[1].name == "context"@);
    assert(grammar(CommandPath::Observe)[1].conflicts[0] == "transcript"@);
    assert(grammar(CommandPath::Observe)[1].name == "context"@);
    assert(grammar(CommandPath::Observe)[1].conflicts[1] == "session"@);
    assert(grammar(CommandPath::Observe)[2].name == "transcript"@);
    assert(grammar(CommandPath::Observe)[2].conflicts[1] == "session"@);
    assert(grammar(CommandPath::Observe)[2].name == "transcript"@);
    assert(grammar(CommandPath::Observe)[3].name == "harness"@);
}

/// A ranking and a hook are not both allowed the network and kept off it, and a dry
/// run is neither allowed it nor saved. What is not to persist is not saved.
pub proof fn lemma_network_is_allowed_or_not()
    ensures
        excludes(grammar(CommandPath::Rank), "offline"@, "allow-network"@),
        excludes(grammar(CommandPath::HookHarness), "allow-network"@, "offline"@),
        excludes(grammar(CommandPath::Rank), "dry-run"@, "allow-network"@),
        excludes(grammar(CommandPath::Rank), "dry-run"@, "save-case"@),
        excludes(grammar(CommandPath::Rank), "no-persist"@, "save-case"@),
{
    assert(grammar(CommandPath::Rank)[13].name == "offline"@);
    assert(grammar(CommandPath::Rank)[13].conflicts[0] == "allow-network"@);
    assert(grammar(CommandPath::HookHarness)[5].name == "allow-network"@);
    assert(grammar(CommandPath::HookHarness)[5].conflicts[0] == "offline"@);
    assert(grammar(CommandPath::Rank)[15].name == "dry-run"@);
    assert(grammar(CommandPath::Rank)[15].conflicts[0] == "allow-network"@);
    assert(grammar(CommandPath::Rank)[15].name == "dry-run"@);
    assert(grammar(CommandPath::Rank)[15].conflicts[1] == "save-case"@);
    assert(grammar(CommandPath::Rank)[19].name == "no-persist"@);
    assert(grammar(CommandPath::Rank)[19].conflicts[0] == "save-case"@);
}

/// Asking why a skill is absent, or for more of a trace, needs an explanation, and
/// naming a shortlist needs a dry run.
pub proof fn lemma_what_ranking_options_need()
    ensures
        needs(grammar(CommandPath::Rank), "why-not"@, "explain"@),
        needs(grammar(CommandPath::Rank), "cursor"@, "explain"@),
        needs(grammar(CommandPath::Rank), "shortlist-ids"@, "dry-run"@),
{
    assert(grammar(CommandPath::Rank)[9].name == "why-not"@);
    assert(grammar(CommandPath::Rank)[10].name == "cursor"@);
    assert(grammar(CommandPath::Rank)[16].name == "shortlist-ids"@);
}

/// A sample and a live batch need labels, a seed needs a sample, and a cap on requests
/// and variants need a live batch. A labeled evaluation takes no policies of a replay.
pub proof fn lemma_what_evaluation_options_need()
    ensures
        needs(grammar(CommandPath::Eval), "sample-size"@, "labels"@),
        needs(grammar(CommandPath::Eval), "online"@, "labels"@),
        needs(grammar(CommandPath::Eval), "seed"@, "sample-size"@),
        needs(grammar(CommandPath::Eval), "max-requests"@, "online"@),
        needs(grammar(CommandPath::Eval), "robustness"@, "online"@),
        excludes(grammar(CommandPath::Eval), "labels"@, "policy"@),
        excludes(grammar(CommandPath::Eval), "labels"@, "compare-policy"@),
        excludes(grammar(CommandPath::Eval), "labels"@, "timeout-ms"@),
{
    assert(grammar(CommandPath::Eval)[3].name == "sample-size"@);
    assert(grammar(CommandPath::Eval)[4].name == "online"@);
    assert(grammar(CommandPath::Eval)[8].name == "seed"@);
    assert(grammar(CommandPath::Eval)[6].name == "max-requests"@);
    assert(grammar(CommandPath::Eval)[5].name == "robustness"@);
    assert(grammar(CommandPath::Eval)[2].name == "labels"@);
    assert(grammar(CommandPath::Eval)[2].conflicts[0] == "policy"@);
    assert(grammar(CommandPath::Eval)[2].name == "labels"@);
    assert(grammar(CommandPath::Eval)[2].conflicts[1] == "compare-policy"@);
    assert(grammar(CommandPath::Eval)[2].name == "labels"@);
    assert(grammar(CommandPath::Eval)[2].conflicts[2] == "timeout-ms"@);
}

/// A roster is saved, compared or paged through, one at a time.
pub proof fn lemma_listings_are_paged_saved_or_compared()
    ensures
        excludes(grammar(CommandPath::Roster), "snapshot"@, "diff"@),
        excludes(grammar(CommandPath::Roster), "snapshot"@, "limit"@),
        excludes(grammar(CommandPath::Roster), "snapshot"@, "cursor"@),
        excludes(grammar(CommandPath::Roster), "diff"@, "limit"@),
        excludes(grammar(CommandPath::Roster), "diff"@, "cursor"@),
        excludes(grammar(CommandPath::InstallHookHarness), "settings"@, "settings-file"@),
        excludes(grammar(CommandPath::UninstallHookHarness), "settings"@, "settings-file"@),
        excludes(grammar(CommandPath::Root), "version"@, "help"@),
{
    assert(grammar(CommandPath::Roster)[4].name == "snapshot"@);
    assert(grammar(CommandPath::Roster)[4].conflicts[0] == "diff"@);
    assert(grammar(CommandPath::Roster)[4].name == "snapshot"@);
    assert(grammar(CommandPath::Roster)[4].conflicts[1] == "limit"@);
    assert(grammar(CommandPath::Roster)[4].name == "snapshot"@);
    assert(grammar(CommandPath::Roster)[4].conflicts[2] == "cursor"@);
    assert(grammar(CommandPath::Roster)[5].name == "diff"@);
    assert(grammar(CommandPath::Roster)[5].conflicts[0] == "limit"@);
    assert(grammar(CommandPath::Roster)[5].name == "diff"@);
    assert(grammar(CommandPath::Roster)[5].conflicts[1] == "cursor"@);
    assert(grammar(CommandPath::InstallHookHarness)[2].name == "settings"@);
    assert(grammar(CommandPath::InstallHookHarness)[2].conflicts[0] == "settings-file"@);
    assert(grammar(CommandPath::UninstallHookHarness)[2].name == "settings"@);
    assert(grammar(CommandPath::UninstallHookHarness)[2].conflicts[0] == "settings-file"@);
    assert(grammar(CommandPath::Root)[1].name == "version"@);
    assert(grammar(CommandPath::Root)[1].conflicts[0] == "help"@);
}

/// The subcommands that change the ledger, and those of the hook, are applied only by
/// a flag; those that only look take none.
pub proof fn lemma_changes_are_applied_by_a_flag()
    ensures
        takes(grammar(CommandPath::LedgerMigrate), "apply"@),
        takes(grammar(CommandPath::LedgerPrune), "apply"@),
        takes(grammar(CommandPath::LedgerClear), "apply"@),
        takes(grammar(CommandPath::InstallHookHarness), "apply"@),
        takes(grammar(CommandPath::UninstallHookHarness), "apply"@),
        !takes(grammar(CommandPath::LedgerStatus), "apply"@),
        !takes(grammar(CommandPath::LedgerInit), "apply"@),
{
    assert(grammar(CommandPath::LedgerMigrate)[1].name == "apply"@);
    assert(grammar(CommandPath::LedgerPrune)[2].name == "apply"@);
    assert(grammar(CommandPath::LedgerClear)[1].name == "apply"@);
    assert(grammar(CommandPath::InstallHookHarness)[1].name == "apply"@);
    assert(grammar(CommandPath::UninstallHookHarness)[1].name == "apply"@);
    reveal_strlit("apply");
    reveal_strlit("help");
    reveal_strlit("json");
    reveal_strlit("dir");
    assert("apply"@.len() == 5 && "help"@.len() == 4 && "json"@.len() == 4 && "dir"@.len() == 3);
}

/// A setting of the command line is a flag exactly where it is one of the two that
/// take no value.
pub proof fn lemma_settings_that_are_flags(flag: Seq<char>)
    ensures
        setting_view(flag).name == flag,
        setting_view(flag).kind is Flag <==> flag == "shadow"@ || flag == "no-tools"@,
        setting_view(flag).kind is Value <==> flag != "shadow"@ && flag != "no-tools"@,
        setting_view(flag).conflicts.len() == 0 && setting_view(flag).requires is None,
        !setting_view(flag).hidden,
{
}

/// A demonstration is one of four.
pub proof fn lemma_demonstrations()
    ensures
        grammar(CommandPath::Demo)[1].name == "case"@,
        grammar(CommandPath::Demo)[1].choices == seq![
            "useful"@,
            "none"@,
            "explicit"@,
            "unavailable"@,
        ],
{
}

/// The arguments that carry a value, and those that only stand or not: a skill may be
/// required more than once, a shortlist is a list, and a case to replay and an event to
/// judge are given by position.
pub proof fn lemma_kinds_of_arguments()
    ensures
        grammar(CommandPath::Rank)[7].name == "require-skill"@,
        grammar(CommandPath::Rank)[7].kind is Repeated,
        grammar(CommandPath::Rank)[16].name == "shortlist-ids"@,
        grammar(CommandPath::Rank)[16].kind is Listed,
        grammar(CommandPath::Replay)[1].name == "file"@,
        grammar(CommandPath::Replay)[1].kind is Positional,
        grammar(CommandPath::Feedback)[1].name == "event_id"@,
        grammar(CommandPath::Feedback)[1].kind is Positional,
        grammar(CommandPath::Feedback)[2].name == "event"@,
        grammar(CommandPath::Feedback)[2].kind is Value,
        grammar(CommandPath::Eval)[4].name == "online"@,
        grammar(CommandPath::Eval)[4].kind is Flag,
        grammar(CommandPath::Eval)[6].name == "max-requests"@,
        grammar(CommandPath::Eval)[6].kind is Value,
        grammar(CommandPath::HookHarness)[1].name == "shadow"@,
        grammar(CommandPath::HookHarness)[1].kind is Flag,
        grammar(CommandPath::HookHarness)[10].name == "timeout-ms"@,
        grammar(CommandPath::HookHarness)[10].kind is Value,
{
}

} // verus!
