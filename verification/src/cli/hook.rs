//! The hook of a harness: its deadline, what it may publish, and its installation.

use crate::cli::config::{argument_says, cli_layer, CliArgument, RawView, ValueKind};
use crate::cli::failure::{
    failure_view, finish_invocation, late_refusal, refuses, timely, Decision, Failure,
    OutputKind,
};
use crate::cli::rank::RankEnding;
use crate::evaluation::report::opt_view;
use crate::text;
use crate::text::{decimal, lemma_decimal_reads_back, lemma_occurs_between, numeral, occurs};
use vstd::prelude::*;
use vstd::string::*;

verus! {

/// The deadline asked for by argument, where it is a number.
pub open spec fn asked_ms(argument: Option<Seq<char>>) -> Option<u64> {
    match argument {
        Some(given) => match numeral(given) {
            Some(n) => if n <= u64::MAX {
                Some(n as u64)
            } else {
                None
            },
            None => None,
        },
        None => None,
    }
}

/// The deadline of a hook.
pub open spec fn deadline_of(argument: Option<Seq<char>>, configured_ms: u64) -> u64 {
    match asked_ms(argument) {
        Some(ms) => ms,
        None => configured_ms,
    }
}

/// The deadline of a hook: the one asked for, else the configured one.
pub fn hook_timeout(argument: Option<&str>, configured_ms: u64) -> (r: u64)
    ensures
        r == deadline_of(
            match argument {
                Some(given) => Some(given@),
                None => None,
            },
            configured_ms,
        ),
{
    match argument {
        Some(given) => match text::parse_number(given, u64::MAX) {
            Some(ms) => ms,
            None => configured_ms,
        },
        None => configured_ms,
    }
}

/// The budget of an installed hook, in milliseconds.
pub open spec fn budget_of(installed_ms: Option<u64>, default_secs: u32, startup_secs: u32) -> int {
    match installed_ms {
        Some(ms) => ms as int,
        None => (default_secs - startup_secs) * 1000,
    }
}

/// The budget of an installed hook: the entry's own, else that of a default
/// entry, less what its startup takes.
pub fn hook_budget(installed_ms: Option<u64>, default_secs: u32, startup_secs: u32) -> (r: u64)
    requires
        startup_secs <= default_secs,
    ensures
        r == budget_of(installed_ms, default_secs, startup_secs),
{
    match installed_ms {
        Some(ms) => ms,
        None => (default_secs - startup_secs) as u64 * 1000,
    }
}

pub open spec fn clamp_text(timeout_ms: u64, budget_ms: u64) -> Seq<char> {
    "configured timeout ("@ + decimal(timeout_ms as nat)
        + "ms) exceeds installed hook budget ("@ + decimal(budget_ms as nat)
        + "ms); clamped to installed budget"@
}

/// Whether a deadline, and what is said of it, are those of a timeout under a budget.
pub open spec fn clamped_to(
    timeout_ms: u64,
    budget_ms: u64,
    deadline_ms: u64,
    note: Option<Seq<char>>,
) -> bool {
    &&& timeout_ms <= budget_ms ==> deadline_ms == timeout_ms && note is None
    &&& timeout_ms > budget_ms ==> deadline_ms == budget_ms && note == Some(
        clamp_text(timeout_ms, budget_ms),
    )
}

/// Clamp the internal deadline to the installed budget: the harness kills the
/// process at the entry's timeout, and the internal deadline must never exceed
/// it. A clamped deadline is said.
pub fn clamp_timeout(timeout_ms: u64, budget_ms: u64) -> (r: (u64, Option<String>))
    ensures
        r.0 <= budget_ms,
        clamped_to(timeout_ms, budget_ms, r.0, opt_view(r.1)),
{
    if timeout_ms > budget_ms {
        let mut note: String = "configured timeout (".to_owned();
        note.append(text::number(timeout_ms).as_str());
        note.append("ms) exceeds installed hook budget (");
        note.append(text::number(budget_ms).as_str());
        note.append("ms); clamped to installed budget");
        (budget_ms, Some(note))
    } else {
        (timeout_ms, None)
    }
}

/// What a hook does with a finished ranking.
#[derive(Clone, Debug, PartialEq, Eq)]
pub enum HookPublication {
    /// Nothing goes to the output stream; why may go to the error stream.
    Silent(Option<String>),
    /// One safe suggestion or explicit list may be rendered.
    Publish,
}

/// Whether a hook may publish. Policy is validated again before the first byte:
/// an invalid configuration or the shadow mode publishes nothing, and native
/// ranked advice needs a qualified harness. Explicit directives do not.
pub open spec fn publishes(
    config_valid: bool,
    shadow: bool,
    kind: OutputKind,
    disabled: Option<Seq<char>>,
) -> bool {
    config_valid && !shadow && !(kind == OutputKind::Decision(Decision::Ranked) && disabled is Some)
}

/// What a hook that stays silent says on the error stream.
pub open spec fn silence_note(
    config_valid: bool,
    shadow: bool,
    disabled: Option<Seq<char>>,
) -> Option<Seq<char>> {
    if !config_valid {
        Some("configuration became invalid before hook publication"@)
    } else if shadow {
        None
    } else {
        Some("native advice disabled for unverified harness ("@ + disabled->0 + ")"@)
    }
}

/// Whether a publication is the one that policy allows.
pub open spec fn published(
    publication: HookPublication,
    config_valid: bool,
    shadow: bool,
    kind: OutputKind,
    disabled: Option<Seq<char>>,
) -> bool {
    match publication {
        HookPublication::Publish => publishes(config_valid, shadow, kind, disabled),
        HookPublication::Silent(note) => !publishes(config_valid, shadow, kind, disabled)
            && opt_view(note) == silence_note(config_valid, shadow, disabled),
    }
}

/// Decide what a hook does with a finished ranking.
pub fn hook_publication(
    config_valid: bool,
    shadow: bool,
    kind: OutputKind,
    disabled: Option<&str>,
) -> (r: HookPublication)
    ensures
        published(
            r,
            config_valid,
            shadow,
            kind,
            match disabled {
                Some(reason) => Some(reason@),
                None => None,
            },
        ),
{
    if !config_valid {
        return HookPublication::Silent(
            Some("configuration became invalid before hook publication".to_owned()),
        );
    }
    if shadow {
        return HookPublication::Silent(None);
    }
    let ranked: bool = match kind {
        OutputKind::Decision(Decision::Ranked) => true,
        _ => false,
    };
    if ranked {
        if let Some(reason) = disabled {
            let mut note: String = "native advice disabled for unverified harness (".to_owned();
            note.append(reason);
            note.append(")");
            return HookPublication::Silent(Some(note));
        }
    }
    HookPublication::Publish
}

/// The setting of a hook's command line: only the shadow mode.
pub fn hook_settings(shadow: bool) -> (r: Vec<CliArgument>)
    ensures
        cli_layer(r@) is Ok,
        cli_layer(r@)->Ok_0 == if shadow {
            seq![("hook.mode"@, RawView::Text("shadow"@))]
        } else {
            Seq::empty()
        },
{
    let given: CliArgument = CliArgument {
        flag_name: "shadow".to_owned(),
        path: "hook.mode".to_owned(),
        kind: ValueKind::Other,
        flag: shadow,
        argument: None,
        number: None,
    };
    let list: Vec<CliArgument> = vec![given];
    proof {
        assert(list@.drop_last() =~= Seq::<CliArgument>::empty());
        reveal_with_fuel(cli_layer, 2);
        assert(argument_says(list@.last()) is Ok);
        assert(cli_layer(list@)->Ok_0 =~= if shadow {
            seq![("hook.mode"@, RawView::Text("shadow"@))]
        } else {
            Seq::empty()
        });
    }
    list
}

/// What stops a hook before it decides what to publish. Work that was late is
/// never published, whatever its decision.
pub open spec fn hook_refusal(ending: RankEnding, outcome: Result<OutputKind, Failure>) -> Option<
    (u8, Seq<char>, Seq<char>),
> {
    if !(ending.shut_down && ending.now_ms < ending.expires_ms) {
        Some(
            (
                6u8,
                "timeout"@,
                "Runtime cleanup did not finish within the invocation deadline"@,
            ),
        )
    } else {
        match outcome {
            Err(f) => Some(failure_view(f)),
            Ok(_) => if ending.completed_in_time {
                None
            } else {
                Some(late_refusal())
            },
        }
    }
}

/// Close a hook's ranking and decide what it publishes.
pub fn finish_hook(
    ending: RankEnding,
    outcome: Result<OutputKind, Failure>,
    config_valid: bool,
    shadow: bool,
    disabled: Option<&str>,
) -> (r: Result<HookPublication, Failure>)
    ensures
        refuses(r, hook_refusal(ending, outcome)),
        r is Ok ==> published(
            r->Ok_0,
            config_valid,
            shadow,
            outcome->Ok_0,
            match disabled {
                Some(reason) => Some(reason@),
                None => None,
            },
        ),
{
    let finished: Result<OutputKind, Failure> = finish_invocation(
        ending.shut_down,
        ending.now_ms,
        ending.expires_ms,
        outcome,
    );
    let kind: OutputKind = match finished {
        Ok(kind) => kind,
        Err(f) => return Err(f),
    };
    match timely(ending.completed_in_time) {
        Ok(_) => Ok(hook_publication(config_valid, shadow, kind, disabled)),
        Err(f) => Err(f),
    }
}

/// Whether a record is that of the emission of an envelope.
pub open spec fn emission_recorded(
    written: bool,
    wire_bytes: usize,
    event_id: Option<String>,
    r: Option<(String, usize)>,
) -> bool {
    &&& r is Some <==> written && event_id is Some
    &&& r is Some ==> (r->0).0@ == event_id->0@ && (r->0).1 == wire_bytes + 1
}

/// What follows writing a rendered envelope: the event whose emission is
/// recorded and how many bytes it had, where all of it was written and it names
/// an event.
pub fn emission_to_record(written: bool, wire_bytes: usize, event_id: Option<String>) -> (r: Option<
    (String, usize),
>)
    requires
        wire_bytes < usize::MAX,
    ensures
        emission_recorded(written, wire_bytes, event_id, r),
{
    if !written {
        return None;
    }
    match event_id {
        Some(id) => Some((id, wire_bytes + 1)),
        None => None,
    }
}

/// What an installation for no supported harness says. `harness` is the
/// supported one.
pub open spec fn harness_text(install: bool, harness: Seq<char>) -> Seq<char> {
    "Supported harness is '"@ + harness + "'; e.g. sr "@ + (if install {
        "install-hook "@
    } else {
        "uninstall-hook "@
    }) + harness + " [--apply]"@
}

/// The failure of an installation for no supported harness.
pub fn unsupported_harness(install: bool, harness: &str) -> (r: Failure)
    ensures
        failure_view(r) == (2u8, "invalid-usage"@, harness_text(install, harness@)),
{
    let mut message: String = "Supported harness is '".to_owned();
    message.append(harness);
    message.append("'; e.g. sr ");
    if install {
        message.append("install-hook ");
    } else {
        message.append("uninstall-hook ");
    }
    message.append(harness);
    message.append(" [--apply]");
    (2, "invalid-usage", message)
}

/// The outer timeout of an entry, in seconds.
pub open spec fn entry_secs(argument: Option<Seq<char>>, default_secs: u32) -> u32 {
    match argument {
        Some(given) => match numeral(given) {
            Some(n) => if n <= u32::MAX {
                n as u32
            } else {
                default_secs
            },
            None => default_secs,
        },
        None => default_secs,
    }
}

/// The outer timeout asked for, where it is a number, else the default.
pub fn entry_timeout(argument: Option<&str>, default_secs: u32) -> (r: u32)
    ensures
        r == entry_secs(
            match argument {
                Some(given) => Some(given@),
                None => None,
            },
            default_secs,
        ),
{
    match argument {
        Some(given) => match text::parse_number(given, u32::MAX as u64) {
            Some(secs) => secs as u32,
            None => default_secs,
        },
        None => default_secs,
    }
}

/// The terms of an entry: whether it is in shadow mode, and its deadline.
pub open spec fn terms_of(effective: Option<(bool, u64)>, default_deadline_ms: u64) -> (bool, u64) {
    match effective {
        Some(terms) => terms,
        None => (true, default_deadline_ms),
    }
}

/// What a hook is installed with: whether it starts in shadow mode, and the
/// deadline that its outer timeout has to cover. Both are those of the
/// configuration; where that does not load, the hook starts in shadow mode and
/// the default deadline counts.
pub fn entry_terms(effective: Option<(bool, u64)>, default_deadline_ms: u64) -> (r: (bool, u64))
    ensures
        r == terms_of(effective, default_deadline_ms),
{
    match effective {
        Some(terms) => terms,
        None => (true, default_deadline_ms),
    }
}

/// What installing or removing a hook came to.
#[derive(Clone, Debug, PartialEq, Eq)]
pub enum HookChange {
    Preview { diff: String, message: String },
    Applied { backup_path: String, message: String },
    /// It was installed already, or not at all.
    Unchanged { message: String },
    Conflict { message: String },
    MalformedSettings(String),
    /// Refused by policy, a changed file, a busy lock or wrong usage.
    Refused(String),
    Io(String),
}

/// What a change of the hook says, where it went well.
pub open spec fn change_text(change: HookChange) -> Option<Seq<char>> {
    match change {
        HookChange::Preview { diff, message } => Some(diff@ + "\n"@ + message@ + "\n"@),
        HookChange::Applied { backup_path, message } => Some(
            message@ + "\n(Backup created at "@ + backup_path@ + ")\n"@,
        ),
        HookChange::Unchanged { message } => Some(message@ + "\n"@),
        _ => None,
    }
}

/// What a change of the hook that did not go well says.
pub open spec fn change_refusal(change: HookChange) -> (u8, Seq<char>, Seq<char>) {
    match change {
        HookChange::MalformedSettings(message) => (7u8, "malformed-input"@, message@),
        HookChange::Io(message) => (9u8, "storage-failure"@, message@),
        HookChange::Conflict { message } => (2u8, "invalid-usage"@, message@),
        HookChange::Refused(message) => (2u8, "invalid-usage"@, message@),
        _ => (2u8, "invalid-usage"@, ""@),
    }
}

/// Say what installing or removing a hook came to.
pub fn report_change(change: HookChange) -> (r: Result<String, Failure>)
    ensures
        match r {
            Ok(out) => change_text(change) == Some(out@),
            Err(f) => change_text(change) is None && failure_view(f) == change_refusal(change),
        },
{
    match change {
        HookChange::Preview { diff, message } => {
            let mut out: String = diff;
            out.append("\n");
            out.append(message.as_str());
            out.append("\n");
            Ok(out)
        },
        HookChange::Applied { backup_path, message } => {
            let mut out: String = message;
            out.append("\n(Backup created at ");
            out.append(backup_path.as_str());
            out.append(")\n");
            Ok(out)
        },
        HookChange::Unchanged { message } => {
            let mut out: String = message;
            out.append("\n");
            Ok(out)
        },
        HookChange::Conflict { message } => Err((2, "invalid-usage", message)),
        HookChange::MalformedSettings(message) => Err((7, "malformed-input", message)),
        HookChange::Refused(message) => Err((2, "invalid-usage", message)),
        HookChange::Io(message) => Err((9, "storage-failure", message)),
    }
}

/// A hook in shadow mode, or under a configuration that became invalid,
/// publishes nothing, whatever was ranked.
pub proof fn lemma_shadow_hook_is_silent(
    config_valid: bool,
    shadow: bool,
    kind: OutputKind,
    disabled: Option<Seq<char>>,
    publication: HookPublication,
)
    requires
        published(publication, config_valid, shadow, kind, disabled),
        shadow || !config_valid,
    ensures
        publication is Silent,
{
}

/// What an unverified harness may not be given is ranked advice alone: explicit
/// directives are published under a valid configuration outside shadow mode.
pub proof fn lemma_explicit_lists_need_no_qualification(
    kind: OutputKind,
    disabled: Option<Seq<char>>,
)
    requires
        kind != OutputKind::Decision(Decision::Ranked),
    ensures
        publishes(true, false, kind, disabled),
{
}

/// A hook publishes exactly under a valid configuration, outside shadow mode, and
/// what an unqualified harness may be given. Where it stays silent it says why:
/// that its configuration is invalid, or what is wrong with the harness. A hook in
/// shadow mode says nothing.
pub proof fn lemma_what_a_hook_publishes(
    publication: HookPublication,
    config_valid: bool,
    shadow: bool,
    kind: OutputKind,
    disabled: Option<Seq<char>>,
)
    requires
        published(publication, config_valid, shadow, kind, disabled),
    ensures
        publication is Publish <==> {
            &&& config_valid
            &&& !shadow
            &&& disabled is None || kind is Preview || kind is Artifact || !(
            kind->Decision_0 is Ranked)
        },
        config_valid && shadow ==> publication == HookPublication::Silent(None),
        !config_valid ==> publication is Silent && publication->Silent_0 is Some
            && publication->Silent_0->0@ == "configuration became invalid before hook publication"@,
        config_valid && !shadow && publication is Silent ==> publication->Silent_0 is Some
            && occurs(publication->Silent_0->0@, "("@ + disabled->0 + ")"@),
{
    if config_valid && !shadow && publication is Silent {
        let reason = "("@ + disabled->0 + ")"@;
        reveal_strlit("native advice disabled for unverified harness (");
        reveal_strlit("native advice disabled for unverified harness ");
        reveal_strlit("(");
        assert("native advice disabled for unverified harness ("@ + disabled->0 + ")"@
            =~= "native advice disabled for unverified harness "@ + reason);
        lemma_occurs_between(
            "native advice disabled for unverified harness "@,
            reason,
            Seq::empty(),
        );
    }
}

/// A hook goes on to publish exactly where its runtime shut down before the
/// deadline, its ranking succeeded and it did so in time. A late hook is a timeout,
/// and one whose ranking failed fails as the ranking did.
pub proof fn lemma_what_stops_a_hook(ending: RankEnding, outcome: Result<OutputKind, Failure>)
    ensures
        ({
            let refusal = hook_refusal(ending, outcome);
            let closed = ending.shut_down && ending.now_ms < ending.expires_ms;
            &&& refusal is None <==> closed && outcome is Ok && ending.completed_in_time
            &&& !closed ==> (refusal->0).0 == 6 && (refusal->0).1 == "timeout"@
            &&& closed && outcome is Err ==> refusal == Some(
                (outcome->Err_0.0, outcome->Err_0.1@, outcome->Err_0.2@),
            )
            &&& closed && outcome is Ok && !ending.completed_in_time ==> (refusal->0).0 == 6
                && (refusal->0).1 == "timeout"@
        }),
{
}

/// A clamped deadline is said with both numbers: what was configured, and the
/// budget it was clamped to.
pub proof fn lemma_clamp_names_both_numbers(timeout_ms: u64, budget_ms: u64)
    ensures
        occurs(
            clamp_text(timeout_ms, budget_ms),
            "timeout ("@ + decimal(timeout_ms as nat) + "ms)"@,
        ),
        occurs(
            clamp_text(timeout_ms, budget_ms),
            "budget ("@ + decimal(budget_ms as nat) + "ms)"@,
        ),
{
    let timeout = decimal(timeout_ms as nat);
    let budget = decimal(budget_ms as nat);
    let first = "timeout ("@ + timeout + "ms)"@;
    let second = "budget ("@ + budget + "ms)"@;
    assert("configured timeout ("@ == "configured "@ + "timeout ("@) by {
        reveal_strlit("configured timeout (");
        reveal_strlit("configured ");
        reveal_strlit("timeout (");
        assert("configured timeout ("@ =~= "configured "@ + "timeout ("@);
    }
    assert("ms) exceeds installed hook budget ("@ == "ms)"@ + " exceeds installed hook "@
        + "budget ("@) by {
        reveal_strlit("ms) exceeds installed hook budget (");
        reveal_strlit("ms)");
        reveal_strlit(" exceeds installed hook ");
        reveal_strlit("budget (");
        assert("ms) exceeds installed hook budget ("@ =~= "ms)"@ + " exceeds installed hook "@
            + "budget ("@);
    }
    assert("ms); clamped to installed budget"@ == "ms)"@ + "; clamped to installed budget"@) by {
        reveal_strlit("ms); clamped to installed budget");
        reveal_strlit("ms)");
        reveal_strlit("; clamped to installed budget");
        assert("ms); clamped to installed budget"@ =~= "ms)"@ + "; clamped to installed budget"@);
    }
    let rest = " exceeds installed hook "@ + second + "; clamped to installed budget"@;
    assert(clamp_text(timeout_ms, budget_ms) =~= "configured "@ + first + rest);
    lemma_occurs_between("configured "@, first, rest);
    let before = "configured "@ + first + " exceeds installed hook "@;
    assert(clamp_text(timeout_ms, budget_ms) =~= before + second
        + "; clamped to installed budget"@);
    lemma_occurs_between(before, second, "; clamped to installed budget"@);
}

/// A change of the hook goes well exactly where it was previewed, applied or not
/// needed, and then says its message; a preview shows its difference and an applied
/// change its backup. Else settings that cannot be read are malformed input, an
/// error of the disk is one of storage, and any other refusal is wrong usage.
pub proof fn lemma_what_a_hook_change_says(change: HookChange)
    ensures
        change_text(change) is Some <==> change is Preview || change is Applied || change
            is Unchanged,
        change is Preview ==> text::has_prefix(change_text(change)->0, change->diff@) && occurs(
            change_text(change)->0,
            change->Preview_message@,
        ),
        change is Applied ==> text::has_prefix(change_text(change)->0, change->Applied_message@)
            && occurs(change_text(change)->0, "at "@ + change->backup_path@ + ")"@),
        change is Unchanged ==> text::has_prefix(
            change_text(change)->0,
            change->Unchanged_message@,
        ),
        change is MalformedSettings ==> change_refusal(change).0 == 7 && change_refusal(change).2
            == change->MalformedSettings_0@,
        change is Io ==> change_refusal(change).0 == 9 && change_refusal(change).2
            == change->Io_0@,
        change is Conflict ==> change_refusal(change).0 == 2 && change_refusal(change).2
            == change->Conflict_message@,
        change is Refused ==> change_refusal(change).0 == 2 && change_refusal(change).2
            == change->Refused_0@,
{
    match change {
        HookChange::Preview { diff, message } => {
            let out = diff@ + "\n"@ + message@ + "\n"@;
            assert(out.take(diff@.len() as int) =~= diff@);
            lemma_occurs_between(diff@ + "\n"@, message@, "\n"@);
        },
        HookChange::Applied { backup_path, message } => {
            let out = message@ + "\n(Backup created at "@ + backup_path@ + ")\n"@;
            assert(out.take(message@.len() as int) =~= message@);
            let part = "at "@ + backup_path@ + ")"@;
            reveal_strlit("\n(Backup created at ");
            reveal_strlit("\n(Backup created ");
            reveal_strlit("at ");
            reveal_strlit(")\n");
            reveal_strlit(")");
            reveal_strlit("\n");
            assert(out =~= (message@ + "\n(Backup created "@) + part + "\n"@);
            lemma_occurs_between(message@ + "\n(Backup created "@, part, "\n"@);
        },
        HookChange::Unchanged { message } => {
            assert((message@ + "\n"@).take(message@.len() as int) =~= message@);
        },
        _ => {},
    }
}

/// An installation for no supported harness is told the command that would
/// install, and a removal the one that would remove.
pub proof fn lemma_harness_text_names_the_command(harness: Seq<char>)
    ensures
        occurs(harness_text(true, harness), " sr install-hook "@ + harness + " [--apply]"@),
        occurs(harness_text(false, harness), " sr uninstall-hook "@ + harness + " [--apply]"@),
{
    let before = "Supported harness is '"@ + harness + "'; e.g."@;
    assert("'; e.g. sr "@ == "'; e.g."@ + " sr "@) by {
        reveal_strlit("'; e.g. sr ");
        reveal_strlit("'; e.g.");
        reveal_strlit(" sr ");
        assert("'; e.g. sr "@ =~= "'; e.g."@ + " sr "@);
    }
    assert(" sr install-hook "@ == " sr "@ + "install-hook "@) by {
        reveal_strlit(" sr install-hook ");
        reveal_strlit(" sr ");
        reveal_strlit("install-hook ");
        assert(" sr install-hook "@ =~= " sr "@ + "install-hook "@);
    }
    assert(" sr uninstall-hook "@ == " sr "@ + "uninstall-hook "@) by {
        reveal_strlit(" sr uninstall-hook ");
        reveal_strlit(" sr ");
        reveal_strlit("uninstall-hook ");
        assert(" sr uninstall-hook "@ =~= " sr "@ + "uninstall-hook "@);
    }
    let install = " sr install-hook "@ + harness + " [--apply]"@;
    let remove = " sr uninstall-hook "@ + harness + " [--apply]"@;
    assert(harness_text(true, harness) =~= before + install);
    assert(harness_text(false, harness) =~= before + remove);
    lemma_occurs_between(before, install, Seq::empty());
    lemma_occurs_between(before, remove, Seq::empty());
}

/// A deadline is asked for exactly by a numeral that fits, and is then that
/// number.
pub proof fn lemma_asked_deadline(ms: u64)
    ensures
        asked_ms(Some(decimal(ms as nat))) == Some(ms),
        asked_ms(None) is None,
        forall|given: Seq<char>|
            (#[trigger] asked_ms(Some(given))) is Some ==> numeral(given) == Some(
                asked_ms(Some(given))->0 as nat,
            ),
{
    lemma_decimal_reads_back(ms as nat);
}

/// A number that was asked for is the deadline, and what is no number leaves the
/// configured one; the outer timeout of an entry likewise its default.
pub proof fn lemma_asked_numbers_win(asked: u64, asked_secs: u32, configured_ms: u64, secs: u32)
    ensures
        deadline_of(Some(decimal(asked as nat)), configured_ms) == asked,
        deadline_of(None, configured_ms) == configured_ms,
        forall|given: Seq<char>|
            numeral(given) is None ==> #[trigger] deadline_of(Some(given), configured_ms)
                == configured_ms,
        entry_secs(Some(decimal(asked_secs as nat)), secs) == asked_secs,
        entry_secs(None, secs) == secs,
        forall|given: Seq<char>|
            numeral(given) is None ==> #[trigger] entry_secs(Some(given), secs) == secs,
{
    lemma_decimal_reads_back(asked as nat);
    lemma_decimal_reads_back(asked_secs as nat);
}

/// A hook works no longer than it may: the deadline under a budget is the smaller of
/// the two, and something is said exactly where that is not the timeout. The budget
/// of an entry is its own, else what the startup leaves of the default.
pub proof fn lemma_deadlines_stay_within_the_budget(
    timeout_ms: u64,
    budget_ms: u64,
    deadline_ms: u64,
    note: Option<Seq<char>>,
    default_secs: u32,
    startup_secs: u32,
)
    requires
        clamped_to(timeout_ms, budget_ms, deadline_ms, note),
    ensures
        deadline_ms <= timeout_ms && deadline_ms <= budget_ms,
        deadline_ms == timeout_ms || deadline_ms == budget_ms,
        note is Some <==> deadline_ms != timeout_ms,
        budget_of(Some(budget_ms), default_secs, startup_secs) == budget_ms,
        budget_of(None, default_secs, startup_secs) + 1000 * startup_secs == 1000 * default_secs,
{
}

/// An emission is recorded exactly where all of it was written and it names an event,
/// with the line break that ends it.
pub proof fn lemma_only_whole_emissions_are_recorded(
    written: bool,
    wire_bytes: usize,
    event_id: Option<String>,
    r: Option<(String, usize)>,
)
    requires
        emission_recorded(written, wire_bytes, event_id, r),
    ensures
        !written || event_id is None ==> r is None,
        written && event_id is Some ==> r is Some && (r->0).0@ == event_id->0@ && (r->0).1
            == wire_bytes + 1,
{
}

/// A hook whose configuration does not load starts in shadow mode; any other starts as
/// it is configured.
pub proof fn lemma_unconfigured_hooks_start_in_shadow(
    shadow: bool,
    deadline_ms: u64,
    default_deadline_ms: u64,
)
    ensures
        terms_of(None, default_deadline_ms).0,
        terms_of(None, default_deadline_ms).1 == default_deadline_ms,
        terms_of(Some((shadow, deadline_ms)), default_deadline_ms) == (shadow, deadline_ms),
{
}

} // verus!
