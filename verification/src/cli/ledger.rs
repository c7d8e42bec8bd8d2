//! Maintaining the ledger: what each command may do to it, and what it says.

use crate::cli::failure::{
    answers, failure, failure_view, write_document, written, Failure,
};
use crate::text;
use crate::text::{
    decimal, ends_in, lemma_appended, lemma_occurs_between, lemma_value_shown, occurs,
    signed_decimal,
};
use vstd::prelude::*;
use vstd::string::*;

verus! {

/// What a ledger command does.
#[derive(Clone, Copy, Debug, PartialEq, Eq, Structural)]
pub enum LedgerAction {
    Help,
    Init,
    Status,
    Migrate { apply: bool },
    Prune { apply: bool },
    Clear { apply: bool },
}

/// Why a ledger command is refused.
pub open spec fn action_refusal(name: Option<Seq<char>>, help: bool) -> Option<
    (u8, Seq<char>, Seq<char>),
> {
    match name {
        None => Some(
            (
                2u8,
                "invalid-usage"@,
                "Missing ledger subcommand (init, migrate, status); see sr --help"@,
            ),
        ),
        Some(name) => if help || name == "init"@ || name == "migrate"@ || name == "status"@ || name
            == "prune"@ || name == "clear"@ {
            None
        } else {
            Some((2u8, "invalid-usage"@, "Unknown ledger subcommand: "@ + name))
        },
    }
}

/// What an accepted ledger command does.
pub open spec fn action_of(name: Seq<char>, help: bool, apply: bool) -> LedgerAction {
    if help {
        LedgerAction::Help
    } else if name == "init"@ {
        LedgerAction::Init
    } else if name == "migrate"@ {
        LedgerAction::Migrate { apply }
    } else if name == "status"@ {
        LedgerAction::Status
    } else if name == "prune"@ {
        LedgerAction::Prune { apply }
    } else {
        LedgerAction::Clear { apply }
    }
}

/// Decide what a ledger command does.
pub fn ledger_action(name: Option<&str>, help: bool, apply: bool) -> (r: Result<
    LedgerAction,
    Failure,
>)
    ensures
        ({
            let given = match name {
                Some(name) => Some(name@),
                None => None,
            };
            match r {
                Ok(action) => action_refusal(given, help) is None && action == action_of(
                    given->0,
                    help,
                    apply,
                ),
                Err(f) => action_refusal(given, help) == Some(failure_view(f)),
            }
        }),
{
    let name: &str = match name {
        Some(name) => name,
        None => return Err(
            failure(
                2,
                "invalid-usage",
                "Missing ledger subcommand (init, migrate, status); see sr --help",
            ),
        ),
    };
    if help {
        return Ok(LedgerAction::Help);
    }
    if text::eq(name, "init") {
        Ok(LedgerAction::Init)
    } else if text::eq(name, "migrate") {
        Ok(LedgerAction::Migrate { apply })
    } else if text::eq(name, "status") {
        Ok(LedgerAction::Status)
    } else if text::eq(name, "prune") {
        Ok(LedgerAction::Prune { apply })
    } else if text::eq(name, "clear") {
        Ok(LedgerAction::Clear { apply })
    } else {
        let mut message: String = "Unknown ledger subcommand: ".to_owned();
        message.append(name);
        Err((2, "invalid-usage", message))
    }
}

/// The cutoff of a retention cleanup: the one asked for, else the retention
/// period before now. Both are points in history, so they rest on the wall
/// clock.
pub open spec fn cutoff_of(
    now_ms: Option<i64>,
    asked: Option<Result<i64, String>>,
    retention_ms: i64,
) -> Result<int, (u8, Seq<char>, Seq<char>)> {
    match now_ms {
        None => Err(
            (
                9u8,
                "storage-failure"@,
                "The system clock is outside the representable range"@,
            ),
        ),
        Some(now) => match asked {
            Some(Ok(cutoff)) => Ok(cutoff as int),
            Some(Err(detail)) => Err((2u8, "invalid-arguments"@, detail@)),
            None => {
                let cutoff = now - retention_ms;
                Ok(
                    if cutoff < i64::MIN {
                        i64::MIN as int
                    } else if cutoff > i64::MAX {
                        i64::MAX as int
                    } else {
                        cutoff
                    },
                )
            },
        },
    }
}

/// The cutoff of a retention cleanup.
pub fn prune_cutoff(
    now_ms: Option<i64>,
    asked: Option<Result<i64, String>>,
    retention_ms: i64,
) -> (r: Result<i64, Failure>)
    ensures
        match r {
            Ok(cutoff) => cutoff_of(now_ms, asked, retention_ms) == Ok::<
                int,
                (u8, Seq<char>, Seq<char>),
            >(cutoff as int),
            Err(f) => cutoff_of(now_ms, asked, retention_ms) == Err::<
                int,
                (u8, Seq<char>, Seq<char>),
            >(failure_view(f)),
        },
{
    let now: i64 = match now_ms {
        Some(now) => now,
        None => return Err(
            failure(9, "storage-failure", "The system clock is outside the representable range"),
        ),
    };
    match asked {
        Some(Ok(cutoff)) => Ok(cutoff),
        Some(Err(detail)) => Err((2, "invalid-arguments", detail)),
        None => {
            let wide: i128 = now as i128 - retention_ms as i128;
            if wide < i64::MIN as i128 {
                Ok(i64::MIN)
            } else if wide > i64::MAX as i128 {
                Ok(i64::MAX)
            } else {
                Ok(wide as i64)
            }
        },
    }
}

/// What opening the ledger came to.
#[derive(Clone, Debug, PartialEq, Eq)]
pub enum LedgerOpening {
    Ready,
    ReadOnly,
    Missing,
    Disabled,
    /// An error, by its text.
    Failed(String),
}

/// What an action is called where the ledger does not open for it.
pub open spec fn opening_purpose(action: LedgerAction) -> Seq<char> {
    match action {
        LedgerAction::Migrate { apply: true } => "migration"@,
        LedgerAction::Migrate { apply: false } => "preview"@,
        LedgerAction::Prune { apply: true } => "prune"@,
        LedgerAction::Prune { apply: false } => "prune preview"@,
        LedgerAction::Clear { apply: true } => "clear"@,
        _ => "clear preview"@,
    }
}

/// Whether an action changes the ledger.
pub open spec fn mutates(action: LedgerAction) -> bool {
    match action {
        LedgerAction::Migrate { apply } => apply,
        LedgerAction::Prune { apply } => apply,
        LedgerAction::Clear { apply } => apply,
        _ => false,
    }
}

/// Why an action cannot go on with what opening the ledger came to. A ledger
/// that opens read-only can be looked at, and never changed.
pub open spec fn opening_refusal(action: LedgerAction, opening: LedgerOpening) -> Option<
    (u8, Seq<char>, Seq<char>),
> {
    let refuse = |message: Seq<char>| Some((9u8, "storage-failure"@, message));
    match opening {
        LedgerOpening::Ready => None,
        LedgerOpening::Missing => refuse("Ledger database is missing; run `sr ledger init` first"@),
        LedgerOpening::Disabled => refuse("Ledger persistence is disabled"@),
        LedgerOpening::Failed(detail) => refuse(
            "Failed to open ledger for "@ + opening_purpose(action) + ": "@ + detail@,
        ),
        LedgerOpening::ReadOnly => match action {
            LedgerAction::Migrate { apply: true } => refuse(
                "Ledger is opened read-only (newer schema version); migration cannot be applied"@,
            ),
            LedgerAction::Prune { apply: true } => refuse(
                "Ledger is opened read-only; prune mutations are blocked"@,
            ),
            LedgerAction::Clear { apply: true } => refuse(
                "Ledger is opened read-only; clear mutations are blocked"@,
            ),
            _ => None,
        },
    }
}

/// No action that changes the ledger goes on unless it opened ready.
pub proof fn lemma_only_a_ready_ledger_is_changed(action: LedgerAction, opening: LedgerOpening)
    requires
        mutates(action),
        opening_refusal(action, opening) is None,
    ensures
        opening is Ready,
{
}

fn storage(message: &str) -> (r: Failure)
    ensures
        failure_view(r) == (9u8, "storage-failure"@, message@),
{
    failure(9, "storage-failure", message)
}

/// Whether an action goes on with what opening the ledger came to.
pub fn opened_for(action: LedgerAction, opening: &LedgerOpening) -> (r: Result<(), Failure>)
    ensures
        match r {
            Ok(_) => opening_refusal(action, *opening) is None,
            Err(f) => opening_refusal(action, *opening) == Some(failure_view(f)),
        },
{
    match opening {
        LedgerOpening::Ready => Ok(()),
        LedgerOpening::Missing => Err(
            storage("Ledger database is missing; run `sr ledger init` first"),
        ),
        LedgerOpening::Disabled => Err(storage("Ledger persistence is disabled")),
        LedgerOpening::Failed(detail) => {
            let purpose: &str = match action {
                LedgerAction::Migrate { apply: true } => "migration",
                LedgerAction::Migrate { apply: false } => "preview",
                LedgerAction::Prune { apply: true } => "prune",
                LedgerAction::Prune { apply: false } => "prune preview",
                LedgerAction::Clear { apply: true } => "clear",
                _ => "clear preview",
            };
            let mut message: String = "Failed to open ledger for ".to_owned();
            message.append(purpose);
            message.append(": ");
            message.append(detail.as_str());
            Err((9, "storage-failure", message))
        },
        LedgerOpening::ReadOnly => match action {
            LedgerAction::Migrate { apply: true } => Err(
                storage(
                    "Ledger is opened read-only (newer schema version); migration cannot be applied",
                ),
            ),
            LedgerAction::Prune { apply: true } => Err(
                storage("Ledger is opened read-only; prune mutations are blocked"),
            ),
            LedgerAction::Clear { apply: true } => Err(
                storage("Ledger is opened read-only; clear mutations are blocked"),
            ),
            _ => Ok(()),
        },
    }
}

/// What an action that failed says.
pub open spec fn failed_action(action: LedgerAction) -> Seq<char> {
    match action {
        LedgerAction::Migrate { apply: true } => "Migration failed: "@,
        LedgerAction::Migrate { apply: false } => "Migration preview failed: "@,
        LedgerAction::Prune { apply: true } => "Failed to apply prune: "@,
        LedgerAction::Prune { apply: false } => "Failed to preview prune: "@,
        LedgerAction::Clear { apply: true } => "Failed to clear ledger: "@,
        LedgerAction::Clear { apply: false } => "Failed to preview clear: "@,
        _ => "Failed to inspect ledger status: "@,
    }
}

/// The failure of an action that failed.
pub fn action_failure(action: LedgerAction, detail: &str) -> (r: Failure)
    ensures
        failure_view(r) == (9u8, "storage-failure"@, failed_action(action) + detail@),
{
    let tried: &str = match action {
        LedgerAction::Migrate { apply: true } => "Migration failed: ",
        LedgerAction::Migrate { apply: false } => "Migration preview failed: ",
        LedgerAction::Prune { apply: true } => "Failed to apply prune: ",
        LedgerAction::Prune { apply: false } => "Failed to preview prune: ",
        LedgerAction::Clear { apply: true } => "Failed to clear ledger: ",
        LedgerAction::Clear { apply: false } => "Failed to preview clear: ",
        _ => "Failed to inspect ledger status: ",
    };
    let mut message: String = tried.to_owned();
    message.append(detail);
    (9, "storage-failure", message)
}

/// What initializing the ledger came to.
#[derive(Clone, Debug, PartialEq, Eq)]
pub struct InitReport {
    pub created: bool,
    pub path: String,
    pub schema_version: u64,
    pub incarnation: String,
}

pub open spec fn init_text(report: InitReport) -> Seq<char> {
    (if report.created {
        "Initialized new ledger at "@ + report.path@ + " (schema version "@
    } else {
        "Ledger at "@ + report.path@ + " is already current (schema version "@
    }) + decimal(report.schema_version as nat) + ", incarnation "@ + report.incarnation@ + ")\n"@
}

/// Say what initializing the ledger came to.
pub fn render_init(report: &InitReport) -> (r: String)
    ensures
        r@ == init_text(*report),
{
    let mut out: String;
    if report.created {
        out = "Initialized new ledger at ".to_owned();
        out.append(report.path.as_str());
        out.append(" (schema version ");
    } else {
        out = "Ledger at ".to_owned();
        out.append(report.path.as_str());
        out.append(" is already current (schema version ");
    }
    out.append(text::number(report.schema_version).as_str());
    out.append(", incarnation ");
    out.append(report.incarnation.as_str());
    out.append(")\n");
    out
}

/// What a migration came to.
#[derive(Clone, Debug, PartialEq, Eq)]
pub struct MigrationReport {
    pub from_version: u64,
    pub to_version: u64,
    pub backup_path: String,
    pub backup_bytes: u64,
    pub applied_migrations: Vec<String>,
}

pub open spec fn migration_text(report: MigrationReport) -> Seq<char> {
    "Successfully migrated ledger from version "@ + decimal(report.from_version as nat) + " to "@
        + decimal(report.to_version as nat) + ".\nBackup saved to "@ + report.backup_path@ + " ("@
        + decimal(report.backup_bytes as nat) + " bytes).\nApplied migrations: "@ + text::joined(
        text::views(report.applied_migrations@),
        ", "@,
    ) + "\n"@
}

/// Say what a migration came to.
pub fn render_migration(report: &MigrationReport) -> (r: String)
    ensures
        r@ == migration_text(*report),
{
    let mut out: String = "Successfully migrated ledger from version ".to_owned();
    out.append(text::number(report.from_version).as_str());
    out.append(" to ");
    out.append(text::number(report.to_version).as_str());
    out.append(".\nBackup saved to ");
    out.append(report.backup_path.as_str());
    out.append(" (");
    out.append(text::number(report.backup_bytes).as_str());
    out.append(" bytes).\nApplied migrations: ");
    out.append(text::join(&report.applied_migrations, ", ").as_str());
    out.append("\n");
    out
}

/// A migration that was not applied yet.
#[derive(Clone, Debug, PartialEq, Eq)]
pub struct PendingMigration {
    pub version: u64,
    pub name: String,
    pub checksum: String,
    pub description: String,
}

/// What a migration would do.
#[derive(Clone, Debug, PartialEq, Eq)]
pub struct MigrationPreview {
    pub current_version: u64,
    pub target_version: u64,
    pub required_headroom_bytes: u64,
    pub pending_migrations: Vec<PendingMigration>,
}

pub open spec fn pending_rows(pending: Seq<PendingMigration>) -> Seq<char>
    decreases pending.len(),
{
    if pending.len() == 0 {
        "Pending migrations:\n"@
    } else {
        let m = pending.last();
        pending_rows(pending.drop_last()) + "  - v"@ + decimal(m.version as nat) + ": "@ + m.name@
            + " (checksum: "@ + m.checksum@ + ")\n    "@ + m.description@ + "\n"@
    }
}

pub open spec fn preview_text(preview: MigrationPreview) -> Seq<char> {
    "Migration preview: current version "@ + decimal(preview.current_version as nat)
        + ", target version "@ + decimal(preview.target_version as nat)
        + ".\nRequired headroom: "@ + decimal(preview.required_headroom_bytes as nat)
        + " bytes.\n"@ + if preview.pending_migrations@.len() == 0 {
        "Schema is already up to date. No pending migrations.\n"@
    } else {
        pending_rows(preview.pending_migrations@)
    }
}

fn pending_text(pending: &Vec<PendingMigration>) -> (r: String)
    ensures
        r@ == pending_rows(pending@),
{
    let mut out: String = "Pending migrations:\n".to_owned();
    let mut i: usize = 0;
    assert(pending@.take(0) =~= Seq::<PendingMigration>::empty());
    while i < pending.len()
        invariant
            i <= pending@.len(),
            out@ == pending_rows(pending@.take(i as int)),
        decreases pending@.len() - i,
    {
        proof {
            assert(pending@.take(i + 1).drop_last() =~= pending@.take(i as int));
            assert(pending@.take(i + 1).last() == pending@[i as int]);
        }
        let m: &PendingMigration = &pending[i];
        out.append("  - v");
        out.append(text::number(m.version).as_str());
        out.append(": ");
        out.append(m.name.as_str());
        out.append(" (checksum: ");
        out.append(m.checksum.as_str());
        out.append(")\n    ");
        out.append(m.description.as_str());
        out.append("\n");
        i = i + 1;
    }
    assert(pending@.take(i as int) =~= pending@);
    out
}

/// Say what a migration would do.
pub fn render_preview(preview: &MigrationPreview) -> (r: String)
    ensures
        r@ == preview_text(*preview),
{
    let mut out: String = "Migration preview: current version ".to_owned();
    out.append(text::number(preview.current_version).as_str());
    out.append(", target version ");
    out.append(text::number(preview.target_version).as_str());
    out.append(".\nRequired headroom: ");
    out.append(text::number(preview.required_headroom_bytes).as_str());
    out.append(" bytes.\n");
    if preview.pending_migrations.len() == 0 {
        out.append("Schema is already up to date. No pending migrations.\n");
    } else {
        out.append(pending_text(&preview.pending_migrations).as_str());
    }
    out
}

/// The state of the ledger.
#[derive(Clone, Debug, PartialEq, Eq)]
pub struct StatusReport {
    pub status: String,
    pub path: String,
    pub schema_version: Option<u64>,
    pub target_version: u64,
    pub read_only: bool,
    pub upgrade_available: Option<bool>,
}

pub open spec fn truth(b: bool) -> Seq<char> {
    if b {
        "true"@
    } else {
        "false"@
    }
}

fn truth_text(b: bool) -> (r: &'static str)
    ensures
        r@ == truth(b),
{
    if b {
        "true"
    } else {
        "false"
    }
}

pub open spec fn status_text(report: StatusReport) -> Seq<char> {
    "Ledger Status: "@ + report.status@ + "\nPath: "@ + report.path@ + "\nSchema Version: "@
        + (match report.schema_version {
        Some(v) => decimal(v as nat),
        None => "none"@,
    }) + "\nTarget Version: "@ + decimal(report.target_version as nat) + "\nRead Only: "@ + truth(
        report.read_only,
    ) + "\n"@ + match report.upgrade_available {
        Some(up) => "Upgrade Available: "@ + truth(up) + "\n"@,
        None => ""@,
    }
}

/// Say what state the ledger is in.
pub fn render_status(report: &StatusReport) -> (r: String)
    ensures
        r@ == status_text(*report),
{
    let mut out: String = "Ledger Status: ".to_owned();
    out.append(report.status.as_str());
    out.append("\nPath: ");
    out.append(report.path.as_str());
    out.append("\nSchema Version: ");
    match report.schema_version {
        Some(v) => out.append(text::number(v).as_str()),
        None => out.append("none"),
    }
    out.append("\nTarget Version: ");
    out.append(text::number(report.target_version).as_str());
    out.append("\nRead Only: ");
    out.append(truth_text(report.read_only));
    out.append("\n");
    match report.upgrade_available {
        Some(up) => {
            let mut line: String = "Upgrade Available: ".to_owned();
            line.append(truth_text(up));
            line.append("\n");
            out.append(line.as_str());
        },
        None => out.append(""),
    }
    out
}

/// What a retention cleanup removes, or removed.
#[derive(Clone, Debug, PartialEq, Eq)]
pub struct PruneCounts {
    pub cutoff_iso: String,
    pub cutoff_unix_ms: i64,
    pub events: u64,
    pub candidates: u64,
    pub observations: u64,
    pub judgments: u64,
    pub provider_attempts: u64,
    pub snapshots: u64,
    pub shared_snapshots_preserved: u64,
}

pub open spec fn pruned_text(counts: PruneCounts, data_generation: u64) -> Seq<char> {
    "Pruned historical records before "@ + counts.cutoff_iso@ + " (cutoff "@ + signed_decimal(
        counts.cutoff_unix_ms as int,
    ) + "):\n  Events pruned: "@ + decimal(counts.events as nat) + "\n  Candidates pruned: "@
        + decimal(counts.candidates as nat) + "\n  Observations pruned: "@ + decimal(
        counts.observations as nat,
    ) + "\n  Judgments pruned: "@ + decimal(counts.judgments as nat)
        + "\n  Provider attempts pruned: "@ + decimal(counts.provider_attempts as nat)
        + "\n  Snapshots pruned: "@ + decimal(counts.snapshots as nat)
        + "\n  Shared snapshots preserved: "@ + decimal(counts.shared_snapshots_preserved as nat)
        + "\n  New data generation: "@ + decimal(data_generation as nat) + "\n"@
}

/// Say what a retention cleanup removed.
pub fn render_pruned(counts: &PruneCounts, data_generation: u64) -> (r: String)
    ensures
        r@ == pruned_text(*counts, data_generation),
{
    let mut out: String = "Pruned historical records before ".to_owned();
    out.append(counts.cutoff_iso.as_str());
    out.append(" (cutoff ");
    out.append(text::signed_number(counts.cutoff_unix_ms).as_str());
    out.append("):\n  Events pruned: ");
    out.append(text::number(counts.events).as_str());
    out.append("\n  Candidates pruned: ");
    out.append(text::number(counts.candidates).as_str());
    out.append("\n  Observations pruned: ");
    out.append(text::number(counts.observations).as_str());
    out.append("\n  Judgments pruned: ");
    out.append(text::number(counts.judgments).as_str());
    out.append("\n  Provider attempts pruned: ");
    out.append(text::number(counts.provider_attempts).as_str());
    out.append("\n  Snapshots pruned: ");
    out.append(text::number(counts.snapshots).as_str());
    out.append("\n  Shared snapshots preserved: ");
    out.append(text::number(counts.shared_snapshots_preserved).as_str());
    out.append("\n  New data generation: ");
    out.append(text::number(data_generation).as_str());
    out.append("\n");
    out
}

pub open spec fn prune_preview_text(counts: PruneCounts) -> Seq<char> {
    "Prune preview for cutoff "@ + counts.cutoff_iso@ + " ("@ + signed_decimal(
        counts.cutoff_unix_ms as int,
    ) + "):\n  Events to prune: "@ + decimal(counts.events as nat)
        + "\n  Candidates to prune: "@ + decimal(counts.candidates as nat)
        + "\n  Observations to prune: "@ + decimal(counts.observations as nat)
        + "\n  Judgments to prune: "@ + decimal(counts.judgments as nat)
        + "\n  Provider attempts to prune: "@ + decimal(counts.provider_attempts as nat)
        + "\n  Snapshots to prune: "@ + decimal(counts.snapshots as nat)
        + "\n  Shared snapshots preserved: "@ + decimal(counts.shared_snapshots_preserved as nat)
        + "\nPass --apply to execute this retention cleanup.\n"@
}

/// Say what a retention cleanup would remove.
pub fn render_prune_preview(counts: &PruneCounts) -> (r: String)
    ensures
        r@ == prune_preview_text(*counts),
{
    let mut out: String = "Prune preview for cutoff ".to_owned();
    out.append(counts.cutoff_iso.as_str());
    out.append(" (");
    out.append(text::signed_number(counts.cutoff_unix_ms).as_str());
    out.append("):\n  Events to prune: ");
    out.append(text::number(counts.events).as_str());
    out.append("\n  Candidates to prune: ");
    out.append(text::number(counts.candidates).as_str());
    out.append("\n  Observations to prune: ");
    out.append(text::number(counts.observations).as_str());
    out.append("\n  Judgments to prune: ");
    out.append(text::number(counts.judgments).as_str());
    out.append("\n  Provider attempts to prune: ");
    out.append(text::number(counts.provider_attempts).as_str());
    out.append("\n  Snapshots to prune: ");
    out.append(text::number(counts.snapshots).as_str());
    out.append("\n  Shared snapshots preserved: ");
    out.append(text::number(counts.shared_snapshots_preserved).as_str());
    out.append("\nPass --apply to execute this retention cleanup.\n");
    out
}

pub open spec fn cleared_text(records: u64, data_generation: u64) -> Seq<char> {
    "Cleared all historical records ("@ + decimal(records as nat)
        + " total records removed).\nNew data generation: "@ + decimal(data_generation as nat)
        + "\n"@
}

/// Say what clearing the history removed.
pub fn render_cleared(records: u64, data_generation: u64) -> (r: String)
    ensures
        r@ == cleared_text(records, data_generation),
{
    let mut out: String = "Cleared all historical records (".to_owned();
    out.append(text::number(records).as_str());
    out.append(" total records removed).\nNew data generation: ");
    out.append(text::number(data_generation).as_str());
    out.append("\n");
    out
}

/// What clearing the history would remove.
#[derive(Clone, Copy, Debug, PartialEq, Eq, Structural)]
pub struct ClearCounts {
    pub total_records: u64,
    pub events: u64,
    pub candidates: u64,
    pub observations: u64,
    pub judgments: u64,
    pub provider_attempts: u64,
    pub snapshots: u64,
    pub session_cursors: u64,
    pub feedback_proposals: u64,
    pub calibrations: u64,
}

pub open spec fn clear_preview_text(counts: ClearCounts) -> Seq<char> {
    "Clear preview (entire history):\n  Total records to clear: "@ + decimal(
        counts.total_records as nat,
    ) + "\n  Events: "@ + decimal(counts.events as nat) + "\n  Candidates: "@ + decimal(
        counts.candidates as nat,
    ) + "\n  Observations: "@ + decimal(counts.observations as nat) + "\n  Judgments: "@ + decimal(
        counts.judgments as nat,
    ) + "\n  Provider attempts: "@ + decimal(counts.provider_attempts as nat)
        + "\n  Snapshots: "@ + decimal(counts.snapshots as nat) + "\n  Session cursors: "@
        + decimal(counts.session_cursors as nat) + "\n  Feedback proposals: "@ + decimal(
        counts.feedback_proposals as nat,
    ) + "\n  Calibrations: "@ + decimal(counts.calibrations as nat)
        + "\nPass --apply to execute clearing all history.\n"@
}

/// Say what clearing the history would remove.
pub fn render_clear_preview(counts: &ClearCounts) -> (r: String)
    ensures
        r@ == clear_preview_text(*counts),
{
    let mut out: String =
        "Clear preview (entire history):\n  Total records to clear: ".to_owned();
    out.append(text::number(counts.total_records).as_str());
    out.append("\n  Events: ");
    out.append(text::number(counts.events).as_str());
    out.append("\n  Candidates: ");
    out.append(text::number(counts.candidates).as_str());
    out.append("\n  Observations: ");
    out.append(text::number(counts.observations).as_str());
    out.append("\n  Judgments: ");
    out.append(text::number(counts.judgments).as_str());
    out.append("\n  Provider attempts: ");
    out.append(text::number(counts.provider_attempts).as_str());
    out.append("\n  Snapshots: ");
    out.append(text::number(counts.snapshots).as_str());
    out.append("\n  Session cursors: ");
    out.append(text::number(counts.session_cursors).as_str());
    out.append("\n  Feedback proposals: ");
    out.append(text::number(counts.feedback_proposals).as_str());
    out.append("\n  Calibrations: ");
    out.append(text::number(counts.calibrations).as_str());
    out.append("\nPass --apply to execute clearing all history.\n");
    out
}

/// What a ledger command came to.
#[derive(Clone, Debug, PartialEq, Eq)]
pub enum LedgerReport {
    Initialized(InitReport),
    Status(StatusReport),
    Migrated(MigrationReport),
    MigrationPreview(MigrationPreview),
    Pruned { counts: PruneCounts, data_generation: u64 },
    PrunePreview(PruneCounts),
    Cleared { records: u64, data_generation: u64 },
    ClearPreview(ClearCounts),
}

/// What a ledger command says to a person.
pub open spec fn report_text(report: LedgerReport) -> Seq<char> {
    match report {
        LedgerReport::Initialized(report) => init_text(report),
        LedgerReport::Status(report) => status_text(report),
        LedgerReport::Migrated(report) => migration_text(report),
        LedgerReport::MigrationPreview(preview) => preview_text(preview),
        LedgerReport::Pruned { counts, data_generation } => pruned_text(counts, data_generation),
        LedgerReport::PrunePreview(counts) => prune_preview_text(counts),
        LedgerReport::Cleared { records, data_generation } => cleared_text(
            records,
            data_generation,
        ),
        LedgerReport::ClearPreview(counts) => clear_preview_text(counts),
    }
}

/// Say what a ledger command came to.
pub fn render_report(report: &LedgerReport) -> (r: String)
    ensures
        r@ == report_text(*report),
{
    match report {
        LedgerReport::Initialized(report) => render_init(report),
        LedgerReport::Status(report) => render_status(report),
        LedgerReport::Migrated(report) => render_migration(report),
        LedgerReport::MigrationPreview(preview) => render_preview(preview),
        LedgerReport::Pruned { counts, data_generation } => render_pruned(
            counts,
            *data_generation,
        ),
        LedgerReport::PrunePreview(counts) => render_prune_preview(counts),
        LedgerReport::Cleared { records, data_generation } => render_cleared(
            *records,
            *data_generation,
        ),
        LedgerReport::ClearPreview(counts) => render_clear_preview(counts),
    }
}

/// Whether an action works on an opened ledger, rather than on its place.
pub open spec fn opens_ledger(action: LedgerAction) -> bool {
    action is Migrate || action is Prune || action is Clear
}

/// What a ledger command answers: why the ledger did not open for it, else why
/// it failed, else its report as a document where one is asked for, else in
/// words. Initializing says why it failed in words of its own.
pub open spec fn ledger_outcome(
    action: LedgerAction,
    opening: LedgerOpening,
    report: Result<LedgerReport, String>,
    document: Option<Result<String, String>>,
) -> Result<Seq<char>, (u8, Seq<char>, Seq<char>)> {
    if opens_ledger(action) && opening_refusal(action, opening) is Some {
        Err(opening_refusal(action, opening)->0)
    } else {
        match report {
            Err(detail) => Err(
                (
                    9u8,
                    "storage-failure"@,
                    if action is Init {
                        detail@
                    } else {
                        failed_action(action) + detail@
                    },
                ),
            ),
            Ok(report) => match document {
                Some(document) => written(document),
                None => Ok(report_text(report)),
            },
        }
    }
}

/// Answer a ledger command. `document` is the report in writing, where one is
/// asked for.
pub fn finish_ledger(
    action: LedgerAction,
    opening: &LedgerOpening,
    report: Result<LedgerReport, String>,
    document: Option<Result<String, String>>,
) -> (r: Result<String, Failure>)
    ensures
        answers(r, ledger_outcome(action, *opening, report, document)),
{
    match action {
        LedgerAction::Migrate { .. } | LedgerAction::Prune { .. } | LedgerAction::Clear { .. } => {
            if let Err(f) = opened_for(action, opening) {
                return Err(f);
            }
        },
        _ => {},
    }
    match report {
        Err(detail) => match action {
            LedgerAction::Init => Err((9, "storage-failure", detail)),
            _ => Err(action_failure(action, detail.as_str())),
        },
        Ok(report) => match document {
            Some(document) => write_document(document),
            None => Ok(render_report(&report)),
        },
    }
}

/// Every count of a pruning stands on the line that is named after it.
#[verifier::rlimit(40)]
pub proof fn lemma_pruned_lines(counts: PruneCounts, data_generation: u64)
    ensures
        occurs(pruned_text(counts, data_generation), " before "@ + counts.cutoff_iso@ + " ("@),
        occurs(pruned_text(counts, data_generation), " (cutoff "@ + signed_decimal(counts.cutoff_unix_ms as int) + ")"@),
        occurs(pruned_text(counts, data_generation), "\n  Events pruned: "@ + decimal(counts.events as nat) + "\n"@),
        occurs(pruned_text(counts, data_generation), "\n  Candidates pruned: "@ + decimal(counts.candidates as nat) + "\n"@),
        occurs(pruned_text(counts, data_generation), "\n  Observations pruned: "@ + decimal(counts.observations as nat) + "\n"@),
        occurs(pruned_text(counts, data_generation), "\n  Judgments pruned: "@ + decimal(counts.judgments as nat) + "\n"@),
        occurs(pruned_text(counts, data_generation), "\n  Provider attempts pruned: "@ + decimal(counts.provider_attempts as nat) + "\n"@),
        occurs(pruned_text(counts, data_generation), "\n  Snapshots pruned: "@ + decimal(counts.snapshots as nat) + "\n"@),
        occurs(pruned_text(counts, data_generation), "\n  Shared snapshots preserved: "@ + decimal(counts.shared_snapshots_preserved as nat) + "\n"@),
        occurs(pruned_text(counts, data_generation), "\n  New data generation: "@ + decimal(data_generation as nat) + "\n"@),
{
    reveal_strlit("Pruned historical records before ");
    let y0 = "Pruned historical records before "@;
    reveal_strlit(" before ");
    reveal_strlit(" (cutoff ");
    reveal_strlit(" (");
    assert(y0.skip(y0.len() - " before "@.len()) =~= " before "@);
    assert(" (cutoff "@.take(" ("@.len() as int) =~= " ("@);
    lemma_value_shown(y0, counts.cutoff_iso@, " (cutoff "@, " before "@, " ("@);
    let y1 = y0 + counts.cutoff_iso@ + " (cutoff "@;
    reveal_strlit("):\n  Events pruned: ");
    reveal_strlit(")");
    assert(y1.skip(y1.len() - " (cutoff "@.len()) =~= " (cutoff "@);
    assert("):\n  Events pruned: "@.take(")"@.len() as int) =~= ")"@);
    lemma_value_shown(y1, signed_decimal(counts.cutoff_unix_ms as int), "):\n  Events pruned: "@, " (cutoff "@, ")"@);
    let y2 = y1 + signed_decimal(counts.cutoff_unix_ms as int) + "):\n  Events pruned: "@;
    reveal_strlit("\n  Events pruned: ");
    reveal_strlit("\n  Candidates pruned: ");
    reveal_strlit("\n");
    assert(y2.skip(y2.len() - "\n  Events pruned: "@.len()) =~= "\n  Events pruned: "@);
    assert("\n  Candidates pruned: "@.take("\n"@.len() as int) =~= "\n"@);
    lemma_value_shown(y2, decimal(counts.events as nat), "\n  Candidates pruned: "@, "\n  Events pruned: "@, "\n"@);
    let y3 = y2 + decimal(counts.events as nat) + "\n  Candidates pruned: "@;
    reveal_strlit("\n  Observations pruned: ");
    assert(y3.skip(y3.len() - "\n  Candidates pruned: "@.len()) =~= "\n  Candidates pruned: "@);
    assert("\n  Observations pruned: "@.take("\n"@.len() as int) =~= "\n"@);
    lemma_value_shown(y3, decimal(counts.candidates as nat), "\n  Observations pruned: "@, "\n  Candidates pruned: "@, "\n"@);
    let y4 = y3 + decimal(counts.candidates as nat) + "\n  Observations pruned: "@;
    reveal_strlit("\n  Judgments pruned: ");
    assert(y4.skip(y4.len() - "\n  Observations pruned: "@.len()) =~= "\n  Observations pruned: "@);
    assert("\n  Judgments pruned: "@.take("\n"@.len() as int) =~= "\n"@);
    lemma_value_shown(y4, decimal(counts.observations as nat), "\n  Judgments pruned: "@, "\n  Observations pruned: "@, "\n"@);
    let y5 = y4 + decimal(counts.observations as nat) + "\n  Judgments pruned: "@;
    reveal_strlit("\n  Provider attempts pruned: ");
    assert(y5.skip(y5.len() - "\n  Judgments pruned: "@.len()) =~= "\n  Judgments pruned: "@);
    assert("\n  Provider attempts pruned: "@.take("\n"@.len() as int) =~= "\n"@);
    lemma_value_shown(y5, decimal(counts.judgments as nat), "\n  Provider attempts pruned: "@, "\n  Judgments pruned: "@, "\n"@);
    let y6 = y5 + decimal(counts.judgments as nat) + "\n  Provider attempts pruned: "@;
    reveal_strlit("\n  Snapshots pruned: ");
    assert(y6.skip(y6.len() - "\n  Provider attempts pruned: "@.len()) =~= "\n  Provider attempts pruned: "@);
    assert("\n  Snapshots pruned: "@.take("\n"@.len() as int) =~= "\n"@);
    lemma_value_shown(y6, decimal(counts.provider_attempts as nat), "\n  Snapshots pruned: "@, "\n  Provider attempts pruned: "@, "\n"@);
    let y7 = y6 + decimal(counts.provider_attempts as nat) + "\n  Snapshots pruned: "@;
    reveal_strlit("\n  Shared snapshots preserved: ");
    assert(y7.skip(y7.len() - "\n  Snapshots pruned: "@.len()) =~= "\n  Snapshots pruned: "@);
    assert("\n  Shared snapshots preserved: "@.take("\n"@.len() as int) =~= "\n"@);
    lemma_value_shown(y7, decimal(counts.snapshots as nat), "\n  Shared snapshots preserved: "@, "\n  Snapshots pruned: "@, "\n"@);
    let y8 = y7 + decimal(counts.snapshots as nat) + "\n  Shared snapshots preserved: "@;
    reveal_strlit("\n  New data generation: ");
    assert(y8.skip(y8.len() - "\n  Shared snapshots preserved: "@.len()) =~= "\n  Shared snapshots preserved: "@);
    assert("\n  New data generation: "@.take("\n"@.len() as int) =~= "\n"@);
    lemma_value_shown(y8, decimal(counts.shared_snapshots_preserved as nat), "\n  New data generation: "@, "\n  Shared snapshots preserved: "@, "\n"@);
    let y9 = y8 + decimal(counts.shared_snapshots_preserved as nat) + "\n  New data generation: "@;
    assert(y9.skip(y9.len() - "\n  New data generation: "@.len()) =~= "\n  New data generation: "@);
    assert("\n"@.take("\n"@.len() as int) =~= "\n"@);
    lemma_value_shown(y9, decimal(data_generation as nat), "\n"@, "\n  New data generation: "@, "\n"@);
    let y10 = y9 + decimal(data_generation as nat) + "\n"@;
    assert(y10 == pruned_text(counts, data_generation));
}

/// Every count of a pruning that is only previewed stands on the line that is
/// named after it.
#[verifier::rlimit(40)]
pub proof fn lemma_prune_preview_lines(counts: PruneCounts)
    ensures
        occurs(prune_preview_text(counts), " for cutoff "@ + counts.cutoff_iso@ + " ("@),
        occurs(prune_preview_text(counts), " ("@ + signed_decimal(counts.cutoff_unix_ms as int) + ")"@),
        occurs(prune_preview_text(counts), "\n  Events to prune: "@ + decimal(counts.events as nat) + "\n"@),
        occurs(prune_preview_text(counts), "\n  Candidates to prune: "@ + decimal(counts.candidates as nat) + "\n"@),
        occurs(prune_preview_text(counts), "\n  Observations to prune: "@ + decimal(counts.observations as nat) + "\n"@),
        occurs(prune_preview_text(counts), "\n  Judgments to prune: "@ + decimal(counts.judgments as nat) + "\n"@),
        occurs(prune_preview_text(counts), "\n  Provider attempts to prune: "@ + decimal(counts.provider_attempts as nat) + "\n"@),
        occurs(prune_preview_text(counts), "\n  Snapshots to prune: "@ + decimal(counts.snapshots as nat) + "\n"@),
        occurs(prune_preview_text(counts), "\n  Shared snapshots preserved: "@ + decimal(counts.shared_snapshots_preserved as nat) + "\n"@),
{
    reveal_strlit("Prune preview for cutoff ");
    let y0 = "Prune preview for cutoff "@;
    reveal_strlit(" for cutoff ");
    reveal_strlit(" (");
    assert(y0.skip(y0.len() - " for cutoff "@.len()) =~= " for cutoff "@);
    assert(" ("@.take(" ("@.len() as int) =~= " ("@);
    lemma_value_shown(y0, counts.cutoff_iso@, " ("@, " for cutoff "@, " ("@);
    let y1 = y0 + counts.cutoff_iso@ + " ("@;
    reveal_strlit("):\n  Events to prune: ");
    reveal_strlit(")");
    assert(y1.skip(y1.len() - " ("@.len()) =~= " ("@);
    assert("):\n  Events to prune: "@.take(")"@.len() as int) =~= ")"@);
    lemma_value_shown(y1, signed_decimal(counts.cutoff_unix_ms as int), "):\n  Events to prune: "@, " ("@, ")"@);
    let y2 = y1 + signed_decimal(counts.cutoff_unix_ms as int) + "):\n  Events to prune: "@;
    reveal_strlit("\n  Events to prune: ");
    reveal_strlit("\n  Candidates to prune: ");
    reveal_strlit("\n");
    assert(y2.skip(y2.len() - "\n  Events to prune: "@.len()) =~= "\n  Events to prune: "@);
    assert("\n  Candidates to prune: "@.take("\n"@.len() as int) =~= "\n"@);
    lemma_value_shown(y2, decimal(counts.events as nat), "\n  Candidates to prune: "@, "\n  Events to prune: "@, "\n"@);
    let y3 = y2 + decimal(counts.events as nat) + "\n  Candidates to prune: "@;
    reveal_strlit("\n  Observations to prune: ");
    assert(y3.skip(y3.len() - "\n  Candidates to prune: "@.len()) =~= "\n  Candidates to prune: "@);
    assert("\n  Observations to prune: "@.take("\n"@.len() as int) =~= "\n"@);
    lemma_value_shown(y3, decimal(counts.candidates as nat), "\n  Observations to prune: "@, "\n  Candidates to prune: "@, "\n"@);
    let y4 = y3 + decimal(counts.candidates as nat) + "\n  Observations to prune: "@;
    reveal_strlit("\n  Judgments to prune: ");
    assert(y4.skip(y4.len() - "\n  Observations to prune: "@.len()) =~= "\n  Observations to prune: "@);
    assert("\n  Judgments to prune: "@.take("\n"@.len() as int) =~= "\n"@);
    lemma_value_shown(y4, decimal(counts.observations as nat), "\n  Judgments to prune: "@, "\n  Observations to prune: "@, "\n"@);
    let y5 = y4 + decimal(counts.observations as nat) + "\n  Judgments to prune: "@;
    reveal_strlit("\n  Provider attempts to prune: ");
    assert(y5.skip(y5.len() - "\n  Judgments to prune: "@.len()) =~= "\n  Judgments to prune: "@);
    assert("\n  Provider attempts to prune: "@.take("\n"@.len() as int) =~= "\n"@);
    lemma_value_shown(y5, decimal(counts.judgments as nat), "\n  Provider attempts to prune: "@, "\n  Judgments to prune: "@, "\n"@);
    let y6 = y5 + decimal(counts.judgments as nat) + "\n  Provider attempts to prune: "@;
    reveal_strlit("\n  Snapshots to prune: ");
    assert(y6.skip(y6.len() - "\n  Provider attempts to prune: "@.len()) =~= "\n  Provider attempts to prune: "@);
    assert("\n  Snapshots to prune: "@.take("\n"@.len() as int) =~= "\n"@);
    lemma_value_shown(y6, decimal(counts.provider_attempts as nat), "\n  Snapshots to prune: "@, "\n  Provider attempts to prune: "@, "\n"@);
    let y7 = y6 + decimal(counts.provider_attempts as nat) + "\n  Snapshots to prune: "@;
    reveal_strlit("\n  Shared snapshots preserved: ");
    assert(y7.skip(y7.len() - "\n  Snapshots to prune: "@.len()) =~= "\n  Snapshots to prune: "@);
    assert("\n  Shared snapshots preserved: "@.take("\n"@.len() as int) =~= "\n"@);
    lemma_value_shown(y7, decimal(counts.snapshots as nat), "\n  Shared snapshots preserved: "@, "\n  Snapshots to prune: "@, "\n"@);
    let y8 = y7 + decimal(counts.snapshots as nat) + "\n  Shared snapshots preserved: "@;
    reveal_strlit("\nPass --apply to execute this retention cleanup.\n");
    assert(y8.skip(y8.len() - "\n  Shared snapshots preserved: "@.len()) =~= "\n  Shared snapshots preserved: "@);
    assert("\nPass --apply to execute this retention cleanup.\n"@.take("\n"@.len() as int) =~= "\n"@);
    lemma_value_shown(y8, decimal(counts.shared_snapshots_preserved as nat), "\nPass --apply to execute this retention cleanup.\n"@, "\n  Shared snapshots preserved: "@, "\n"@);
    let y9 = y8 + decimal(counts.shared_snapshots_preserved as nat) + "\nPass --apply to execute this retention cleanup.\n"@;
    assert(y9 == prune_preview_text(counts));
}

/// Both numbers of a cleared ledger stand where they are named.
#[verifier::rlimit(40)]
pub proof fn lemma_cleared_lines(records: u64, data_generation: u64)
    ensures
        occurs(cleared_text(records, data_generation), " ("@ + decimal(records as nat) + " total records removed"@),
        occurs(cleared_text(records, data_generation), "\nNew data generation: "@ + decimal(data_generation as nat) + "\n"@),
{
    reveal_strlit("Cleared all historical records (");
    let y0 = "Cleared all historical records ("@;
    reveal_strlit(" (");
    reveal_strlit(" total records removed).\nNew data generation: ");
    reveal_strlit(" total records removed");
    assert(y0.skip(y0.len() - " ("@.len()) =~= " ("@);
    assert(" total records removed).\nNew data generation: "@.take(" total records removed"@.len() as int) =~= " total records removed"@);
    lemma_value_shown(y0, decimal(records as nat), " total records removed).\nNew data generation: "@, " ("@, " total records removed"@);
    let y1 = y0 + decimal(records as nat) + " total records removed).\nNew data generation: "@;
    reveal_strlit("\nNew data generation: ");
    reveal_strlit("\n");
    assert(y1.skip(y1.len() - "\nNew data generation: "@.len()) =~= "\nNew data generation: "@);
    assert("\n"@.take("\n"@.len() as int) =~= "\n"@);
    lemma_value_shown(y1, decimal(data_generation as nat), "\n"@, "\nNew data generation: "@, "\n"@);
    let y2 = y1 + decimal(data_generation as nat) + "\n"@;
    assert(y2 == cleared_text(records, data_generation));
}

/// Every count of what clearing would remove stands on the line that is named
/// after it.
#[verifier::rlimit(40)]
pub proof fn lemma_clear_preview_lines(counts: ClearCounts)
    ensures
        occurs(clear_preview_text(counts), "  Total records to clear: "@ + decimal(counts.total_records as nat) + "\n"@),
        occurs(clear_preview_text(counts), "\n  Events: "@ + decimal(counts.events as nat) + "\n"@),
        occurs(clear_preview_text(counts), "\n  Candidates: "@ + decimal(counts.candidates as nat) + "\n"@),
        occurs(clear_preview_text(counts), "\n  Observations: "@ + decimal(counts.observations as nat) + "\n"@),
        occurs(clear_preview_text(counts), "\n  Judgments: "@ + decimal(counts.judgments as nat) + "\n"@),
        occurs(clear_preview_text(counts), "\n  Provider attempts: "@ + decimal(counts.provider_attempts as nat) + "\n"@),
        occurs(clear_preview_text(counts), "\n  Snapshots: "@ + decimal(counts.snapshots as nat) + "\n"@),
        occurs(clear_preview_text(counts), "\n  Session cursors: "@ + decimal(counts.session_cursors as nat) + "\n"@),
        occurs(clear_preview_text(counts), "\n  Feedback proposals: "@ + decimal(counts.feedback_proposals as nat) + "\n"@),
        occurs(clear_preview_text(counts), "\n  Calibrations: "@ + decimal(counts.calibrations as nat) + "\n"@),
{
    reveal_strlit("Clear preview (entire history):\n  Total records to clear: ");
    let y0 = "Clear preview (entire history):\n  Total records to clear: "@;
    reveal_strlit("  Total records to clear: ");
    reveal_strlit("\n  Events: ");
    reveal_strlit("\n");
    assert(y0.skip(y0.len() - "  Total records to clear: "@.len()) =~= "  Total records to clear: "@);
    assert("\n  Events: "@.take("\n"@.len() as int) =~= "\n"@);
    lemma_value_shown(y0, decimal(counts.total_records as nat), "\n  Events: "@, "  Total records to clear: "@, "\n"@);
    let y1 = y0 + decimal(counts.total_records as nat) + "\n  Events: "@;
    reveal_strlit("\n  Candidates: ");
    assert(y1.skip(y1.len() - "\n  Events: "@.len()) =~= "\n  Events: "@);
    assert("\n  Candidates: "@.take("\n"@.len() as int) =~= "\n"@);
    lemma_value_shown(y1, decimal(counts.events as nat), "\n  Candidates: "@, "\n  Events: "@, "\n"@);
    let y2 = y1 + decimal(counts.events as nat) + "\n  Candidates: "@;
    reveal_strlit("\n  Observations: ");
    assert(y2.skip(y2.len() - "\n  Candidates: "@.len()) =~= "\n  Candidates: "@);
    assert("\n  Observations: "@.take("\n"@.len() as int) =~= "\n"@);
    lemma_value_shown(y2, decimal(counts.candidates as nat), "\n  Observations: "@, "\n  Candidates: "@, "\n"@);
    let y3 = y2 + decimal(counts.candidates as nat) + "\n  Observations: "@;
    reveal_strlit("\n  Judgments: ");
    assert(y3.skip(y3.len() - "\n  Observations: "@.len()) =~= "\n  Observations: "@);
    assert("\n  Judgments: "@.take("\n"@.len() as int) =~= "\n"@);
    lemma_value_shown(y3, decimal(counts.observations as nat), "\n  Judgments: "@, "\n  Observations: "@, "\n"@);
    let y4 = y3 + decimal(counts.observations as nat) + "\n  Judgments: "@;
    reveal_strlit("\n  Provider attempts: ");
    assert(y4.skip(y4.len() - "\n  Judgments: "@.len()) =~= "\n  Judgments: "@);
    assert("\n  Provider attempts: "@.take("\n"@.len() as int) =~= "\n"@);
    lemma_value_shown(y4, decimal(counts.judgments as nat), "\n  Provider attempts: "@, "\n  Judgments: "@, "\n"@);
    let y5 = y4 + decimal(counts.judgments as nat) + "\n  Provider attempts: "@;
    reveal_strlit("\n  Snapshots: ");
    assert(y5.skip(y5.len() - "\n  Provider attempts: "@.len()) =~= "\n  Provider attempts: "@);
    assert("\n  Snapshots: "@.take("\n"@.len() as int) =~= "\n"@);
    lemma_value_shown(y5, decimal(counts.provider_attempts as nat), "\n  Snapshots: "@, "\n  Provider attempts: "@, "\n"@);
    let y6 = y5 + decimal(counts.provider_attempts as nat) + "\n  Snapshots: "@;
    reveal_strlit("\n  Session cursors: ");
    assert(y6.skip(y6.len() - "\n  Snapshots: "@.len()) =~= "\n  Snapshots: "@);
    assert("\n  Session cursors: "@.take("\n"@.len() as int) =~= "\n"@);
    lemma_value_shown(y6, decimal(counts.snapshots as nat), "\n  Session cursors: "@, "\n  Snapshots: "@, "\n"@);
    let y7 = y6 + decimal(counts.snapshots as nat) + "\n  Session cursors: "@;
    reveal_strlit("\n  Feedback proposals: ");
    assert(y7.skip(y7.len() - "\n  Session cursors: "@.len()) =~= "\n  Session cursors: "@);
    assert("\n  Feedback proposals: "@.take("\n"@.len() as int) =~= "\n"@);
    lemma_value_shown(y7, decimal(counts.session_cursors as nat), "\n  Feedback proposals: "@, "\n  Session cursors: "@, "\n"@);
    let y8 = y7 + decimal(counts.session_cursors as nat) + "\n  Feedback proposals: "@;
    reveal_strlit("\n  Calibrations: ");
    assert(y8.skip(y8.len() - "\n  Feedback proposals: "@.len()) =~= "\n  Feedback proposals: "@);
    assert("\n  Calibrations: "@.take("\n"@.len() as int) =~= "\n"@);
    lemma_value_shown(y8, decimal(counts.feedback_proposals as nat), "\n  Calibrations: "@, "\n  Feedback proposals: "@, "\n"@);
    let y9 = y8 + decimal(counts.feedback_proposals as nat) + "\n  Calibrations: "@;
    reveal_strlit("\nPass --apply to execute clearing all history.\n");
    assert(y9.skip(y9.len() - "\n  Calibrations: "@.len()) =~= "\n  Calibrations: "@);
    assert("\nPass --apply to execute clearing all history.\n"@.take("\n"@.len() as int) =~= "\n"@);
    lemma_value_shown(y9, decimal(counts.calibrations as nat), "\nPass --apply to execute clearing all history.\n"@, "\n  Calibrations: "@, "\n"@);
    let y10 = y9 + decimal(counts.calibrations as nat) + "\nPass --apply to execute clearing all history.\n"@;
    assert(y10 == clear_preview_text(counts));
}

/// A migration says from which version to which it went, where the backup is and
/// how large, and what was applied.
#[verifier::rlimit(40)]
pub proof fn lemma_migration_lines(report: MigrationReport)
    ensures
        occurs(migration_text(report), " from version "@ + decimal(report.from_version as nat) + " to "@),
        occurs(migration_text(report), " to "@ + decimal(report.to_version as nat) + "."@),
        occurs(migration_text(report), "\nBackup saved to "@ + report.backup_path@ + " ("@),
        occurs(migration_text(report), " ("@ + decimal(report.backup_bytes as nat) + " bytes)"@),
        occurs(migration_text(report), "\nApplied migrations: "@ + text::joined(text::views(report.applied_migrations@), ", "@) + "\n"@),
{
    reveal_strlit("Successfully migrated ledger from version ");
    let y0 = "Successfully migrated ledger from version "@;
    reveal_strlit(" from version ");
    reveal_strlit(" to ");
    assert(y0.skip(y0.len() - " from version "@.len()) =~= " from version "@);
    assert(" to "@.take(" to "@.len() as int) =~= " to "@);
    lemma_value_shown(y0, decimal(report.from_version as nat), " to "@, " from version "@, " to "@);
    let y1 = y0 + decimal(report.from_version as nat) + " to "@;
    reveal_strlit(".\nBackup saved to ");
    reveal_strlit(".");
    assert(y1.skip(y1.len() - " to "@.len()) =~= " to "@);
    assert(".\nBackup saved to "@.take("."@.len() as int) =~= "."@);
    lemma_value_shown(y1, decimal(report.to_version as nat), ".\nBackup saved to "@, " to "@, "."@);
    let y2 = y1 + decimal(report.to_version as nat) + ".\nBackup saved to "@;
    reveal_strlit("\nBackup saved to ");
    reveal_strlit(" (");
    assert(y2.skip(y2.len() - "\nBackup saved to "@.len()) =~= "\nBackup saved to "@);
    assert(" ("@.take(" ("@.len() as int) =~= " ("@);
    lemma_value_shown(y2, report.backup_path@, " ("@, "\nBackup saved to "@, " ("@);
    let y3 = y2 + report.backup_path@ + " ("@;
    reveal_strlit(" bytes).\nApplied migrations: ");
    reveal_strlit(" bytes)");
    assert(y3.skip(y3.len() - " ("@.len()) =~= " ("@);
    assert(" bytes).\nApplied migrations: "@.take(" bytes)"@.len() as int) =~= " bytes)"@);
    lemma_value_shown(y3, decimal(report.backup_bytes as nat), " bytes).\nApplied migrations: "@, " ("@, " bytes)"@);
    let y4 = y3 + decimal(report.backup_bytes as nat) + " bytes).\nApplied migrations: "@;
    reveal_strlit("\nApplied migrations: ");
    reveal_strlit("\n");
    assert(y4.skip(y4.len() - "\nApplied migrations: "@.len()) =~= "\nApplied migrations: "@);
    assert("\n"@.take("\n"@.len() as int) =~= "\n"@);
    lemma_value_shown(y4, text::joined(text::views(report.applied_migrations@), ", "@), "\n"@, "\nApplied migrations: "@, "\n"@);
    let y5 = y4 + text::joined(text::views(report.applied_migrations@), ", "@) + "\n"@;
    assert(y5 == migration_text(report));
}

/// A preview says from which version to which a migration would go and what room
/// it needs, and lists what is pending, or that nothing is.
#[verifier::rlimit(40)]
pub proof fn lemma_migration_preview_lines(preview: MigrationPreview)
    ensures
        occurs(preview_text(preview), "current version "@ + decimal(preview.current_version as nat) + ","@),
        occurs(preview_text(preview), ", target version "@ + decimal(preview.target_version as nat) + "."@),
        occurs(preview_text(preview), "\nRequired headroom: "@ + decimal(preview.required_headroom_bytes as nat) + " bytes.\n"@),
        preview.pending_migrations@.len() == 0 ==> occurs(preview_text(preview), "Schema is already up to date. No pending migrations.\n"@),
        preview.pending_migrations@.len() > 0 ==> occurs(preview_text(preview), pending_rows(preview.pending_migrations@)),
{
    reveal_strlit("Migration preview: current version ");
    let y0 = "Migration preview: current version "@;
    reveal_strlit("current version ");
    reveal_strlit(", target version ");
    reveal_strlit(",");
    assert(y0.skip(y0.len() - "current version "@.len()) =~= "current version "@);
    assert(", target version "@.take(","@.len() as int) =~= ","@);
    lemma_value_shown(y0, decimal(preview.current_version as nat), ", target version "@, "current version "@, ","@);
    let y1 = y0 + decimal(preview.current_version as nat) + ", target version "@;
    reveal_strlit(".\nRequired headroom: ");
    reveal_strlit(".");
    assert(y1.skip(y1.len() - ", target version "@.len()) =~= ", target version "@);
    assert(".\nRequired headroom: "@.take("."@.len() as int) =~= "."@);
    lemma_value_shown(y1, decimal(preview.target_version as nat), ".\nRequired headroom: "@, ", target version "@, "."@);
    let y2 = y1 + decimal(preview.target_version as nat) + ".\nRequired headroom: "@;
    reveal_strlit("\nRequired headroom: ");
    reveal_strlit(" bytes.\n");
    assert(y2.skip(y2.len() - "\nRequired headroom: "@.len()) =~= "\nRequired headroom: "@);
    assert(" bytes.\n"@.take(" bytes.\n"@.len() as int) =~= " bytes.\n"@);
    lemma_value_shown(y2, decimal(preview.required_headroom_bytes as nat), " bytes.\n"@, "\nRequired headroom: "@, " bytes.\n"@);
    let y3 = y2 + decimal(preview.required_headroom_bytes as nat) + " bytes.\n"@;
    let piece3 = if preview.pending_migrations@.len() == 0 {
        "Schema is already up to date. No pending migrations.\n"@
    } else {
        pending_rows(preview.pending_migrations@)
    };
    lemma_appended(y3, piece3);
    let y4 = y3 + piece3;
    assert(y4 == preview_text(preview));
}

/// A status says every part of it on the line that is named after it: a version
/// that is unknown is none, and an upgrade is spoken of only where that is known.
#[verifier::rlimit(40)]
pub proof fn lemma_status_lines(report: StatusReport)
    ensures
        occurs(status_text(report), "Ledger Status: "@ + report.status@ + "\n"@),
        occurs(status_text(report), "\nPath: "@ + report.path@ + "\n"@),
        occurs(status_text(report), "\nTarget Version: "@ + decimal(report.target_version as nat) + "\n"@),
        report.schema_version is Some ==> occurs(status_text(report), "\nSchema Version: "@ + decimal(report.schema_version->0 as nat) + "\n"@),
        report.schema_version is None ==> occurs(status_text(report), "\nSchema Version: "@ + "none"@ + "\n"@),
        report.read_only ==> occurs(status_text(report), "\nRead Only: "@ + "true"@ + "\n"@),
        !report.read_only ==> occurs(status_text(report), "\nRead Only: "@ + "false"@ + "\n"@),
        report.upgrade_available == Some(true) ==> occurs(status_text(report), "Upgrade Available: "@ + "true"@ + "\n"@),
        report.upgrade_available == Some(false) ==> occurs(status_text(report), "Upgrade Available: "@ + "false"@ + "\n"@),
{
    reveal_strlit("Ledger Status: ");
    let y0 = "Ledger Status: "@;
    reveal_strlit("\nPath: ");
    reveal_strlit("\n");
    assert(y0.skip(y0.len() - "Ledger Status: "@.len()) =~= "Ledger Status: "@);
    assert("\nPath: "@.take("\n"@.len() as int) =~= "\n"@);
    lemma_value_shown(y0, report.status@, "\nPath: "@, "Ledger Status: "@, "\n"@);
    let y1 = y0 + report.status@ + "\nPath: "@;
    reveal_strlit("\nSchema Version: ");
    assert(y1.skip(y1.len() - "\nPath: "@.len()) =~= "\nPath: "@);
    assert("\nSchema Version: "@.take("\n"@.len() as int) =~= "\n"@);
    lemma_value_shown(y1, report.path@, "\nSchema Version: "@, "\nPath: "@, "\n"@);
    let y2 = y1 + report.path@ + "\nSchema Version: "@;
    let version = match report.schema_version {
        Some(v) => decimal(v as nat),
        None => "none"@,
    };
    reveal_strlit("\nTarget Version: ");
    assert(y2.skip(y2.len() - "\nSchema Version: "@.len()) =~= "\nSchema Version: "@);
    assert("\nTarget Version: "@.take("\n"@.len() as int) =~= "\n"@);
    lemma_value_shown(y2, version, "\nTarget Version: "@, "\nSchema Version: "@, "\n"@);
    let y3 = y2 + version + "\nTarget Version: "@;
    reveal_strlit("\nRead Only: ");
    assert(y3.skip(y3.len() - "\nTarget Version: "@.len()) =~= "\nTarget Version: "@);
    assert("\nRead Only: "@.take("\n"@.len() as int) =~= "\n"@);
    lemma_value_shown(y3, decimal(report.target_version as nat), "\nRead Only: "@, "\nTarget Version: "@, "\n"@);
    let y4 = y3 + decimal(report.target_version as nat) + "\nRead Only: "@;
    assert(y4.skip(y4.len() - "\nRead Only: "@.len()) =~= "\nRead Only: "@);
    assert("\n"@.take("\n"@.len() as int) =~= "\n"@);
    lemma_value_shown(y4, truth(report.read_only), "\n"@, "\nRead Only: "@, "\n"@);
    let y5 = y4 + truth(report.read_only) + "\n"@;
    let piece5 = match report.upgrade_available {
        Some(up) => "Upgrade Available: "@ + truth(up) + "\n"@,
        None => ""@,
    };
    lemma_appended(y5, piece5);
    let y6 = y5 + piece5;
    assert(y6 == status_text(report));
}

/// A pending migration is listed with its version, its name and its checksum, and
/// described on the line below.
pub proof fn lemma_pending_migration_lines(pending: Seq<PendingMigration>, i: int)
    requires
        0 <= i < pending.len(),
    ensures
        occurs(
            pending_rows(pending),
            "  - v"@ + decimal(pending[i].version as nat) + ": "@ + pending[i].name@
                + " (checksum: "@ + pending[i].checksum@ + ")\n    "@ + pending[i].description@
                + "\n"@,
        ),
    decreases pending.len(),
{
    let before = pending_rows(pending.drop_last());
    let m = pending.last();
    let line = "  - v"@ + decimal(m.version as nat) + ": "@ + m.name@ + " (checksum: "@
        + m.checksum@ + ")\n    "@ + m.description@ + "\n"@;
    assert(pending_rows(pending) =~= before + line);
    lemma_appended(before, line);
    if i < pending.len() - 1 {
        lemma_pending_migration_lines(pending.drop_last(), i);
        assert(pending.drop_last()[i] == pending[i]);
    }
}

/// A new ledger is said to be one, and an old one to be current, each with its
/// path, its version and its incarnation.
pub proof fn lemma_init_line(report: InitReport)
    ensures
        report.created ==> text::has_prefix(
            init_text(report),
            "Initialized new ledger at "@ + report.path@,
        ),
        !report.created ==> text::has_prefix(
            init_text(report),
            "Ledger at "@ + report.path@ + " is already current"@,
        ),
        occurs(
            init_text(report),
            "(schema version "@ + decimal(report.schema_version as nat) + ", incarnation "@
                + report.incarnation@ + ")"@,
        ),
{
    let version = decimal(report.schema_version as nat);
    let part = "(schema version "@ + version + ", incarnation "@ + report.incarnation@ + ")"@;
    let head = if report.created {
        "Initialized new ledger at "@ + report.path@ + " "@
    } else {
        "Ledger at "@ + report.path@ + " is already current "@
    };
    reveal_strlit(" (schema version ");
    reveal_strlit(" ");
    reveal_strlit("(schema version ");
    reveal_strlit(" is already current (schema version ");
    reveal_strlit(" is already current ");
    reveal_strlit(" is already current");
    reveal_strlit(")\n");
    reveal_strlit(")");
    reveal_strlit("\n");
    let opened = if report.created {
        "Initialized new ledger at "@ + report.path@ + " (schema version "@
    } else {
        "Ledger at "@ + report.path@ + " is already current (schema version "@
    };
    assert(opened =~= head + "(schema version "@);
    assert(")\n"@ =~= ")"@ + "\n"@);
    assert(init_text(report) =~= head + part + "\n"@);
    lemma_occurs_between(head, part, "\n"@);
    if report.created {
        let front = "Initialized new ledger at "@ + report.path@;
        assert(init_text(report).take(front.len() as int) =~= front);
    } else {
        let front = "Ledger at "@ + report.path@ + " is already current"@;
        assert(init_text(report).take(front.len() as int) =~= front);
    }
}

/// A subcommand is the one its name says, and changes the ledger exactly where it
/// migrates, prunes or clears and was told to apply that.
pub proof fn lemma_subcommands_are_what_they_are_called(apply: bool)
    ensures
        action_of("init"@, false, apply) is Init,
        action_of("status"@, false, apply) is Status,
        action_of("migrate"@, false, apply) == (LedgerAction::Migrate { apply }),
        action_of("prune"@, false, apply) == (LedgerAction::Prune { apply }),
        action_of("clear"@, false, apply) == (LedgerAction::Clear { apply }),
        forall|name: Seq<char>| (#[trigger] action_of(name, true, apply)) is Help,
        forall|name: Seq<char>, help: bool|
            mutates(#[trigger] action_of(name, help, apply)) ==> apply && !help && name != "init"@
                && name != "status"@,
{
    reveal_strlit("init");
    reveal_strlit("status");
    reveal_strlit("migrate");
    reveal_strlit("prune");
    reveal_strlit("clear");
    assert("init"@.len() == 4 && "status"@.len() == 6 && "migrate"@.len() == 7);
    assert("prune"@.len() == 5 && "prune"@[0] == 'p');
    assert("clear"@.len() == 5 && "clear"@[0] == 'c');
}

/// A subcommand is refused exactly where none is named, or one that is unknown
/// without asking for help.
pub proof fn lemma_subcommands_that_are_refused(name: Seq<char>, help: bool)
    ensures
        action_refusal(None, help) is Some,
        action_refusal(Some(name), true) is None,
        action_refusal(Some(name), false) is None <==> name == "init"@ || name == "status"@ || name
            == "migrate"@ || name == "prune"@ || name == "clear"@,
        action_refusal(Some(name), false) is Some ==> ends_in(
            (action_refusal(Some(name), false)->0).2,
            name,
        ),
{
    let message = "Unknown ledger subcommand: "@ + name;
    assert(message.skip(message.len() - name.len()) =~= name);
}

/// History is kept from the cutoff that was asked for, else for the retention that
/// is configured, back from now: a longer retention keeps no less.
pub proof fn lemma_cutoff_is_asked_or_retained(
    now: i64,
    asked: Option<Result<i64, String>>,
    retention_ms: i64,
    longer_ms: i64,
)
    requires
        retention_ms <= longer_ms,
    ensures
        asked is Some && asked->0 is Ok ==> cutoff_of(Some(now), asked, retention_ms) == Ok::<
            int,
            (u8, Seq<char>, Seq<char>),
        >(asked->0->Ok_0 as int),
        asked is Some && asked->0 is Err ==> cutoff_of(Some(now), asked, retention_ms) is Err && (
        cutoff_of(Some(now), asked, retention_ms)->Err_0).0 == 2,
        i64::MIN <= now - retention_ms <= i64::MAX ==> cutoff_of(Some(now), None, retention_ms)
            == Ok::<int, (u8, Seq<char>, Seq<char>)>(now - retention_ms),
        cutoff_of(Some(now), None, longer_ms)->Ok_0 <= cutoff_of(
            Some(now),
            None,
            retention_ms,
        )->Ok_0,
        cutoff_of(None, asked, retention_ms) is Err && (cutoff_of(
            None,
            asked,
            retention_ms,
        )->Err_0).0 == 9,
{
}

/// A ledger that is missing, closed or cannot be opened serves no subcommand, and
/// one that is read-only serves those that change nothing.
pub proof fn lemma_what_an_opened_ledger_serves(action: LedgerAction, opening: LedgerOpening)
    ensures
        opening_refusal(action, opening) is None <==> opening is Ready || opening is ReadOnly
            && !mutates(action),
        opening_refusal(action, opening) is Some ==> (opening_refusal(action, opening)->0).0 == 9,
        opening is Failed ==> ends_in(
            (opening_refusal(action, opening)->0).2,
            ": "@ + opening->Failed_0@,
        ),
{
    if opening is Failed {
        let head = "Failed to open ledger for "@ + opening_purpose(action);
        let end = ": "@ + opening->Failed_0@;
        let message = head + ": "@ + opening->Failed_0@;
        assert(message =~= head + end);
        assert(message.skip(message.len() - end.len()) =~= end);
    }
}

/// A previewed subcommand that fails is said to be a preview, and an applied one
/// is not.
pub proof fn lemma_failures_tell_previews_apart(apply: bool)
    ensures
        apply <==> failed_action(LedgerAction::Migrate { apply }) == "Migration failed: "@,
        apply <==> failed_action(LedgerAction::Prune { apply }) == "Failed to apply prune: "@,
        apply <==> failed_action(LedgerAction::Clear { apply }) == "Failed to clear ledger: "@,
        apply <==> opening_purpose(LedgerAction::Migrate { apply }) == "migration"@,
        apply <==> opening_purpose(LedgerAction::Prune { apply }) == "prune"@,
        apply <==> opening_purpose(LedgerAction::Clear { apply }) == "clear"@,
{
    reveal_strlit("Migration failed: ");
    reveal_strlit("Migration preview failed: ");
    reveal_strlit("Failed to apply prune: ");
    reveal_strlit("Failed to preview prune: ");
    reveal_strlit("Failed to clear ledger: ");
    reveal_strlit("Failed to preview clear: ");
    reveal_strlit("migration");
    reveal_strlit("preview");
    reveal_strlit("prune");
    reveal_strlit("prune preview");
    reveal_strlit("clear");
    reveal_strlit("clear preview");
    assert("Migration failed: "@.len() != "Migration preview failed: "@.len());
    assert("Failed to apply prune: "@.len() != "Failed to preview prune: "@.len());
    assert("Failed to clear ledger: "@.len() != "Failed to preview clear: "@.len());
    assert("migration"@.len() != "preview"@.len());
    assert("prune"@.len() != "prune preview"@.len());
    assert("clear"@.len() != "clear preview"@.len());
}

/// A ledger command answers exactly where the ledger opened for it and it succeeded,
/// and its document could be written where one is asked for; its words else.
pub proof fn lemma_what_a_ledger_command_answers(
    action: LedgerAction,
    opening: LedgerOpening,
    report: Result<LedgerReport, String>,
    document: Option<Result<String, String>>,
)
    ensures
        ({
            let answer = ledger_outcome(action, opening, report, document);
            let opens = action is Migrate || action is Prune || action is Clear;
            let refused = opens && opening_refusal(action, opening) is Some;
            &&& answer is Ok <==> !refused && report is Ok && (document is None || document->0
                is Ok)
            &&& refused ==> answer->Err_0 == opening_refusal(action, opening)->0
            &&& !refused && report is Err ==> ends_in((answer->Err_0).2, report->Err_0@)
            &&& !refused && report is Ok && document is None ==> answer->Ok_0 == report_text(
                report->Ok_0,
            )
            &&& !refused && report is Ok && document is Some && document->0 is Ok ==> answer->Ok_0
                == document->0->Ok_0@ + "\n"@
        }),
{
    if report is Err {
        let detail = report->Err_0@;
        let message = failed_action(action) + detail;
        assert(message.skip(message.len() - detail.len()) =~= detail);
        assert(detail.skip(0) =~= detail);
    }
}

} // verus!
