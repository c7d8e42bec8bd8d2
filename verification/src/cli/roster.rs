//! Listing, saving and comparing a roster.

use crate::cli::config::{
    config_root_of, environment_sources, recognized_variable, user_config_root, ConfigSources,
    UserRoot,
};
use crate::cli::failure::{
    answers, category_failure, failure, failure_view, late_refusal, refuses, timely,
    ErrorCategory, Failure,
};
use crate::cli::rank::Surroundings;
use crate::json;
use crate::json::{json_of, json_text, Json, JsonNumber};
use crate::text;
use crate::text::{lemma_occurs_between, numeral, occurs};
use serde_json::Value;
use vstd::prelude::*;
use vstd::string::*;

verus! {

/// How many entries a page is asked to hold: a number, else the most there is.
pub fn page_limit(argument: Option<&str>, max_page: usize) -> (r: Result<usize, Failure>)
    ensures
        match argument {
            None => r == Ok::<usize, Failure>(max_page),
            Some(given) => match r {
                Ok(n) => numeral(given@) == Some(n as nat),
                Err(f) => (numeral(given@) is None || numeral(given@)->0 > usize::MAX)
                    && failure_view(f) == (
                    2u8,
                    "invalid-usage"@,
                    "--limit must be a whole number from 1 to 128"@,
                ),
            },
        },
{
    match argument {
        None => Ok(max_page),
        Some(given) => match text::parse_number(given, usize::MAX as u64) {
            Some(n) => Ok(n as usize),
            None => Err(
                failure(2, "invalid-usage", "--limit must be a whole number from 1 to 128"),
            ),
        },
    }
}

/// What stops a listing before the configuration is loaded, in the order it is
/// looked at.
pub open spec fn listing_refusal(limit: Option<Seq<char>>, around: Surroundings) -> Option<
    (u8, Seq<char>, Seq<char>),
> {
    let bad = |message: Seq<char>| Some((2u8, "invalid-configuration"@, message));
    if limit is Some && (numeral(limit->0) is None || numeral(limit->0)->0 > usize::MAX) {
        Some((2u8, "invalid-usage"@, "--limit must be a whole number from 1 to 128"@))
    } else if !around.admits_work {
        Some(late_refusal())
    } else if !around.has_workspace {
        Some((5u8, "unusable-roster"@, "The workspace directory is unavailable"@))
    } else if around.variables@.filter(recognized_variable()).len() > around.max_variables {
        bad("Too many environment settings"@)
    } else if config_root_of(around.xdg_config, around.home) is Err {
        bad(config_root_of(around.xdg_config, around.home)->Err_0)
    } else {
        None
    }
}

/// Prepare a listing: how many entries its page is to hold, the layers it was
/// given and where the user's configuration is.
pub fn prepare_listing(limit: Option<&str>, max_page: usize, around: Surroundings) -> (r: Result<
    (usize, ConfigSources, UserRoot),
    Failure,
>)
    ensures
        ({
            let asked = match limit {
                Some(given) => Some(given@),
                None => None,
            };
            &&& refuses(r, listing_refusal(asked, around))
            &&& r is Ok ==> {
                &&& (r->Ok_0).0 == match asked {
                    Some(given) => numeral(given)->0,
                    None => max_page as nat,
                }
                &&& (r->Ok_0).1.cli@.len() == 0
                &&& (r->Ok_0).1.environment@ == around.variables@.filter(recognized_variable())
                &&& (r->Ok_0).1.trusted_user@.len() == 0
                &&& (r->Ok_0).1.project@.len() == 0
                &&& (r->Ok_0).2 == config_root_of(around.xdg_config, around.home)->Ok_0
            }
        }),
{
    let entries: usize = match page_limit(limit, max_page) {
        Ok(entries) => entries,
        Err(f) => return Err(f),
    };
    match timely(around.admits_work) {
        Ok(_) => {},
        Err(f) => return Err(f),
    }
    if !around.has_workspace {
        return Err(failure(5, "unusable-roster", "The workspace directory is unavailable"));
    }
    let mut sources: ConfigSources = ConfigSources::empty();
    sources.environment = match environment_sources(around.variables, around.max_variables) {
        Ok(list) => list,
        Err(f) => return Err(f),
    };
    match user_config_root(around.xdg_config, around.home) {
        Ok(root) => Ok((entries, sources, root)),
        Err(f) => Err(f),
    }
}

/// What a listing does with the roster it resolved.
#[derive(Clone, Debug, PartialEq, Eq)]
pub enum ListingAction {
    /// Save a snapshot to a file.
    Snapshot(String),
    /// Compare with a saved one.
    Compare(String),
    Page,
}

/// What a listing is asked to do.
pub open spec fn action_asked(snapshot: Option<String>, diff: Option<String>) -> ListingAction {
    match snapshot {
        Some(target) => ListingAction::Snapshot(target),
        None => match diff {
            Some(saved) => ListingAction::Compare(saved),
            None => ListingAction::Page,
        },
    }
}

/// What a listing does: a snapshot goes before a comparison, and a page is
/// shown where neither was asked for.
pub fn listing_action(snapshot: Option<String>, diff: Option<String>) -> (r: ListingAction)
    ensures
        r == action_asked(snapshot, diff),
{
    match snapshot {
        Some(target) => ListingAction::Snapshot(target),
        None => match diff {
            Some(saved) => ListingAction::Compare(saved),
            None => ListingAction::Page,
        },
    }
}

/// Why a page cannot be had.
#[derive(Clone, Copy, Debug, PartialEq, Eq, Structural)]
pub enum PageError {
    InvalidLimit,
    InvalidCursor,
    RosterChanged,
}

/// What a page that cannot be had says.
pub open spec fn page_refusal(error: PageError) -> (u8, Seq<char>, Seq<char>) {
    match error {
        PageError::InvalidLimit => (
            2u8,
            "invalid-usage"@,
            "--limit must be a whole number from 1 to 128"@,
        ),
        PageError::InvalidCursor => (
            2u8,
            "invalid-usage"@,
            "Unrecognized --cursor; restart without it"@,
        ),
        PageError::RosterChanged => (
            5u8,
            "roster-changed"@,
            "The roster changed since this cursor was issued; restart without --cursor"@,
        ),
    }
}

/// The failure of a page that cannot be had.
pub fn page_failure(error: PageError) -> (r: Failure)
    ensures
        failure_view(r) == page_refusal(error),
{
    match error {
        PageError::InvalidLimit => failure(
            2,
            "invalid-usage",
            "--limit must be a whole number from 1 to 128",
        ),
        PageError::InvalidCursor => failure(
            2,
            "invalid-usage",
            "Unrecognized --cursor; restart without it",
        ),
        PageError::RosterChanged => failure(
            5,
            "roster-changed",
            "The roster changed since this cursor was issued; restart without --cursor",
        ),
    }
}

/// Why a workspace's roster cannot be had.
#[derive(Clone, Copy, Debug, PartialEq, Eq, Structural)]
pub enum WorkspaceFault {
    /// The documented skill roots could not be planned.
    Plan,
    /// The runtime or the resolution ran out of time, or was cancelled.
    Deadline,
    Runtime,
    Resolution,
}

/// What a roster that cannot be had says: out of time is a timeout, never an
/// invalid roster.
pub open spec fn workspace_refusal(fault: WorkspaceFault) -> (u8, Seq<char>, Seq<char>) {
    match fault {
        WorkspaceFault::Plan => (
            5u8,
            "unusable-roster"@,
            "The documented skill roots could not be planned"@,
        ),
        WorkspaceFault::Deadline => late_refusal(),
        WorkspaceFault::Runtime => (
            5u8,
            "unusable-roster"@,
            "The local runtime is unavailable"@,
        ),
        WorkspaceFault::Resolution => (
            5u8,
            "unusable-roster"@,
            "The roster could not be resolved"@,
        ),
    }
}

/// The failure of a workspace's roster.
pub fn workspace_failure(fault: WorkspaceFault) -> (r: Failure)
    ensures
        failure_view(r) == workspace_refusal(fault),
{
    match fault {
        WorkspaceFault::Plan => failure(
            5,
            "unusable-roster",
            "The documented skill roots could not be planned",
        ),
        WorkspaceFault::Deadline => failure(6, "timeout", "Local inspection deadline exceeded"),
        WorkspaceFault::Runtime => failure(5, "unusable-roster", "The local runtime is unavailable"),
        WorkspaceFault::Resolution => failure(
            5,
            "unusable-roster",
            "The roster could not be resolved",
        ),
    }
}

/// What is wrong with a saved snapshot.
#[derive(Clone, Copy, Debug, PartialEq, Eq, Structural)]
pub enum SnapshotError {
    Malformed,
    TooLarge,
    TooManyRecords,
    Unreadable,
    Incompatible,
}

pub open spec fn snapshot_message(error: SnapshotError) -> Seq<char> {
    match error {
        SnapshotError::Malformed => "The saved snapshot is malformed or has unknown fields"@,
        SnapshotError::TooLarge => "The saved snapshot exceeds 32 MiB"@,
        SnapshotError::TooManyRecords => "The snapshot exceeds 10,000 records"@,
        SnapshotError::Unreadable => "The saved snapshot is not a readable regular file"@,
        SnapshotError::Incompatible =>
            "The saved snapshot belongs to a different schema, harness or workspace"@,
    }
}

/// The failure of a saved snapshot, under its own category.
pub fn snapshot_failure(error: SnapshotError, category: ErrorCategory) -> (r: Failure)
    ensures
        failure_view(r) == (category.code, category.name@, snapshot_message(error)),
{
    let message: &str = match error {
        SnapshotError::Malformed => "The saved snapshot is malformed or has unknown fields",
        SnapshotError::TooLarge => "The saved snapshot exceeds 32 MiB",
        SnapshotError::TooManyRecords => "The snapshot exceeds 10,000 records",
        SnapshotError::Unreadable => "The saved snapshot is not a readable regular file",
        SnapshotError::Incompatible =>
            "The saved snapshot belongs to a different schema, harness or workspace",
    };
    category_failure(category, message.to_owned())
}

/// Why a snapshot could not be exported.
#[derive(Clone, Copy, Debug, PartialEq, Eq, Structural)]
pub enum ExportError {
    TargetAlreadyExists,
    Oversized,
    InvalidDirectory,
    Permissions,
    Io,
    Durability,
}

pub open spec fn export_message(error: ExportError) -> Seq<char> {
    match error {
        ExportError::TargetAlreadyExists =>
            "The snapshot target already exists; refusing to overwrite it"@,
        ExportError::Oversized => "The snapshot exceeds 32 MiB"@,
        ExportError::InvalidDirectory | ExportError::Permissions =>
            "The snapshot directory is missing or not private enough"@,
        ExportError::Io => "The snapshot could not be written"@,
        ExportError::Durability =>
            "The snapshot was published, but durability could not be confirmed; inspect the target before retrying"@,
    }
}

/// The failure of an export, under its own category.
pub fn export_failure(error: ExportError, category: ErrorCategory) -> (r: Failure)
    ensures
        failure_view(r) == (category.code, category.name@, export_message(error)),
{
    let message: &str = match error {
        ExportError::TargetAlreadyExists =>
            "The snapshot target already exists; refusing to overwrite it",
        ExportError::Oversized => "The snapshot exceeds 32 MiB",
        ExportError::InvalidDirectory | ExportError::Permissions =>
            "The snapshot directory is missing or not private enough",
        ExportError::Io => "The snapshot could not be written",
        ExportError::Durability =>
            "The snapshot was published, but durability could not be confirmed; inspect the target before retrying",
    };
    category_failure(category, message.to_owned())
}

/// The failure of an export on a platform where it is not qualified.
pub fn unqualified_export() -> (r: Failure)
    ensures
        failure_view(r) == (
            9u8,
            "storage-failure"@,
            "Snapshot export is not qualified on this platform"@,
        ),
{
    failure(9, "storage-failure", "Snapshot export is not qualified on this platform")
}

/// The document of an export.
pub open spec fn receipt_json(
    schema: Seq<char>,
    records: usize,
    snapshot: Seq<char>,
    partial: bool,
) -> Json {
    Json::Object(
        Map::empty().insert("schema"@, Json::Text(schema)).insert(
            "exported"@,
            Json::Bool(true),
        ).insert("records"@, Json::Number(JsonNumber::Natural(records as u64))).insert(
            "snapshot"@,
            Json::Text(snapshot),
        ).insert("partial"@, Json::Bool(partial)),
    )
}

/// The document of an export.
pub fn export_receipt(schema: &str, records: usize, snapshot: &str, partial: bool) -> (r: Value)
    ensures
        json_of(r) == receipt_json(schema@, records, snapshot@, partial),
{
    let mut v: Value = json::object_value();
    json::set_member(&mut v, "schema", json::text_value(schema.to_owned()));
    json::set_member(&mut v, "exported", json::bool_value(true));
    json::set_member(&mut v, "records", json::natural_value(records as u64));
    json::set_member(&mut v, "snapshot", json::text_value(snapshot.to_owned()));
    json::set_member(&mut v, "partial", json::bool_value(partial));
    v
}

/// What a page answers: why it cannot be had, else that it came late, else the
/// page on a line.
pub open spec fn page_answer(page: Result<String, PageError>, admits_work: bool) -> Result<
    Seq<char>,
    (u8, Seq<char>, Seq<char>),
> {
    match page {
        Err(error) => Err(page_refusal(error)),
        Ok(page) => if admits_work {
            Ok(page@ + "\n"@)
        } else {
            Err(late_refusal())
        },
    }
}

/// Answer a listing with a page. `page` is its document in writing.
pub fn finish_page(page: Result<String, PageError>, admits_work: bool) -> (r: Result<
    String,
    Failure,
>)
    ensures
        answers(r, page_answer(page, admits_work)),
{
    match page {
        Err(error) => Err(page_failure(error)),
        Ok(page) => match timely(admits_work) {
            Ok(_) => {
                let mut out: String = page;
                out.append("\n");
                Ok(out)
            },
            Err(f) => Err(f),
        },
    }
}

/// What a comparison answers: what is wrong with the saved snapshot, else that
/// it came late, else the differences on a line. A comparison may have no
/// document.
pub open spec fn comparison_answer(
    compared: Result<Option<Value>, (SnapshotError, ErrorCategory)>,
    admits_work: bool,
) -> Result<Seq<char>, (u8, Seq<char>, Seq<char>)> {
    match compared {
        Err((error, category)) => Err((category.code, category.name@, snapshot_message(error))),
        Ok(document) => if !admits_work {
            Err(late_refusal())
        } else {
            match document {
                Some(document) => Ok(json_text(json_of(document)) + "\n"@),
                None => Err(
                    (5u8, "unusable-roster"@, "The comparison could not be rendered"@),
                ),
            }
        },
    }
}

/// Answer a listing with a comparison.
pub fn finish_comparison(
    compared: Result<Option<Value>, (SnapshotError, ErrorCategory)>,
    admits_work: bool,
) -> (r: Result<String, Failure>)
    ensures
        answers(r, comparison_answer(compared, admits_work)),
{
    match compared {
        Err((error, category)) => Err(snapshot_failure(error, category)),
        Ok(document) => match timely(admits_work) {
            Err(f) => Err(f),
            Ok(_) => match document {
                Some(document) => Ok(json::line_of(&document)),
                None => Err(failure(5, "unusable-roster", "The comparison could not be rendered")),
            },
        },
    }
}

/// Why a snapshot was not exported.
#[derive(Clone, Copy, Debug, PartialEq, Eq)]
pub enum ExportFault {
    /// The platform is not qualified for it.
    Unqualified,
    Snapshot(SnapshotError, ErrorCategory),
    Export(ExportError, ErrorCategory),
}

/// What an export that failed says.
pub open spec fn export_refusal(fault: ExportFault) -> (u8, Seq<char>, Seq<char>) {
    match fault {
        ExportFault::Unqualified => (
            9u8,
            "storage-failure"@,
            "Snapshot export is not qualified on this platform"@,
        ),
        ExportFault::Snapshot(error, category) => (
            category.code,
            category.name@,
            snapshot_message(error),
        ),
        ExportFault::Export(error, category) => (
            category.code,
            category.name@,
            export_message(error),
        ),
    }
}

/// Answer a listing with what an export came to: why it failed, else its
/// receipt on a line.
pub fn finish_export(
    exported: Result<(), ExportFault>,
    schema: &str,
    records: usize,
    snapshot: &str,
    partial: bool,
) -> (r: Result<String, Failure>)
    ensures
        answers(
            r,
            match exported {
                Err(fault) => Err(export_refusal(fault)),
                Ok(_) => Ok(
                    json_text(receipt_json(schema@, records, snapshot@, partial)) + "\n"@,
                ),
            },
        ),
{
    match exported {
        Err(ExportFault::Unqualified) => Err(unqualified_export()),
        Err(ExportFault::Snapshot(error, category)) => Err(snapshot_failure(error, category)),
        Err(ExportFault::Export(error, category)) => Err(export_failure(error, category)),
        Ok(_) => Ok(json::line_of(&export_receipt(schema, records, snapshot, partial))),
    }
}

/// Every error of a saved snapshot says what is wrong with it.
#[verifier::rlimit(40)]
pub proof fn lemma_snapshot_errors_say_what_is_wrong()
    ensures
        occurs(snapshot_message(SnapshotError::Malformed), "malformed"@),
        occurs(snapshot_message(SnapshotError::TooLarge), "exceeds 32 MiB"@),
        occurs(snapshot_message(SnapshotError::TooManyRecords), "records"@),
        occurs(snapshot_message(SnapshotError::Unreadable), "not a readable"@),
        occurs(snapshot_message(SnapshotError::Incompatible), "different schema"@),
{
    reveal_strlit("The saved snapshot is malformed or has unknown fields");
    reveal_strlit("malformed");
    reveal_strlit("The saved snapshot is ");
    reveal_strlit(" or has unknown fields");
    assert("The saved snapshot is malformed or has unknown fields"@ =~= "The saved snapshot is "@ + "malformed"@ + " or has unknown fields"@);
    lemma_occurs_between("The saved snapshot is "@, "malformed"@, " or has unknown fields"@);
    reveal_strlit("The saved snapshot exceeds 32 MiB");
    reveal_strlit("exceeds 32 MiB");
    reveal_strlit("The saved snapshot ");
    assert("The saved snapshot exceeds 32 MiB"@ =~= "The saved snapshot "@ + "exceeds 32 MiB"@);
    lemma_occurs_between("The saved snapshot "@, "exceeds 32 MiB"@, Seq::empty());
    reveal_strlit("The snapshot exceeds 10,000 records");
    reveal_strlit("records");
    reveal_strlit("The snapshot exceeds 10,000 ");
    assert("The snapshot exceeds 10,000 records"@ =~= "The snapshot exceeds 10,000 "@ + "records"@);
    lemma_occurs_between("The snapshot exceeds 10,000 "@, "records"@, Seq::empty());
    reveal_strlit("The saved snapshot is not a readable regular file");
    reveal_strlit("not a readable");
    reveal_strlit("The saved snapshot is ");
    reveal_strlit(" regular file");
    assert("The saved snapshot is not a readable regular file"@ =~= "The saved snapshot is "@ + "not a readable"@ + " regular file"@);
    lemma_occurs_between("The saved snapshot is "@, "not a readable"@, " regular file"@);
    reveal_strlit("The saved snapshot belongs to a different schema, harness or workspace");
    reveal_strlit("different schema");
    reveal_strlit("The saved snapshot belongs to a ");
    reveal_strlit(", harness or workspace");
    assert("The saved snapshot belongs to a different schema, harness or workspace"@ =~= "The saved snapshot belongs to a "@ + "different schema"@ + ", harness or workspace"@);
    lemma_occurs_between("The saved snapshot belongs to a "@, "different schema"@, ", harness or workspace"@);
}

/// Every error of an export says what went wrong.
#[verifier::rlimit(40)]
pub proof fn lemma_export_errors_say_what_is_wrong()
    ensures
        occurs(export_message(ExportError::TargetAlreadyExists), "already exists"@),
        occurs(export_message(ExportError::Oversized), "exceeds 32 MiB"@),
        occurs(export_message(ExportError::InvalidDirectory), "directory"@),
        occurs(export_message(ExportError::Permissions), "directory"@),
        occurs(export_message(ExportError::Io), "could not be written"@),
        occurs(export_message(ExportError::Durability), "was published"@),
{
    reveal_strlit("The snapshot target already exists; refusing to overwrite it");
    reveal_strlit("already exists");
    reveal_strlit("The snapshot target ");
    reveal_strlit("; refusing to overwrite it");
    assert("The snapshot target already exists; refusing to overwrite it"@ =~= "The snapshot target "@ + "already exists"@ + "; refusing to overwrite it"@);
    lemma_occurs_between("The snapshot target "@, "already exists"@, "; refusing to overwrite it"@);
    reveal_strlit("The snapshot exceeds 32 MiB");
    reveal_strlit("exceeds 32 MiB");
    reveal_strlit("The snapshot ");
    assert("The snapshot exceeds 32 MiB"@ =~= "The snapshot "@ + "exceeds 32 MiB"@);
    lemma_occurs_between("The snapshot "@, "exceeds 32 MiB"@, Seq::empty());
    reveal_strlit("The snapshot directory is missing or not private enough");
    reveal_strlit("directory");
    reveal_strlit("The snapshot ");
    reveal_strlit(" is missing or not private enough");
    assert("The snapshot directory is missing or not private enough"@ =~= "The snapshot "@ + "directory"@ + " is missing or not private enough"@);
    lemma_occurs_between("The snapshot "@, "directory"@, " is missing or not private enough"@);
    reveal_strlit("The snapshot could not be written");
    reveal_strlit("could not be written");
    reveal_strlit("The snapshot ");
    assert("The snapshot could not be written"@ =~= "The snapshot "@ + "could not be written"@);
    lemma_occurs_between("The snapshot "@, "could not be written"@, Seq::empty());
    reveal_strlit("The snapshot was published, but durability could not be confirmed; inspect the target before retrying");
    reveal_strlit("was published");
    reveal_strlit("The snapshot ");
    reveal_strlit(", but durability could not be confirmed; inspect the target before retrying");
    assert("The snapshot was published, but durability could not be confirmed; inspect the target before retrying"@ =~= "The snapshot "@ + "was published"@ + ", but durability could not be confirmed; inspect the target before retrying"@);
    lemma_occurs_between("The snapshot "@, "was published"@, ", but durability could not be confirmed; inspect the target before retrying"@);
}

/// A listing goes ahead exactly where its limit is a number, there is time for it,
/// it has a workspace, its settings are not too many and its directory is known.
pub proof fn lemma_listings_that_go_ahead(limit: Option<Seq<char>>, around: Surroundings)
    ensures
        listing_refusal(limit, around) is None <==> {
            &&& limit is Some ==> numeral(limit->0) is Some && numeral(limit->0)->0 <= usize::MAX
            &&& around.admits_work
            &&& around.has_workspace
            &&& around.variables@.filter(recognized_variable()).len() <= around.max_variables
            &&& config_root_of(around.xdg_config, around.home) is Ok
        },
        limit is Some && numeral(limit->0) is None ==> (listing_refusal(limit, around)->0).0 == 2,
        limit is None && !around.admits_work ==> (listing_refusal(limit, around)->0).0 == 6,
        limit is None && around.admits_work && !around.has_workspace ==> (listing_refusal(
            limit,
            around,
        )->0).0 == 5,
{
}

/// A cursor of a roster that has changed is an unusable roster; a limit or a cursor
/// that is none is wrong usage, and each says which of the two it is.
pub proof fn lemma_page_refusals()
    ensures
        page_refusal(PageError::RosterChanged).0 == 5,
        page_refusal(PageError::InvalidLimit).0 == 2,
        page_refusal(PageError::InvalidCursor).0 == 2,
        occurs(page_refusal(PageError::InvalidLimit).2, "--limit must"@),
        occurs(page_refusal(PageError::InvalidCursor).2, "Unrecognized --cursor"@),
{
    reveal_strlit("--limit must be a whole number from 1 to 128");
    reveal_strlit("--limit must");
    reveal_strlit(" be a whole number from 1 to 128");
    assert("--limit must be a whole number from 1 to 128"@ =~= "--limit must"@ + " be a whole number from 1 to 128"@);
    lemma_occurs_between(Seq::empty(), "--limit must"@, " be a whole number from 1 to 128"@);
    reveal_strlit("Unrecognized --cursor; restart without it");
    reveal_strlit("Unrecognized --cursor");
    reveal_strlit("; restart without it");
    assert("Unrecognized --cursor; restart without it"@ =~= "Unrecognized --cursor"@ + "; restart without it"@);
    lemma_occurs_between(Seq::empty(), "Unrecognized --cursor"@, "; restart without it"@);
}

/// A roster that a deadline kept from being read is a timeout; one that could not be
/// planned, run or resolved is unusable.
pub proof fn lemma_workspace_refusals(fault: WorkspaceFault)
    ensures
        workspace_refusal(fault).0 == if fault is Deadline {
            6u8
        } else {
            5
        },
        fault is Deadline ==> workspace_refusal(fault).1 == "timeout"@,
        !(fault is Deadline) ==> workspace_refusal(fault).1 == "unusable-roster"@,
        fault is Runtime ==> workspace_refusal(fault).2 == "The local runtime is unavailable"@,
        fault is Resolution ==> workspace_refusal(fault).2 == "The roster could not be resolved"@,
        fault is Plan ==> workspace_refusal(fault).2
            == "The documented skill roots could not be planned"@,
{
}

/// A page is answered exactly where it could be made, in time: it, and a line
/// break.
pub proof fn lemma_page_is_answered_in_time(page: Result<String, PageError>, admits_work: bool)
    ensures
        page_answer(page, admits_work) is Ok <==> page is Ok && admits_work,
        page is Ok && admits_work ==> page_answer(page, admits_work)->Ok_0 == page->Ok_0@ + "\n"@,
        page is Ok && !admits_work ==> (page_answer(page, admits_work)->Err_0).0 == 6,
        page is Err ==> page_answer(page, admits_work)->Err_0 == page_refusal(page->Err_0),
{
}

/// A comparison is answered exactly where the snapshot could be compared, in time,
/// and the comparison written.
pub proof fn lemma_comparison_is_answered_in_time(
    compared: Result<Option<Value>, (SnapshotError, ErrorCategory)>,
    admits_work: bool,
)
    ensures
        comparison_answer(compared, admits_work) is Ok <==> compared is Ok && compared->Ok_0
            is Some && admits_work,
        compared is Ok && compared->Ok_0 is Some && admits_work ==> comparison_answer(
            compared,
            admits_work,
        )->Ok_0 == json_text(json_of(compared->Ok_0->0)) + "\n"@,
        compared is Ok && !admits_work ==> (comparison_answer(compared, admits_work)->Err_0).0 == 6,
        compared is Ok && compared->Ok_0 is None && admits_work ==> (comparison_answer(
            compared,
            admits_work,
        )->Err_0).0 == 5,
        compared is Err ==> comparison_answer(compared, admits_work)->Err_0 == (
            (compared->Err_0).1.code,
            (compared->Err_0).1.name@,
            snapshot_message((compared->Err_0).0),
        ),
{
}

/// The receipt of an export holds each of its figures under its own name.
pub proof fn lemma_receipt_members(
    schema: Seq<char>,
    records: usize,
    snapshot: Seq<char>,
    partial: bool,
)
    ensures
        ({
            let receipt = receipt_json(schema, records, snapshot, partial);
            &&& receipt.member("schema"@) == Json::Text(schema)
            &&& receipt.member("exported"@) == Json::Bool(true)
            &&& receipt.member("records"@) == Json::Number(JsonNumber::Natural(records as u64))
            &&& receipt.member("snapshot"@) == Json::Text(snapshot)
            &&& receipt.member("partial"@) == Json::Bool(partial)
        }),
{
    reveal_strlit("schema");
    reveal_strlit("exported");
    reveal_strlit("records");
    reveal_strlit("snapshot");
    reveal_strlit("partial");
    assert("schema"@.len() == 6 && "exported"@.len() == 8 && "records"@.len() == 7);
    assert("snapshot"@.len() == 8 && "snapshot"@[0] == 's' && "exported"@[0] == 'e');
    assert("partial"@.len() == 7 && "partial"@[0] == 'p' && "records"@[0] == 'r');
}

/// A listing saves its roster where a target is given, else compares it with what was
/// saved, else shows a page of it.
pub proof fn lemma_what_a_listing_does(snapshot: Option<String>, diff: Option<String>)
    ensures
        action_asked(snapshot, diff) is Snapshot <==> snapshot is Some,
        snapshot is Some ==> action_asked(snapshot, diff)->Snapshot_0 == snapshot->0,
        action_asked(snapshot, diff) is Compare <==> snapshot is None && diff is Some,
        snapshot is None && diff is Some ==> action_asked(snapshot, diff)->Compare_0 == diff->0,
        action_asked(snapshot, diff) is Page <==> snapshot is None && diff is None,
{
}

} // verus!
