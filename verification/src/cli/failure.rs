//! How a command fails, and what a late or unfinished invocation may publish.

use crate::text;
use crate::text::{lemma_occurs_between, lemma_occurs_in_longer, occurs};
use vstd::prelude::*;
use vstd::string::*;

verus! {

/// The exit code, the error kind and the message of a failed command.
pub type Failure = (u8, &'static str, String);

/// What a failure says.
pub open spec fn failure_view(f: Failure) -> (u8, Seq<char>, Seq<char>) {
    (f.0, f.1@, f.2@)
}

/// Whether a result fails exactly as a refusal says, and succeeds without one.
pub open spec fn refuses<T>(
    r: Result<T, Failure>,
    refusal: Option<(u8, Seq<char>, Seq<char>)>,
) -> bool {
    match r {
        Ok(_) => refusal is None,
        Err(f) => refusal == Some(failure_view(f)),
    }
}

/// A failure with a fixed message.
pub fn failure(code: u8, kind: &'static str, message: &str) -> (r: Failure)
    ensures
        failure_view(r) == (code, kind@, message@),
{
    (code, kind, message.to_owned())
}

/// An error category: its exit code and its name.
#[derive(Clone, Copy, Debug, PartialEq, Eq)]
pub struct ErrorCategory {
    pub code: u8,
    pub name: &'static str,
}

/// A failure in an error category.
pub fn category_failure(category: ErrorCategory, message: String) -> (r: Failure)
    ensures
        failure_view(r) == (category.code, category.name@, message@),
{
    (category.code, category.name, message)
}

/// An invalid configuration.
pub fn invalid(message: &str) -> (r: Failure)
    ensures
        failure_view(r) == (2u8, "invalid-configuration"@, message@),
{
    (2, "invalid-configuration", message.to_owned())
}

pub open spec fn late_refusal() -> (u8, Seq<char>, Seq<char>) {
    (6u8, "timeout"@, "Local inspection deadline exceeded"@)
}

/// New work is refused once the work cutoff has passed.
pub fn timely(admits_work: bool) -> (r: Result<(), Failure>)
    ensures
        refuses(
            r,
            if admits_work {
                None
            } else {
                Some(late_refusal())
            },
        ),
{
    if admits_work {
        Ok(())
    } else {
        Err(failure(6, "timeout", "Local inspection deadline exceeded"))
    }
}

/// The failure of a command whose runtime cannot start.
pub fn runtime_unavailable() -> (r: Failure)
    ensures
        failure_view(r) == (6u8, "timeout"@, "Local runtime unavailable"@),
{
    failure(6, "timeout", "Local runtime unavailable")
}

/// The failure of a command whose runtime starts and gives it no context.
pub fn context_unavailable() -> (r: Failure)
    ensures
        failure_view(r) == (6u8, "timeout"@, "Runtime context unavailable"@),
{
    failure(6, "timeout", "Runtime context unavailable")
}

/// Whether a result is what an invocation closes with.
pub open spec fn closed_with<T>(
    shut_down: bool,
    now_ms: u64,
    expires_ms: u64,
    outcome: Result<T, Failure>,
    r: Result<T, Failure>,
) -> bool {
    &&& shut_down && now_ms < expires_ms ==> r == outcome
    &&& !(shut_down && now_ms < expires_ms) ==> r is Err && failure_view(r->Err_0) == (
        6u8,
        "timeout"@,
        "Runtime cleanup did not finish within the invocation deadline"@,
    )
}

/// Close an invocation: its outcome stands only where its runtime shut down
/// and the total deadline had not passed. An unfinished runtime cannot publish
/// a success.
pub fn finish_invocation<T>(
    shut_down: bool,
    now_ms: u64,
    expires_ms: u64,
    outcome: Result<T, Failure>,
) -> (r: Result<T, Failure>)
    ensures
        closed_with(shut_down, now_ms, expires_ms, outcome, r),
{
    if shut_down && now_ms < expires_ms {
        outcome
    } else {
        Err(
            failure(
                6,
                "timeout",
                "Runtime cleanup did not finish within the invocation deadline",
            ),
        )
    }
}

/// A ranking's decision.
#[derive(Clone, Copy, Debug, PartialEq, Eq, Structural)]
pub enum Decision {
    Ranked,
    Explicit,
    Abstain,
    Unavailable,
}

/// What an output document is.
#[derive(Clone, Copy, Debug, PartialEq, Eq, Structural)]
pub enum OutputKind {
    Decision(Decision),
    Preview,
    Artifact,
}

/// Whether a result is what the completion of a ranking comes to.
pub open spec fn completed_with(
    completed_in_time: Result<(), Failure>,
    kind: OutputKind,
    r: Result<(), Failure>,
) -> bool {
    &&& kind == OutputKind::Decision(Decision::Unavailable) ==> r is Ok
    &&& kind != OutputKind::Decision(Decision::Unavailable) ==> r == completed_in_time
}

/// The work cutoff prevents late advice, not a bounded error receipt: an
/// unavailable decision is published though the work was late, and nothing
/// else is.
pub fn validate_rank_completion(completed_in_time: Result<(), Failure>, kind: OutputKind) -> (r:
    Result<(), Failure>)
    ensures
        completed_with(completed_in_time, kind, r),
{
    match kind {
        OutputKind::Decision(Decision::Unavailable) => Ok(()),
        _ => completed_in_time,
    }
}

/// Running out of time while reading the roster is a timeout, not a broken or
/// malformed roster.
pub fn observe_roster_timeout() -> (r: Failure)
    ensures
        failure_view(r) == (
            6u8,
            "timeout"@,
            "Roster resolution reached the observation deadline"@,
        ),
{
    failure(6, "timeout", "Roster resolution reached the observation deadline")
}

/// What a storage error is about.
#[derive(Clone, Copy, Debug, PartialEq, Eq, Structural)]
pub enum StoreKind {
    Missing,
    Permissions,
    RecordConflict,
    Other,
}

/// A storage error with its text.
#[derive(Clone, Debug, PartialEq, Eq)]
pub struct StoreFault {
    pub kind: StoreKind,
    pub text: String,
}

/// What a refused ledger access says: a missing or closed ledger in words of
/// its own, any other error behind what was tried.
pub open spec fn store_refusal(tried: Seq<char>, fault: StoreFault) -> (
    u8,
    Seq<char>,
    Seq<char>,
) {
    (
        9u8,
        "storage-failure"@,
        match fault.kind {
            StoreKind::Missing => "Ledger store is missing; run sr ledger init first"@,
            StoreKind::Permissions => "Ledger store is disabled or read-only"@,
            _ => tried + ": "@ + fault.text@,
        },
    )
}

/// The failure of a refused ledger access.
pub fn store_failure(tried: &str, fault: &StoreFault) -> (r: Failure)
    ensures
        failure_view(r) == store_refusal(tried@, *fault),
{
    match fault.kind {
        StoreKind::Missing => failure(
            9,
            "storage-failure",
            "Ledger store is missing; run sr ledger init first",
        ),
        StoreKind::Permissions => failure(
            9,
            "storage-failure",
            "Ledger store is disabled or read-only",
        ),
        _ => {
            let mut message: String = tried.to_owned();
            message.append(": ");
            message.append(fault.text.as_str());
            (9, "storage-failure", message)
        },
    }
}

/// Why a path is not private enough, and what would mend it.
pub struct OwnerRefusal {
    pub description: String,
    pub remedy: Option<String>,
}

/// What a storage refusal says: its error, and, for one about permissions whose
/// cause is known, that cause and its remedy.
pub open spec fn storage_text(
    prefix: Seq<char>,
    error: Seq<char>,
    permissions: bool,
    refusal: Option<OwnerRefusal>,
) -> Seq<char> {
    let base = prefix + ": "@ + error;
    if !permissions || refusal is None {
        base
    } else {
        let described = base + ". "@ + refusal->0.description@;
        match refusal->0.remedy {
            Some(remedy) => described + ". Fix with: "@ + remedy@,
            None => described,
        }
    }
}

/// Turn a storage refusal into something a person can act on.
pub fn storage_failure(
    prefix: &str,
    error: &str,
    permissions: bool,
    refusal: &Option<OwnerRefusal>,
) -> (r: String)
    ensures
        r@ == storage_text(prefix@, error@, permissions, *refusal),
{
    let mut message: String = prefix.to_owned();
    message.append(": ");
    message.append(error);
    if !permissions {
        return message;
    }
    // Without a cause the refusal came from somewhere this cannot see. Better
    // to say nothing extra than to guess.
    if let Some(refusal) = refusal {
        message.append(". ");
        message.append(refusal.description.as_str());
        if let Some(remedy) = &refusal.remedy {
            message.append(". Fix with: ");
            message.append(remedy.as_str());
        }
    }
    message
}

/// The category an error is reported under where its own name is unknown.
#[derive(Clone, Copy, Debug, PartialEq, Eq, Structural)]
pub enum FallbackKind {
    InvalidUsage,
    MissingSession,
    ProviderFailure,
    EmptyRoster,
    Timeout,
    MalformedInput,
    NetworkDenied,
    StorageFailure,
    InvalidProviderResponse,
    CacheMiss,
}

/// The category of an exit code.
pub open spec fn fallback_of(code: u8) -> FallbackKind {
    match code {
        3 => FallbackKind::MissingSession,
        4 => FallbackKind::ProviderFailure,
        5 => FallbackKind::EmptyRoster,
        6 => FallbackKind::Timeout,
        7 => FallbackKind::MalformedInput,
        8 => FallbackKind::NetworkDenied,
        9 => FallbackKind::StorageFailure,
        10 => FallbackKind::InvalidProviderResponse,
        11 => FallbackKind::CacheMiss,
        _ => FallbackKind::InvalidUsage,
    }
}

/// The category of an exit code.
pub fn fallback_kind(code: u8) -> (r: FallbackKind)
    ensures
        r == fallback_of(code),
{
    match code {
        3 => FallbackKind::MissingSession,
        4 => FallbackKind::ProviderFailure,
        5 => FallbackKind::EmptyRoster,
        6 => FallbackKind::Timeout,
        7 => FallbackKind::MalformedInput,
        8 => FallbackKind::NetworkDenied,
        9 => FallbackKind::StorageFailure,
        10 => FallbackKind::InvalidProviderResponse,
        11 => FallbackKind::CacheMiss,
        _ => FallbackKind::InvalidUsage,
    }
}

/// The category a failure is reported under.
pub enum ReportedKind {
    /// One of the known names.
    Known(String),
    Fallback(FallbackKind),
}

/// The category a failure is reported under: its own name where that is a
/// known one, else the category of its exit code.
pub fn reported_kind(code: u8, kind: &str, known: &Vec<String>) -> (r: ReportedKind)
    ensures
        text::lists(known@, kind@) ==> (r is Known && r->Known_0@ == kind@),
        !text::lists(known@, kind@) ==> r == ReportedKind::Fallback(fallback_of(code)),
{
    if text::contains(known, kind) {
        ReportedKind::Known(kind.to_owned())
    } else {
        ReportedKind::Fallback(fallback_kind(code))
    }
}

/// Where a failure goes.
#[derive(Clone, Copy, Debug, PartialEq, Eq, Structural)]
pub enum FailureOutput {
    /// The message on the error stream, and a successful exit: a hook never
    /// fails its harness.
    HookDiagnostic,
    /// The message is itself an output document: it is printed as it is.
    Document,
    /// An error document on the output stream.
    ErrorDocument,
    /// The message on the error stream.
    Diagnostic,
}

/// Where a failure goes. `is_document` says whether the message is a valid
/// output document.
pub open spec fn failure_output_of(
    hook: bool,
    wants_json: bool,
    message: Seq<char>,
    is_document: bool,
) -> FailureOutput {
    let body = text::trim_start_of(false, message);
    if hook {
        FailureOutput::HookDiagnostic
    } else if !wants_json {
        FailureOutput::Diagnostic
    } else if text::has_prefix(body, "{"@) && is_document {
        FailureOutput::Document
    } else {
        FailureOutput::ErrorDocument
    }
}

/// Where a failure goes.
pub fn failure_output(hook: bool, wants_json: bool, message: &str, is_document: bool) -> (r:
    FailureOutput)
    ensures
        r == failure_output_of(hook, wants_json, message@, is_document),
{
    if hook {
        return FailureOutput::HookDiagnostic;
    }
    if !wants_json {
        return FailureOutput::Diagnostic;
    }
    let body: String = text::trim_start(false, message);
    let braced: bool = text::starts_with(body.as_str(), "{");
    if braced && is_document {
        FailureOutput::Document
    } else {
        FailureOutput::ErrorDocument
    }
}

/// The exit code of a failed command.
pub open spec fn failure_code(hook: bool, code: u8) -> u8 {
    if hook {
        0
    } else {
        code
    }
}

/// The exit code of a failed command: a hook never fails its harness.
pub fn failure_exit(hook: bool, code: u8) -> (r: u8)
    ensures
        r == failure_code(hook, code),
{
    if hook {
        0
    } else {
        code
    }
}

/// The line that reports a message on the error stream.
pub fn diagnostic_line(message: &str) -> (r: String)
    ensures
        r@ == "sr: "@ + message@ + "\n"@,
{
    let mut line: String = "sr: ".to_owned();
    line.append(message);
    line.append("\n");
    line
}

/// Whether a result says exactly what an outcome has it say: its text, or the
/// failure in its place.
pub open spec fn answers(
    r: Result<String, Failure>,
    outcome: Result<Seq<char>, (u8, Seq<char>, Seq<char>)>,
) -> bool {
    match r {
        Ok(out) => outcome == Ok::<Seq<char>, (u8, Seq<char>, Seq<char>)>(out@),
        Err(f) => outcome == Err::<Seq<char>, (u8, Seq<char>, Seq<char>)>(failure_view(f)),
    }
}

/// What a report says as a document: the document and a line break, or the
/// error of putting it in writing.
pub open spec fn written(document: Result<String, String>) -> Result<
    Seq<char>,
    (u8, Seq<char>, Seq<char>),
> {
    match document {
        Ok(document) => Ok(document@ + "\n"@),
        Err(detail) => Err((9u8, "storage-failure"@, detail@)),
    }
}

/// A report as a document.
pub fn write_document(document: Result<String, String>) -> (r: Result<String, Failure>)
    ensures
        answers(r, written(document)),
{
    match document {
        Ok(document) => {
            let mut out: String = document;
            out.append("\n");
            Ok(out)
        },
        Err(detail) => Err((9, "storage-failure", detail)),
    }
}

/// Whether a command that succeeded prints its output.
pub open spec fn prints(hook: bool, help: bool) -> bool {
    !(hook && !help)
}

/// Whether a command that succeeded prints its output. A hook writes its own
/// and prints nothing more, unless help was asked for.
pub fn prints_output(hook: bool, help: bool) -> (r: bool)
    ensures
        r == prints(hook, help),
{
    !hook || help
}

/// The exit code of a command that succeeded.
pub open spec fn success_code(hook: bool, help: bool, printed: bool) -> u8 {
    if hook && !help || printed {
        0
    } else {
        1
    }
}

/// The exit code of a command that succeeded: it fails only where its output
/// had to be printed and could not be.
pub fn success_exit(hook: bool, help: bool, printed: bool) -> (r: u8)
    ensures
        r == success_code(hook, help, printed),
{
    if hook && !help {
        return 0;
    }
    if printed {
        0
    } else {
        1
    }
}

/// Every exit code has a category of its own, and any other code is wrong usage.
pub proof fn lemma_exit_codes_have_categories(code: u8)
    ensures
        fallback_of(code) is MissingSession <==> code == 3,
        fallback_of(code) is ProviderFailure <==> code == 4,
        fallback_of(code) is EmptyRoster <==> code == 5,
        fallback_of(code) is Timeout <==> code == 6,
        fallback_of(code) is MalformedInput <==> code == 7,
        fallback_of(code) is NetworkDenied <==> code == 8,
        fallback_of(code) is StorageFailure <==> code == 9,
        fallback_of(code) is InvalidProviderResponse <==> code == 10,
        fallback_of(code) is CacheMiss <==> code == 11,
        fallback_of(code) is InvalidUsage <==> code < 3 || code > 11,
{
}

/// A failed hook only ever writes a diagnostic. Any other command writes one where
/// no document was asked for, and else a document: the message itself where it is
/// one, and one that holds the error where it is not.
pub proof fn lemma_where_a_failure_goes(
    hook: bool,
    wants_json: bool,
    message: Seq<char>,
    is_document: bool,
)
    ensures
        ({
            let output = failure_output_of(hook, wants_json, message, is_document);
            &&& output is HookDiagnostic <==> hook
            &&& output is Diagnostic <==> !hook && !wants_json
            &&& output is Document ==> is_document
            &&& !hook && wants_json && !is_document ==> output is ErrorDocument
            &&& !hook && wants_json && is_document && message.len() > 0 && message[0] == '{'
                ==> output is Document
            &&& !hook && wants_json && message.len() > 0 && message[0] != '{' && !text::strips(
                false,
                message[0],
            ) ==> output is ErrorDocument
        }),
{
    reveal_strlit("{");
    if message.len() > 0 && !text::strips(false, message[0]) {
        assert(text::trim_start_of(false, message) == message);
        assert(message.take(1) =~= seq![message[0]]);
        assert("{"@ =~= seq!['{']);
        if message[0] != '{' {
            assert(message.take(1)[0] != "{"@[0]);
        }
    }
}

/// A refused access to the ledger is a failure of storage. A missing ledger is told
/// how to make one and a closed one that it is closed; of anything else both what
/// was tried and what came of it are said.
pub proof fn lemma_store_refusals_say_why(tried: Seq<char>, fault: StoreFault)
    ensures
        store_refusal(tried, fault).0 == 9,
        store_refusal(tried, fault).1 == "storage-failure"@,
        fault.kind is Missing ==> occurs(store_refusal(tried, fault).2, "run sr ledger init"@),
        fault.kind is Permissions ==> occurs(store_refusal(tried, fault).2, "read-only"@),
        fault.kind is RecordConflict || fault.kind is Other ==> store_refusal(tried, fault).2
            == tried + ": "@ + fault.text@,
{
    if fault.kind is Missing {
        reveal_strlit("Ledger store is missing; run sr ledger init first");
        reveal_strlit("Ledger store is missing; ");
        reveal_strlit("run sr ledger init");
        reveal_strlit(" first");
        assert("Ledger store is missing; run sr ledger init first"@
            =~= "Ledger store is missing; "@ + "run sr ledger init"@ + " first"@);
        lemma_occurs_between("Ledger store is missing; "@, "run sr ledger init"@, " first"@);
    } else if fault.kind is Permissions {
        reveal_strlit("Ledger store is disabled or read-only");
        reveal_strlit("Ledger store is disabled or ");
        reveal_strlit("read-only");
        assert("Ledger store is disabled or read-only"@ =~= "Ledger store is disabled or "@
            + "read-only"@);
        lemma_occurs_between("Ledger store is disabled or "@, "read-only"@, Seq::empty());
    }
}

/// A refusal of storage begins with what was tried and its error. It goes on with
/// a cause, and what would mend it, exactly where it is about permissions and the
/// cause is known.
pub proof fn lemma_storage_text_says_what_is_known(
    prefix: Seq<char>,
    error: Seq<char>,
    permissions: bool,
    refusal: Option<OwnerRefusal>,
)
    ensures
        ({
            let out = storage_text(prefix, error, permissions, refusal);
            &&& text::has_prefix(out, prefix + ": "@ + error)
            &&& !permissions || refusal is None ==> out == prefix + ": "@ + error
            &&& permissions && refusal is Some ==> occurs(out, refusal->0.description@)
            &&& permissions && refusal is Some && refusal->0.remedy is Some ==> occurs(
                out,
                "Fix with: "@ + refusal->0.remedy->0@,
            )
        }),
{
    let base = prefix + ": "@ + error;
    lemma_cause_and_remedy(base, refusal->0.description@, refusal->0.remedy->0@);
    assert(base.take(base.len() as int) =~= base);
}

proof fn lemma_cause_and_remedy(base: Seq<char>, cause: Seq<char>, remedy: Seq<char>)
    ensures
        text::has_prefix(base + ". "@ + cause, base),
        occurs(base + ". "@ + cause, cause),
        text::has_prefix(base + ". "@ + cause + ". Fix with: "@ + remedy, base),
        occurs(base + ". "@ + cause + ". Fix with: "@ + remedy, cause),
        occurs(base + ". "@ + cause + ". Fix with: "@ + remedy, "Fix with: "@ + remedy),
{
    let described = base + ". "@ + cause;
    let out = described + ". Fix with: "@ + remedy;
    assert(described.take(base.len() as int) =~= base);
    assert(out.take(base.len() as int) =~= base);
    lemma_occurs_between(base + ". "@, cause, Seq::empty());
    assert(". Fix with: "@ == ". "@ + "Fix with: "@) by {
        reveal_strlit(". Fix with: ");
        reveal_strlit(". ");
        reveal_strlit("Fix with: ");
        assert(". Fix with: "@ =~= ". "@ + "Fix with: "@);
    }
    assert(out =~= described + (". Fix with: "@ + remedy));
    lemma_occurs_in_longer(Seq::empty(), described, ". Fix with: "@ + remedy);
    assert(out =~= (described + ". "@) + ("Fix with: "@ + remedy));
    lemma_occurs_between(described + ". "@, "Fix with: "@ + remedy, Seq::empty());
}

/// A hook never fails its harness, whatever happened. Any other command fails with the
/// code of its failure, and one that succeeded fails where its output could not be
/// printed.
pub proof fn lemma_exit_codes(help: bool, printed: bool, code: u8)
    ensures
        failure_code(true, code) == 0,
        failure_code(false, code) == code,
        success_code(true, false, printed) == 0,
        success_code(false, help, printed) == 0 <==> printed,
        success_code(true, true, printed) == 0 <==> printed,
        !prints(true, false) && prints(true, true) && prints(false, help),
{
}

/// An outcome is published exactly where the runtime shut down before the deadline:
/// then it is the outcome itself, and else a timeout.
pub proof fn lemma_unfinished_runtimes_publish_nothing<T>(
    shut_down: bool,
    now_ms: u64,
    expires_ms: u64,
    outcome: Result<T, Failure>,
    r: Result<T, Failure>,
)
    requires
        closed_with(shut_down, now_ms, expires_ms, outcome, r),
    ensures
        r is Ok ==> outcome is Ok && shut_down && now_ms < expires_ms && r->Ok_0 == outcome->Ok_0,
        shut_down && now_ms < expires_ms && outcome is Err ==> r->Err_0 == outcome->Err_0,
        !shut_down || now_ms >= expires_ms ==> r is Err && r->Err_0.0 == 6,
{
}

/// A result answers one outcome alone: the text that it holds, or the code, the
/// kind and the message that it fails with. One that refuses for a reason fails
/// with that reason, and one without a reason does not fail.
pub proof fn lemma_result_answers_one_outcome(
    r: Result<String, Failure>,
    outcome: Result<Seq<char>, (u8, Seq<char>, Seq<char>)>,
    refusal: Option<(u8, Seq<char>, Seq<char>)>,
)
    requires
        answers(r, outcome),
        refuses(r, refusal),
    ensures
        r is Ok <==> outcome is Ok,
        r is Ok ==> r->Ok_0@ == outcome->Ok_0,
        r is Err ==> {
            let (code, kind, message) = outcome->Err_0;
            &&& code == r->Err_0.0
            &&& kind == r->Err_0.1@
            &&& message == r->Err_0.2@
            &&& refusal == Some((code, kind, message))
        },
        r is Ok <==> refusal is None,
{
}

/// Late work publishes nothing but that it is unavailable.
pub proof fn lemma_late_work_is_only_unavailable(
    completed_in_time: Result<(), Failure>,
    kind: OutputKind,
    r: Result<(), Failure>,
)
    requires
        completed_with(completed_in_time, kind, r),
    ensures
        r is Ok <==> completed_in_time is Ok || kind is Decision && kind->Decision_0 is Unavailable,
        r is Err ==> r->Err_0 == completed_in_time->Err_0,
{
}

} // verus!
