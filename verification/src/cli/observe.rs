//! Recording what skills a session loaded.

use crate::cli::failure::{
    category_failure, failure, failure_view, observe_roster_timeout, store_failure, store_refusal,
    ErrorCategory, Failure, StoreFault, StoreKind,
};
use crate::evaluation::report::opt_view;
use crate::json;
use crate::json::{json_of, json_text, Json, JsonNumber};
use crate::text;
use crate::text::{
    decimal, ends_in, lemma_appended, lemma_occurs_between, lemma_value_shown, occurs,
};
use serde_json::Value;
use vstd::prelude::*;
use vstd::string::*;

verus! {

/// The observe arguments as given.
#[derive(Clone, Debug, PartialEq, Eq)]
pub struct ObserveArguments {
    pub context: Option<String>,
    pub transcript: Option<String>,
    pub harness: Option<String>,
    pub session: Option<String>,
    pub no_ledger: bool,
    pub no_persist: bool,
}

/// What to observe.
#[derive(Clone, Debug, PartialEq, Eq)]
pub enum ObserveSource {
    Context(String),
    Transcript { file: String, harness: String },
    /// A session without durable identity.
    Session,
}

/// Why observe arguments are refused before anything is opened.
pub open spec fn observe_refusal(args: ObserveArguments) -> Option<(u8, Seq<char>, Seq<char>)> {
    if args.no_ledger || args.no_persist {
        Some(
            (
                2u8,
                "invalid-usage"@,
                "sr observe requires ledger persistence; --no-ledger and --no-persist are rejected"@,
            ),
        )
    } else if args.context is None && (args.transcript is None || args.harness is None)
        && args.session is None {
        Some(
            (
                2u8,
                "invalid-usage"@,
                "sr observe requires an explicit source: --context FILE, --transcript FILE --harness NAME, or --session PATH"@,
            ),
        )
    } else {
        None
    }
}

/// Whether a source is the one that the arguments name.
pub open spec fn reads_from(args: ObserveArguments, source: ObserveSource) -> bool {
    match source {
        ObserveSource::Context(file) => args.context == Some(file),
        ObserveSource::Transcript { file, harness } => args.context is None && args.transcript
            == Some(file) && args.harness == Some(harness),
        ObserveSource::Session => args.context is None && (args.transcript is None || args.harness
            is None),
    }
}

/// Choose what to observe: a context first, then a transcript.
pub fn observe_source(args: ObserveArguments) -> (r: Result<ObserveSource, Failure>)
    ensures
        match r {
            Ok(source) => observe_refusal(args) is None && reads_from(args, source),
            Err(f) => observe_refusal(args) == Some(failure_view(f)),
        },
{
    if args.no_ledger || args.no_persist {
        return Err(
            failure(
                2,
                "invalid-usage",
                "sr observe requires ledger persistence; --no-ledger and --no-persist are rejected",
            ),
        );
    }
    if args.context.is_none() && (args.transcript.is_none() || args.harness.is_none())
        && args.session.is_none() {
        return Err(
            failure(
                2,
                "invalid-usage",
                "sr observe requires an explicit source: --context FILE, --transcript FILE --harness NAME, or --session PATH",
            ),
        );
    }
    if let Some(file) = args.context {
        return Ok(ObserveSource::Context(file));
    }
    match (args.transcript, args.harness) {
        (Some(file), Some(harness)) => Ok(ObserveSource::Transcript { file, harness }),
        _ => Ok(ObserveSource::Session),
    }
}

/// A context file within its bound.
pub fn bounded_context(bytes: usize, max: usize) -> (r: Result<(), Failure>)
    ensures
        r is Ok <==> bytes <= max,
        r is Err ==> failure_view(r->Err_0) == (
            7u8,
            "oversized-input"@,
            "Normalized context exceeds 1 MiB limit"@,
        ),
{
    if bytes > max {
        Err(failure(7, "oversized-input", "Normalized context exceeds 1 MiB limit"))
    } else {
        Ok(())
    }
}

/// What is wrong with the session to observe, by the error's text.
#[derive(Clone, Debug, PartialEq, Eq)]
pub enum SessionFault {
    /// The context file could not be read.
    Unreadable(String),
    /// It holds no normalized context.
    Malformed(String),
    /// The transcript could not be read.
    Transcript(String),
}

/// What a session that cannot be observed says.
pub open spec fn session_refusal(fault: SessionFault) -> (u8, Seq<char>, Seq<char>) {
    (
        7u8,
        "malformed-input"@,
        match fault {
            SessionFault::Unreadable(detail) => "Failed to read context file: "@ + detail@,
            SessionFault::Malformed(detail) => "Invalid normalized context: "@ + detail@,
            SessionFault::Transcript(detail) => "Transcript snapshot failed: "@ + detail@,
        },
    )
}

/// The failure of a session that cannot be observed.
pub fn session_failure(fault: &SessionFault) -> (r: Failure)
    ensures
        failure_view(r) == session_refusal(*fault),
{
    let (tried, detail): (&str, &String) = match fault {
        SessionFault::Unreadable(detail) => ("Failed to read context file: ", detail),
        SessionFault::Malformed(detail) => ("Invalid normalized context: ", detail),
        SessionFault::Transcript(detail) => ("Transcript snapshot failed: ", detail),
    };
    let mut message: String = tried.to_owned();
    message.append(detail.as_str());
    (7, "malformed-input", message)
}

/// A harness whose transcripts can be read.
pub fn supported_harness(harness: &str, valid: bool) -> (r: Result<(), Failure>)
    ensures
        r is Ok <==> valid && harness@ == "claude_code"@,
        r is Err ==> failure_view(r->Err_0) == if !valid {
            (2u8, "invalid-arguments"@, "Invalid harness ID"@)
        } else {
            (
                2u8,
                "invalid-usage"@,
                "Unsupported harness: only claude_code is supported for native transcripts"@,
            )
        },
{
    if !valid {
        return Err(failure(2, "invalid-arguments", "Invalid harness ID"));
    }
    if !text::eq(harness, "claude_code") {
        return Err(
            failure(
                2,
                "invalid-usage",
                "Unsupported harness: only claude_code is supported for native transcripts",
            ),
        );
    }
    Ok(())
}

/// A session that cannot be observed durably.
pub fn undurable_session() -> (r: Failure)
    ensures
        failure_view(r) == (
            3u8,
            "missing-session"@,
            "Cass sessions lack durable session identity; observation writes require durable identity"@,
        ),
{
    failure(
        3,
        "missing-session",
        "Cass sessions lack durable session identity; observation writes require durable identity",
    )
}

/// The identity under which observations are recorded.
pub fn durable_session(session: Option<String>) -> (r: Result<String, Failure>)
    ensures
        session is Some ==> r == Ok::<String, Failure>(session->0),
        session is None ==> r is Err && failure_view(r->Err_0) == (
            3u8,
            "missing-session"@,
            "Durable session identity is absent; cannot record observations"@,
        ),
{
    match session {
        Some(id) => Ok(id),
        None => Err(
            failure(
                3,
                "missing-session",
                "Durable session identity is absent; cannot record observations",
            ),
        ),
    }
}

/// The branch that observations belong to: the one asked for, else the active
/// one, else `main`.
pub open spec fn branch_of(
    asked: Option<Seq<char>>,
    active: Option<Seq<char>>,
) -> Seq<char> {
    match asked {
        Some(branch) => branch,
        None => match active {
            Some(branch) => branch,
            None => "main"@,
        },
    }
}

/// The branch that observations belong to.
pub fn observed_branch(asked: Option<String>, active: Option<String>) -> (r: String)
    ensures
        r@ == branch_of(opt_view(asked), opt_view(active)),
{
    match asked {
        Some(branch) => branch,
        None => match active {
            Some(branch) => branch,
            None => "main".to_owned(),
        },
    }
}

/// The identity of a session's cursor: namespaced by the harness of a native
/// transcript, or by the producer of a context that names one.
pub open spec fn cursor_id(
    native_harness: Option<Seq<char>>,
    producer: Option<Seq<char>>,
    session: Seq<char>,
) -> Seq<char> {
    match native_harness {
        Some(harness) => "native:"@ + harness + ":"@ + session,
        None => match producer {
            Some(producer) => "producer:"@ + producer + ":"@ + session,
            None => session,
        },
    }
}

/// The identity of a session's cursor.
pub fn cursor_session_id(
    native_harness: Option<&str>,
    producer: Option<&str>,
    session: &str,
) -> (r: String)
    ensures
        r@ == cursor_id(
            match native_harness {
                Some(harness) => Some(harness@),
                None => None,
            },
            match producer {
                Some(producer) => Some(producer@),
                None => None,
            },
            session@,
        ),
{
    match native_harness {
        Some(harness) => {
            let mut id: String = "native:".to_owned();
            id.append(harness);
            id.append(":");
            id.append(session);
            id
        },
        None => match producer {
            Some(producer) => {
                let mut id: String = "producer:".to_owned();
                id.append(producer);
                id.append(":");
                id.append(session);
                id
            },
            None => session.to_owned(),
        },
    }
}

/// What reading a roster came to, where it failed.
#[derive(Clone, Debug, PartialEq, Eq)]
pub enum RosterFault {
    /// The places to look in could not be planned.
    Plan,
    /// The file to import could not be read, by the error's text.
    File(String),
    Deadline,
    Cancelled,
    /// Any other error, by its text.
    Other(String),
}

/// What a roster that could not be had says: out of time is a timeout, a file
/// that could not be read or imported malformed, roots that could not be
/// planned or resolved unusable.
pub open spec fn roster_refusal(fault: RosterFault, imported: bool) -> (
    u8,
    Seq<char>,
    Seq<char>,
) {
    match fault {
        RosterFault::Plan => (5u8, "unusable-roster"@, "Failed to create roster source plan"@),
        RosterFault::File(detail) => (
            7u8,
            "malformed-input"@,
            "Failed to read roster file: "@ + detail@,
        ),
        RosterFault::Other(detail) => if imported {
            (7u8, "malformed-input"@, "Failed to import roster: "@ + detail@)
        } else {
            (5u8, "unusable-roster"@, "Failed to resolve roster: "@ + detail@)
        },
        _ => (6u8, "timeout"@, "Roster resolution reached the observation deadline"@),
    }
}

/// The failure of a roster that could not be had.
pub fn roster_failure(fault: &RosterFault, imported: bool) -> (r: Failure)
    ensures
        failure_view(r) == roster_refusal(*fault, imported),
{
    match fault {
        RosterFault::Plan => failure(5, "unusable-roster", "Failed to create roster source plan"),
        RosterFault::File(detail) => {
            let mut message: String = "Failed to read roster file: ".to_owned();
            message.append(detail.as_str());
            (7, "malformed-input", message)
        },
        RosterFault::Other(detail) => if imported {
            let mut message: String = "Failed to import roster: ".to_owned();
            message.append(detail.as_str());
            (7, "malformed-input", message)
        } else {
            let mut message: String = "Failed to resolve roster: ".to_owned();
            message.append(detail.as_str());
            (5, "unusable-roster", message)
        },
        _ => observe_roster_timeout(),
    }
}

/// The failure of a cursor that could not be read.
pub fn cursor_failure(fault: &StoreFault) -> (r: Failure)
    ensures
        failure_view(r) == store_refusal("Failed to read session cursor"@, *fault),
{
    store_failure("Failed to read session cursor", fault)
}

/// Why a plan was not recorded.
pub open spec fn record_refusal(fault: StoreFault, revision_conflict: ErrorCategory) -> (
    u8,
    Seq<char>,
    Seq<char>,
) {
    if fault.kind is RecordConflict {
        (
            revision_conflict.code,
            revision_conflict.name@,
            "Concurrent transcript observation or cursor conflict"@,
        )
    } else {
        store_refusal("Failed to record observations"@, fault)
    }
}

/// The failure of observations that could not be recorded: a conflict is
/// reported under its own category.
pub fn record_failure(fault: &StoreFault, revision_conflict: ErrorCategory) -> (r: Failure)
    ensures
        failure_view(r) == record_refusal(*fault, revision_conflict),
{
    match fault.kind {
        StoreKind::RecordConflict => category_failure(
            revision_conflict,
            "Concurrent transcript observation or cursor conflict".to_owned(),
        ),
        _ => store_failure("Failed to record observations", fault),
    }
}

/// The generation that a cursor is expected in, and the one it is moved to.
pub open spec fn generations_of(existing: Option<u64>) -> Option<(u64, u64)> {
    match existing {
        Some(generation) => if generation < u64::MAX {
            Some((generation, (generation + 1) as u64))
        } else {
            None
        },
        None => Some((0u64, 1u64)),
    }
}

/// The generation a cursor is expected to have, and its next one. Without a
/// cursor nothing was observed yet.
pub fn cursor_generations(existing: Option<u64>) -> (r: Option<(u64, u64)>)
    ensures
        r == generations_of(existing),
{
    match existing {
        Some(generation) => match generation.checked_add(1) {
            Some(next) => Some((generation, next)),
            None => None,
        },
        None => Some((0, 1)),
    }
}

/// What an observation reads of a session event.
#[derive(Clone, Debug, PartialEq, Eq)]
pub struct SessionEvent {
    /// Whether the event is a message of the user.
    pub user_message: bool,
    pub event_id: Option<String>,
}

/// Whether a place holds the last user message.
pub open spec fn last_user_message(events: Seq<SessionEvent>, i: int) -> bool {
    &&& 0 <= i < events.len()
    &&& events[i].user_message
    &&& forall|j: int| i < j < events.len() ==> !(#[trigger] events[j]).user_message
}

/// The current request of a session: its last user message.
pub fn current_request(events: &Vec<SessionEvent>) -> (r: Option<usize>)
    ensures
        r is Some ==> last_user_message(events@, r->0 as int),
        r is None <==> forall|j: int|
            0 <= j < events@.len() ==> !(#[trigger] events@[j]).user_message,
{
    let mut i: usize = events.len();
    while i > 0
        invariant
            i <= events@.len(),
            forall|j: int| i <= j < events@.len() ==> !(#[trigger] events@[j]).user_message,
        decreases i,
    {
        if events[i - 1].user_message {
            return Some(i - 1);
        }
        i = i - 1;
    }
    None
}

/// The identity of the last event that has one.
pub open spec fn last_identified(events: Seq<SessionEvent>) -> Option<Seq<char>>
    decreases events.len(),
{
    if events.len() == 0 {
        None
    } else if events.last().event_id is Some {
        Some(events.last().event_id->0@)
    } else {
        last_identified(events.drop_last())
    }
}

/// The identity of the last event that has one, else `event-0`.
pub fn last_event_id(events: &Vec<SessionEvent>) -> (r: String)
    ensures
        r@ == match last_identified(events@) {
            Some(id) => id,
            None => "event-0"@,
        },
{
    let mut i: usize = events.len();
    assert(events@.take(i as int) =~= events@);
    while i > 0
        invariant
            i <= events@.len(),
            last_identified(events@) == last_identified(events@.take(i as int)),
        decreases i,
    {
        proof {
            assert(events@.take(i as int).drop_last() =~= events@.take(i - 1));
            assert(events@.take(i as int).last() == events@[i - 1]);
        }
        if let Some(id) = &events[i - 1].event_id {
            return id.clone();
        }
        i = i - 1;
    }
    "event-0".to_owned()
}

/// What a session showed of a skill.
#[derive(Clone, Copy, Debug, PartialEq, Eq, Structural)]
pub enum LoadState {
    ObservedLoaded,
    Attempted,
    Censored,
    NotObserved,
    Unobservable,
}

/// What the ledger records of a skill.
#[derive(Clone, Copy, Debug, PartialEq, Eq, Structural)]
pub enum EvidenceState {
    Loaded,
    Attempted,
    Censored,
}

/// What the ledger records of a load state: what was neither loaded nor
/// attempted is censored.
pub open spec fn recorded_state(state: LoadState) -> EvidenceState {
    match state {
        LoadState::ObservedLoaded => EvidenceState::Loaded,
        LoadState::Attempted => EvidenceState::Attempted,
        _ => EvidenceState::Censored,
    }
}

/// A load read off a session.
#[derive(Clone, Debug, PartialEq, Eq)]
pub struct LoadObservation {
    pub state: LoadState,
    pub event_id: Option<String>,
    pub skill_id: String,
}

/// An observation to record.
#[derive(Clone, Debug, PartialEq, Eq)]
pub struct NewObservation {
    pub observation_id: String,
    pub source_event_key: String,
    pub workspace_root: String,
    pub session_id: String,
    pub agent_branch: String,
    pub skill_id: String,
    pub evidence_state: EvidenceState,
    pub observed_at_unix_ms: u64,
}

/// What an observation says.
#[verifier::ext_equal]
pub struct ObservationView {
    pub observation_id: Seq<char>,
    pub source_event_key: Seq<char>,
    pub workspace_root: Seq<char>,
    pub session_id: Seq<char>,
    pub agent_branch: Seq<char>,
    pub skill_id: Seq<char>,
    pub evidence_state: EvidenceState,
    pub observed_at_unix_ms: u64,
}

impl View for NewObservation {
    type V = ObservationView;

    open spec fn view(&self) -> ObservationView {
        ObservationView {
            observation_id: self.observation_id@,
            source_event_key: self.source_event_key@,
            workspace_root: self.workspace_root@,
            session_id: self.session_id@,
            agent_branch: self.agent_branch@,
            skill_id: self.skill_id@,
            evidence_state: self.evidence_state,
            observed_at_unix_ms: self.observed_at_unix_ms,
        }
    }
}

/// What each observation of a list says.
pub open spec fn observation_views(list: Seq<NewObservation>) -> Seq<ObservationView> {
    Seq::new(list.len(), |i: int| list[i]@)
}

/// Where and when loads were observed.
#[derive(Clone, Debug, PartialEq, Eq)]
pub struct ObservationScope {
    /// Whether a native transcript was read, rather than a normalized context.
    pub native: bool,
    pub workspace_root: String,
    pub session_id: String,
    pub agent_branch: String,
    pub now_ms: u64,
}

/// The event of a load, under a name of its own where it has no identity.
pub open spec fn load_event(load: LoadObservation) -> Seq<char> {
    match load.event_id {
        Some(id) => id@,
        None => "event-0"@,
    }
}

/// The key that makes an observation unique.
pub open spec fn event_key(scope: ObservationScope, load: LoadObservation) -> Seq<char> {
    (if scope.native {
        "native"@
    } else {
        "normalized"@
    }) + ":"@ + scope.session_id@ + ":"@ + scope.agent_branch@ + ":"@ + load_event(load) + ":"@
        + load.skill_id@
}

/// The observation of a load. Its identity is derived from the whole of its
/// uniqueness key, so the two never disagree.
pub open spec fn observation_of(
    scope: ObservationScope,
    load: LoadObservation,
) -> ObservationView {
    ObservationView {
        observation_id: "obs-"@ + event_key(scope, load),
        source_event_key: event_key(scope, load),
        workspace_root: scope.workspace_root@,
        session_id: scope.session_id@,
        agent_branch: scope.agent_branch@,
        skill_id: load.skill_id@,
        evidence_state: recorded_state(load.state),
        observed_at_unix_ms: scope.now_ms,
    }
}

/// Two observations have one identity exactly where they have one key.
pub proof fn lemma_observation_ids_follow_keys(
    a_scope: ObservationScope,
    a: LoadObservation,
    b_scope: ObservationScope,
    b: LoadObservation,
)
    ensures
        observation_of(a_scope, a).observation_id == observation_of(b_scope, b).observation_id
            <==> observation_of(a_scope, a).source_event_key == observation_of(
            b_scope,
            b,
        ).source_event_key,
{
    let x = event_key(a_scope, a);
    let y = event_key(b_scope, b);
    let n = "obs-"@.len() as int;
    assert(("obs-"@ + x).skip(n) =~= x);
    assert(("obs-"@ + y).skip(n) =~= y);
}

/// Whether two loads are of one event and one skill.
pub open spec fn same_load(a: LoadObservation, b: LoadObservation) -> bool {
    load_event(a) == load_event(b) && a.skill_id@ == b.skill_id@
}

/// Observing one session under another branch never collides: the keys of the
/// two branches differ, and so do the identities. A colon in a branch's name
/// could pass for the one that ends it, so between different loads this is said
/// of branches without one.
pub proof fn lemma_branches_never_collide(
    a_scope: ObservationScope,
    a: LoadObservation,
    b_scope: ObservationScope,
    b: LoadObservation,
)
    requires
        a_scope.native == b_scope.native,
        a_scope.session_id@ == b_scope.session_id@,
        a_scope.agent_branch@ != b_scope.agent_branch@,
        same_load(a, b) || (!a_scope.agent_branch@.contains(':')
            && !b_scope.agent_branch@.contains(':')),
    ensures
        event_key(a_scope, a) != event_key(b_scope, b),
        observation_of(a_scope, a).observation_id != observation_of(b_scope, b).observation_id,
{
    reveal_strlit(":");
    let front = (if a_scope.native {
        "native"@
    } else {
        "normalized"@
    }) + ":"@ + a_scope.session_id@ + ":"@;
    let n = front.len() as int;
    let x = a_scope.agent_branch@;
    let y = b_scope.agent_branch@;
    let a_rest = ":"@ + load_event(a) + ":"@ + a.skill_id@;
    let b_rest = ":"@ + load_event(b) + ":"@ + b.skill_id@;
    assert(event_key(a_scope, a) =~= front + x + a_rest);
    assert(event_key(b_scope, b) =~= front + y + b_rest);
    if event_key(a_scope, a) == event_key(b_scope, b) {
        let tail = (front + x + a_rest).skip(n);
        assert(tail =~= x + a_rest);
        assert((front + y + b_rest).skip(n) =~= y + b_rest);
        if same_load(a, b) {
            assert(a_rest == b_rest);
        } else {
            // The first colon behind the session ends either branch.
            assert(tail[x.len() as int] == ':' && tail[y.len() as int] == ':');
            if x.len() < y.len() {
                assert(y[x.len() as int] == tail[x.len() as int]);
                assert(y.contains(':'));
            }
            if y.len() < x.len() {
                assert(x[y.len() as int] == tail[y.len() as int]);
                assert(x.contains(':'));
            }
        }
        assert(x.len() == y.len());
        assert(x =~= tail.take(x.len() as int));
        assert(y =~= tail.take(y.len() as int));
        assert(false);
    }
    lemma_observation_ids_follow_keys(a_scope, a, b_scope, b);
}

fn observe_load(scope: &ObservationScope, load: &LoadObservation) -> (r: NewObservation)
    ensures
        r@ == observation_of(*scope, *load),
{
    let mut key: String = if scope.native {
        "native".to_owned()
    } else {
        "normalized".to_owned()
    };
    key.append(":");
    key.append(scope.session_id.as_str());
    key.append(":");
    key.append(scope.agent_branch.as_str());
    key.append(":");
    match &load.event_id {
        Some(id) => key.append(id.as_str()),
        None => key.append("event-0"),
    }
    key.append(":");
    key.append(load.skill_id.as_str());
    let mut observation_id: String = "obs-".to_owned();
    observation_id.append(key.as_str());
    NewObservation {
        observation_id,
        source_event_key: key,
        workspace_root: scope.workspace_root.clone(),
        session_id: scope.session_id.clone(),
        agent_branch: scope.agent_branch.clone(),
        skill_id: load.skill_id.clone(),
        evidence_state: match load.state {
            LoadState::ObservedLoaded => EvidenceState::Loaded,
            LoadState::Attempted => EvidenceState::Attempted,
            _ => EvidenceState::Censored,
        },
        observed_at_unix_ms: scope.now_ms,
    }
}

/// The observations of the loads of a session, in order.
pub fn observations(scope: &ObservationScope, loads: &Vec<LoadObservation>) -> (r: Vec<
    NewObservation,
>)
    ensures
        observation_views(r@) == Seq::new(
            loads@.len(),
            |i: int| observation_of(*scope, loads@[i]),
        ),
{
    let mut list: Vec<NewObservation> = Vec::new();
    let mut i: usize = 0;
    while i < loads.len()
        invariant
            i <= loads@.len(),
            observation_views(list@) =~= Seq::new(
                i as nat,
                |j: int| observation_of(*scope, loads@[j]),
            ),
        decreases loads@.len() - i,
    {
        let ghost before = list@;
        list.push(observe_load(scope, &loads[i]));
        assert(observation_views(list@) =~= observation_views(before).push(list@.last()@));
        i = i + 1;
    }
    list
}

/// What an observation pass came to.
#[derive(Clone, Debug, PartialEq, Eq)]
pub struct ObservationSummary {
    pub workspace_root: String,
    pub session_id: String,
    pub agent_branch: String,
    pub recorded: usize,
    pub generation: u64,
    pub last_event_id: String,
    /// Whether the input continues past this pass.
    pub unread_backlog: bool,
}

/// The document of an observation pass.
pub open spec fn summary_json(s: ObservationSummary) -> Json {
    Json::Object(
        Map::empty().insert("status"@, Json::Text("ok"@)).insert(
            "workspace_root"@,
            Json::Text(s.workspace_root@),
        ).insert("session_id"@, Json::Text(s.session_id@)).insert(
            "agent_branch"@,
            Json::Text(s.agent_branch@),
        ).insert(
            "observations_recorded"@,
            Json::Number(JsonNumber::Natural(s.recorded as u64)),
        ).insert("cursor_generation"@, Json::Number(JsonNumber::Natural(s.generation))).insert(
            "last_event_id"@,
            Json::Text(s.last_event_id@),
        ).insert("unread_backlog"@, Json::Bool(s.unread_backlog)),
    )
}

/// What an observation pass says to a person.
pub open spec fn summary_text(s: ObservationSummary) -> Seq<char> {
    "Recorded "@ + decimal(s.recorded as nat) + " observation(s) for session "@ + s.session_id@
        + " on branch "@ + s.agent_branch@ + " (generation "@ + decimal(s.generation as nat)
        + ")"@ + (if s.unread_backlog {
        "; input continues past this pass, run observe again to reach it"@
    } else {
        ""@
    }) + "\n"@
}

/// The document of an observation pass.
pub fn summary_document(s: &ObservationSummary) -> (r: Value)
    ensures
        json_of(r) == summary_json(*s),
{
    let mut v: Value = json::object_value();
    json::set_member(&mut v, "status", json::text_value("ok".to_owned()));
    json::set_member(&mut v, "workspace_root", json::text_value(s.workspace_root.clone()));
    json::set_member(&mut v, "session_id", json::text_value(s.session_id.clone()));
    json::set_member(&mut v, "agent_branch", json::text_value(s.agent_branch.clone()));
    json::set_member(&mut v, "observations_recorded", json::natural_value(s.recorded as u64));
    json::set_member(&mut v, "cursor_generation", json::natural_value(s.generation));
    json::set_member(&mut v, "last_event_id", json::text_value(s.last_event_id.clone()));
    json::set_member(&mut v, "unread_backlog", json::bool_value(s.unread_backlog));
    v
}

/// What an observation pass says, as a document or to a person.
pub open spec fn said(s: ObservationSummary, as_json: bool) -> Seq<char> {
    if as_json {
        json_text(summary_json(s)) + "\n"@
    } else {
        summary_text(s)
    }
}

/// Say what an observation pass came to, as a document or to a person.
pub fn render_summary(s: &ObservationSummary, as_json: bool) -> (r: String)
    ensures
        r@ == said(*s, as_json),
{
    if as_json {
        return json::line_of(&summary_document(s));
    }
    let mut out: String = "Recorded ".to_owned();
    out.append(text::count_text(s.recorded).as_str());
    out.append(" observation(s) for session ");
    out.append(s.session_id.as_str());
    out.append(" on branch ");
    out.append(s.agent_branch.as_str());
    out.append(" (generation ");
    out.append(text::number(s.generation).as_str());
    out.append(")");
    if s.unread_backlog {
        out.append("; input continues past this pass, run observe again to reach it");
    } else {
        out.append("");
    }
    out.append("\n");
    out
}

/// What a pass read of a session.
#[derive(Clone, Debug, PartialEq, Eq)]
pub struct ObservedSession {
    /// The durable identity of the session.
    pub session: Option<String>,
    pub asked_branch: Option<String>,
    pub active_branch: Option<String>,
    /// The harness of a native transcript.
    pub native_harness: Option<String>,
    /// The producer that a normalized context names.
    pub producer: Option<String>,
    pub events: Vec<SessionEvent>,
    pub bytes_scanned: u64,
    pub unread_backlog: bool,
}

/// What a pass was given to record a session with.
#[derive(Debug, PartialEq, Eq)]
pub struct PassInputs {
    pub workspace_root: String,
    pub now_ms: u64,
    /// Whether the roster was imported from a file.
    pub imported: bool,
    pub roster: Result<(), RosterFault>,
    /// The generation of the session's cursor, where it has one.
    pub cursor: Result<Option<u64>, StoreFault>,
    /// The loads of the session, or what is wrong with its identity.
    pub loads: Result<Vec<LoadObservation>, String>,
}

/// How far a session was observed.
#[derive(Clone, Debug, PartialEq, Eq)]
pub struct SessionCursor {
    pub workspace_root: String,
    pub session_id: String,
    pub agent_branch: String,
    pub generation: u64,
    pub last_complete_event_id: String,
    pub last_offset_bytes: u64,
    pub updated_at_unix_ms: u64,
}

/// What a pass records.
#[derive(Clone, Debug, PartialEq, Eq)]
pub struct ObservationPlan {
    pub scope: ObservationScope,
    pub observations: Vec<NewObservation>,
    pub cursor: SessionCursor,
    /// The generation that the cursor has to have still.
    pub expected_generation: u64,
    pub unread_backlog: bool,
}

/// Why a pass records nothing.
pub open spec fn pass_refusal(session: ObservedSession, inputs: PassInputs) -> Option<
    (u8, Seq<char>, Seq<char>),
> {
    if session.session is None {
        Some(
            (
                3u8,
                "missing-session"@,
                "Durable session identity is absent; cannot record observations"@,
            ),
        )
    } else if inputs.roster is Err {
        Some(roster_refusal(inputs.roster->Err_0, inputs.imported))
    } else if inputs.cursor is Err {
        Some(store_refusal("Failed to read session cursor"@, inputs.cursor->Err_0))
    } else {
        match inputs.loads {
            Err(detail) => Some(
                (7u8, "malformed-input"@, "Invalid session identity: "@ + detail@),
            ),
            Ok(_) => None,
        }
    }
}

/// The generation of a session's cursor before a pass.
pub open spec fn prior_generation(cursor: Option<u64>) -> u64 {
    match cursor {
        Some(generation) => generation,
        None => 0,
    }
}

/// Whether a plan records exactly what a pass found: each load once, in order,
/// under the session's identity and branch, and a cursor one generation on.
pub open spec fn records(
    plan: ObservationPlan,
    session: ObservedSession,
    inputs: PassInputs,
) -> bool {
    let branch = branch_of(opt_view(session.asked_branch), opt_view(session.active_branch));
    let prior = prior_generation(inputs.cursor->Ok_0);
    &&& plan.scope.native == session.native_harness is Some
    &&& plan.scope.workspace_root@ == inputs.workspace_root@
    &&& plan.scope.session_id@ == session.session->0@
    &&& plan.scope.agent_branch@ == branch
    &&& plan.scope.now_ms == inputs.now_ms
    &&& observation_views(plan.observations@) == Seq::new(
        inputs.loads->Ok_0@.len(),
        |i: int| observation_of(plan.scope, inputs.loads->Ok_0@[i]),
    )
    &&& plan.cursor.workspace_root@ == inputs.workspace_root@
    &&& plan.cursor.session_id@ == cursor_id(
        opt_view(session.native_harness),
        opt_view(session.producer),
        session.session->0@,
    )
    &&& plan.cursor.agent_branch@ == branch
    &&& plan.cursor.generation == prior + 1
    &&& plan.cursor.last_complete_event_id@ == match last_identified(session.events@) {
        Some(id) => id,
        None => "event-0"@,
    }
    &&& plan.cursor.last_offset_bytes == session.bytes_scanned
    &&& plan.cursor.updated_at_unix_ms == inputs.now_ms
    &&& plan.expected_generation == prior
    &&& plan.unread_backlog == session.unread_backlog
}

fn opt_str(s: &Option<String>) -> (r: Option<&str>)
    ensures
        match (r, *s) {
            (Some(a), Some(b)) => a@ == b@,
            (None, None) => true,
            _ => false,
        },
{
    match s {
        Some(s) => Some(s.as_str()),
        None => None,
    }
}

/// Decide what a pass records.
pub fn plan_pass(session: &ObservedSession, inputs: &PassInputs) -> (r: Result<
    ObservationPlan,
    Failure,
>)
    requires
        inputs.cursor is Ok && inputs.cursor->Ok_0 is Some ==> (inputs.cursor->Ok_0)->0 < u64::MAX,
    ensures
        match r {
            Ok(plan) => pass_refusal(*session, *inputs) is None && records(plan, *session, *inputs),
            Err(f) => pass_refusal(*session, *inputs) == Some(failure_view(f)),
        },
{
    let id: String = match durable_session(session.session.clone()) {
        Ok(id) => id,
        Err(f) => return Err(f),
    };
    if let Err(fault) = &inputs.roster {
        return Err(roster_failure(fault, inputs.imported));
    }
    let existing: Option<u64> = match &inputs.cursor {
        Ok(existing) => *existing,
        Err(fault) => return Err(cursor_failure(fault)),
    };
    let loads: &Vec<LoadObservation> = match &inputs.loads {
        Ok(loads) => loads,
        Err(detail) => {
            let mut message: String = "Invalid session identity: ".to_owned();
            message.append(detail.as_str());
            return Err((7, "malformed-input", message));
        },
    };
    let (prior, next): (u64, u64) = match existing {
        Some(generation) => (generation, generation + 1),
        None => (0, 1),
    };
    let branch: String = observed_branch(
        session.asked_branch.clone(),
        session.active_branch.clone(),
    );
    let cursor: SessionCursor = SessionCursor {
        workspace_root: inputs.workspace_root.clone(),
        session_id: cursor_session_id(
            opt_str(&session.native_harness),
            opt_str(&session.producer),
            id.as_str(),
        ),
        agent_branch: branch.clone(),
        generation: next,
        last_complete_event_id: last_event_id(&session.events),
        last_offset_bytes: session.bytes_scanned,
        updated_at_unix_ms: inputs.now_ms,
    };
    let scope: ObservationScope = ObservationScope {
        native: session.native_harness.is_some(),
        workspace_root: inputs.workspace_root.clone(),
        session_id: id,
        agent_branch: branch,
        now_ms: inputs.now_ms,
    };
    let observations: Vec<NewObservation> = observations(&scope, loads);
    Ok(
        ObservationPlan {
            scope,
            observations,
            cursor,
            expected_generation: prior,
            unread_backlog: session.unread_backlog,
        },
    )
}

/// Two passes that find the same loads in the same session name each of their
/// observations alike, whatever the time and the cursor: observing again adds
/// nothing under a new name.
pub proof fn lemma_observing_again_names_alike(
    a: ObservationPlan,
    b: ObservationPlan,
    session: ObservedSession,
    first: PassInputs,
    second: PassInputs,
)
    requires
        records(a, session, first),
        records(b, session, second),
        first.loads is Ok,
        second.loads == first.loads,
    ensures
        a.observations@.len() == b.observations@.len(),
        forall|i: int|
            0 <= i < a.observations@.len() ==> a.observations@[i]@.observation_id == (
            #[trigger] b.observations@[i]@).observation_id,
{
    assert(observation_views(a.observations@).len() == a.observations@.len());
    assert(observation_views(b.observations@).len() == b.observations@.len());
    assert forall|i: int| 0 <= i < a.observations@.len() implies a.observations@[i]@.observation_id
        == (#[trigger] b.observations@[i]@).observation_id by {
        assert(observation_views(a.observations@)[i] == a.observations@[i]@);
        assert(observation_views(b.observations@)[i] == b.observations@[i]@);
    }
}

/// A pass after a recorded one expects the generation that it left.
pub proof fn lemma_passes_follow_each_other(
    a: ObservationPlan,
    b: ObservationPlan,
    before: ObservedSession,
    after: ObservedSession,
    first: PassInputs,
    second: PassInputs,
)
    requires
        records(a, before, first),
        records(b, after, second),
        second.cursor == Ok::<Option<u64>, StoreFault>(Some(a.cursor.generation)),
    ensures
        b.expected_generation == a.cursor.generation,
        b.cursor.generation == a.cursor.generation + 1,
{
}

/// Whether a summary says what a plan recorded.
pub open spec fn summarizes(s: ObservationSummary, plan: ObservationPlan) -> bool {
    &&& s.workspace_root@ == plan.scope.workspace_root@
    &&& s.session_id@ == plan.scope.session_id@
    &&& s.agent_branch@ == plan.scope.agent_branch@
    &&& s.recorded == plan.observations@.len()
    &&& s.generation == plan.cursor.generation
    &&& s.last_event_id@ == plan.cursor.last_complete_event_id@
    &&& s.unread_backlog == plan.unread_backlog
}

/// What a plan recorded.
pub fn summarize(plan: &ObservationPlan) -> (r: ObservationSummary)
    ensures
        summarizes(r, *plan),
{
    ObservationSummary {
        workspace_root: plan.scope.workspace_root.clone(),
        session_id: plan.scope.session_id.clone(),
        agent_branch: plan.scope.agent_branch.clone(),
        recorded: plan.observations.len(),
        generation: plan.cursor.generation,
        last_event_id: plan.cursor.last_complete_event_id.clone(),
        unread_backlog: plan.unread_backlog,
    }
}

/// Answer the observe command with what recording its plan came to.
pub fn finish_pass(
    plan: &ObservationPlan,
    recorded: Result<(), StoreFault>,
    revision_conflict: ErrorCategory,
    as_json: bool,
) -> (r: Result<String, Failure>)
    ensures
        match recorded {
            Err(fault) => r is Err && failure_view(r->Err_0) == record_refusal(
                fault,
                revision_conflict,
            ),
            Ok(_) => r is Ok && exists|s: ObservationSummary|
                summarizes(s, *plan) && (r->Ok_0)@ == #[trigger] said(s, as_json),
        },
{
    match recorded {
        Err(fault) => Err(record_failure(&fault, revision_conflict)),
        Ok(_) => {
            let s: ObservationSummary = summarize(plan);
            let out: String = render_summary(&s, as_json);
            assert(out@ == said(s, as_json));
            Ok(out)
        },
    }
}

/// A skill that was seen to load is recorded as loaded and one that was tried as
/// tried; what was not seen, whatever the reason, is recorded as censored.
pub proof fn lemma_recorded_states(state: LoadState)
    ensures
        recorded_state(state) is Loaded <==> state is ObservedLoaded,
        recorded_state(state) is Attempted <==> state is Attempted,
        recorded_state(state) is Censored <==> state is Censored || state is NotObserved || state
            is Unobservable,
{
}

/// The branch that is observed is the one asked for, else the active one, else the
/// main one.
pub proof fn lemma_observed_branch(asked: Option<Seq<char>>, active: Option<Seq<char>>)
    ensures
        asked is Some ==> branch_of(asked, active) == asked->0,
        asked is None && active is Some ==> branch_of(asked, active) == active->0,
        asked is None && active is None ==> branch_of(asked, active) == "main"@,
{
}

/// The identity of a cursor ends in that of the session. A native session is told
/// from one of a producer, whatever either is called, and either from a plain one.
pub proof fn lemma_cursor_identities(
    harness: Seq<char>,
    producer: Option<Seq<char>>,
    session: Seq<char>,
)
    ensures
        cursor_id(Some(harness), producer, session) == "native:"@ + harness + ":"@ + session,
        producer is Some ==> cursor_id(None, producer, session) == "producer:"@ + producer->0
            + ":"@ + session,
        producer is None ==> cursor_id(None, producer, session) == session,
        producer is Some ==> cursor_id(Some(harness), producer, session) != cursor_id(
            None,
            producer,
            session,
        ),
{
    reveal_strlit("native:");
    reveal_strlit("producer:");
    if producer is Some {
        assert(cursor_id(Some(harness), producer, session)[0] == 'n');
        assert(cursor_id(None, producer, session)[0] == 'p');
    }
}

/// The event that a pass ended with is the last that has an identity.
pub proof fn lemma_last_identified_event(events: Seq<SessionEvent>, i: int)
    requires
        0 <= i <= events.len(),
        forall|j: int| i <= j < events.len() ==> (#[trigger] events[j]).event_id is None,
    ensures
        i == 0 ==> last_identified(events) is None,
        i > 0 && events[i - 1].event_id is Some ==> last_identified(events) == Some(
            events[i - 1].event_id->0@,
        ),
    decreases events.len(),
{
    if i < events.len() {
        let front = events.drop_last();
        assert forall|j: int| i <= j < front.len() implies (#[trigger] front[j]).event_id
            is None by {
            assert(front[j] == events[j]);
        }
        lemma_last_identified_event(front, i);
        if i > 0 {
            assert(front[i - 1] == events[i - 1]);
        }
    }
}

/// A pass records each load as itself: the skill that was loaded, in the workspace,
/// session and branch that were observed, at the time of the pass and in the state
/// it was seen in.
pub proof fn lemma_each_load_is_recorded_as_itself(
    plan: ObservationPlan,
    session: ObservedSession,
    inputs: PassInputs,
    i: int,
)
    requires
        records(plan, session, inputs),
        0 <= i < inputs.loads->Ok_0@.len(),
    ensures
        plan.observations@.len() == inputs.loads->Ok_0@.len(),
        ({
            let made = plan.observations@[i];
            let load = inputs.loads->Ok_0@[i];
            &&& made.skill_id@ == load.skill_id@
            &&& made.workspace_root@ == inputs.workspace_root@
            &&& made.session_id@ == session.session->0@
            &&& made.agent_branch@ == plan.cursor.agent_branch@
            &&& session.asked_branch is Some ==> made.agent_branch@ == session.asked_branch->0@
            &&& made.observed_at_unix_ms == inputs.now_ms
            &&& made.evidence_state is Loaded <==> load.state is ObservedLoaded
            &&& made.evidence_state is Attempted <==> load.state is Attempted
            &&& made.observation_id@ == "obs-"@ + made.source_event_key@
            &&& ends_in(made.source_event_key@, ":"@ + load.skill_id@)
            &&& load.event_id is Some ==> occurs(
                made.source_event_key@,
                ":"@ + load.event_id->0@ + ":"@,
            )
            &&& text::has_prefix(
                made.source_event_key@,
                if session.native_harness is Some {
                    "native:"@
                } else {
                    "normalized:"@
                },
            )
        }),
{
    let made = plan.observations@[i];
    let load = inputs.loads->Ok_0@[i];
    assert(observation_views(plan.observations@).len() == plan.observations@.len());
    assert(observation_views(plan.observations@)[i] == made@);
    lemma_event_key_parts(plan.scope, load);
}

proof fn lemma_event_key_parts(scope: ObservationScope, load: LoadObservation)
    ensures
        ends_in(event_key(scope, load), ":"@ + load.skill_id@),
        occurs(event_key(scope, load), ":"@ + load_event(load) + ":"@),
        scope.native ==> text::has_prefix(event_key(scope, load), "native:"@),
        !scope.native ==> text::has_prefix(event_key(scope, load), "normalized:"@),
{
    let key = event_key(scope, load);
    let origin = if scope.native {
        "native"@
    } else {
        "normalized"@
    };
    let head = origin + ":"@ + scope.session_id@ + ":"@ + scope.agent_branch@;
    let event = ":"@ + load_event(load) + ":"@;
    let end = ":"@ + load.skill_id@;
    assert(key =~= head + event + load.skill_id@);
    lemma_occurs_between(head, event, load.skill_id@);
    assert(key =~= (head + ":"@ + load_event(load)) + end);
    assert(key.skip(key.len() - end.len()) =~= end);
    reveal_strlit(":");
    if scope.native {
        reveal_strlit("native");
        reveal_strlit("native:");
        assert("native:"@ =~= "native"@ + ":"@);
        assert(key.take("native:"@.len() as int) =~= "native:"@);
    } else {
        reveal_strlit("normalized");
        reveal_strlit("normalized:");
        assert("normalized:"@ =~= "normalized"@ + ":"@);
        assert(key.take("normalized:"@.len() as int) =~= "normalized:"@);
    }
}

/// A pass moves the cursor of its own session and branch by one generation, from
/// the one that was read, and to where the input was read up to.
pub proof fn lemma_pass_moves_the_cursor(
    plan: ObservationPlan,
    session: ObservedSession,
    inputs: PassInputs,
)
    requires
        records(plan, session, inputs),
    ensures
        inputs.cursor->Ok_0 is Some ==> plan.expected_generation == (inputs.cursor->Ok_0)->0,
        inputs.cursor->Ok_0 is None ==> plan.expected_generation == 0,
        plan.cursor.generation == plan.expected_generation + 1,
        plan.cursor.last_offset_bytes == session.bytes_scanned,
        plan.cursor.updated_at_unix_ms == inputs.now_ms,
        plan.cursor.workspace_root@ == inputs.workspace_root@,
        ends_in(plan.cursor.session_id@, session.session->0@),
        plan.unread_backlog <==> session.unread_backlog,
{
    let id = plan.cursor.session_id@;
    let end = session.session->0@;
    assert(id.skip(id.len() - end.len()) =~= end);
}

/// A pass is refused exactly where its session has no identity, the roster or the
/// cursor could not be read, or the loads could not. The first of these is
/// reported.
pub proof fn lemma_passes_that_are_refused(session: ObservedSession, inputs: PassInputs)
    ensures
        pass_refusal(session, inputs) is None <==> session.session is Some && inputs.roster is Ok
            && inputs.cursor is Ok && inputs.loads is Ok,
        session.session is None ==> (pass_refusal(session, inputs)->0).0 == 3,
        session.session is Some && inputs.roster is Err ==> (pass_refusal(session, inputs)->0).0
            == match inputs.roster->Err_0 {
            RosterFault::Plan => 5u8,
            RosterFault::File(_) => 7,
            RosterFault::Deadline | RosterFault::Cancelled => 6,
            RosterFault::Other(_) => if inputs.imported {
                7
            } else {
                5
            },
        },
        session.session is Some && inputs.roster is Ok && inputs.cursor is Err ==> (pass_refusal(
            session,
            inputs,
        )->0).0 == 9,
        session.session is Some && inputs.roster is Ok && inputs.cursor is Ok && inputs.loads
            is Err ==> (pass_refusal(session, inputs)->0).0 == 7,
{
}

/// Observing needs a ledger and a source: a context, a transcript with its harness,
/// or a session.
pub proof fn lemma_observations_that_are_accepted(args: ObserveArguments)
    ensures
        observe_refusal(args) is None <==> !args.no_ledger && !args.no_persist && (args.context
            is Some || args.transcript is Some && args.harness is Some || args.session is Some),
        observe_refusal(args) is Some ==> (observe_refusal(args)->0).0 == 2,
{
}

/// A session that cannot be observed is malformed input. Its message says what
/// was tried, in the words of that fault alone, and ends in the detail.
pub proof fn lemma_session_refusals(fault: SessionFault, detail: String)
    ensures
        session_refusal(fault).0 == 7 && session_refusal(fault).1 == "malformed-input"@,
        fault == SessionFault::Unreadable(detail) ==> session_refusal(fault).2
            == "Failed to read context file: "@ + detail@,
        fault == SessionFault::Malformed(detail) ==> session_refusal(fault).2
            == "Invalid normalized context: "@ + detail@,
        fault == SessionFault::Transcript(detail) ==> session_refusal(fault).2
            == "Transcript snapshot failed: "@ + detail@,
{
}

/// A conflict of records has the category of conflicts, and any other fault that of
/// storage.
pub proof fn lemma_record_refusals(fault: StoreFault, conflict: ErrorCategory)
    ensures
        fault.kind is RecordConflict ==> record_refusal(fault, conflict).0 == conflict.code
            && record_refusal(fault, conflict).1 == conflict.name@,
        !(fault.kind is RecordConflict) ==> record_refusal(fault, conflict).0 == 9
            && record_refusal(fault, conflict).1 == "storage-failure"@,
{
}

/// The document of a pass holds each of its figures under its own name.
pub proof fn lemma_summary_document(s: ObservationSummary)
    ensures
        ({
            let document = summary_json(s);
            &&& document.member("status"@) == Json::Text("ok"@)
            &&& document.member("workspace_root"@) == Json::Text(s.workspace_root@)
            &&& document.member("session_id"@) == Json::Text(s.session_id@)
            &&& document.member("agent_branch"@) == Json::Text(s.agent_branch@)
            &&& document.member("observations_recorded"@) == Json::Number(
                JsonNumber::Natural(s.recorded as u64),
            )
            &&& document.member("cursor_generation"@) == Json::Number(
                JsonNumber::Natural(s.generation),
            )
            &&& document.member("last_event_id"@) == Json::Text(s.last_event_id@)
            &&& document.member("unread_backlog"@) == Json::Bool(s.unread_backlog)
        }),
{
    reveal_strlit("status");
    reveal_strlit("workspace_root");
    reveal_strlit("session_id");
    reveal_strlit("agent_branch");
    reveal_strlit("observations_recorded");
    reveal_strlit("cursor_generation");
    reveal_strlit("last_event_id");
    reveal_strlit("unread_backlog");
    assert("status"@.len() == 6 && "workspace_root"@.len() == 14 && "session_id"@.len() == 10);
    assert("agent_branch"@.len() == 12 && "observations_recorded"@.len() == 21);
    assert("cursor_generation"@.len() == 17 && "last_event_id"@.len() == 13);
    assert("unread_backlog"@.len() == 14 && "unread_backlog"@[0] == 'u');
    assert("workspace_root"@[0] == 'w');
}

/// A summary says what its pass did: how much it recorded, of which session and
/// branch, and where the cursor is.
pub proof fn lemma_summary_follows_the_plan(s: ObservationSummary, plan: ObservationPlan)
    requires
        summarizes(s, plan),
    ensures
        s.recorded == plan.observations@.len(),
        s.session_id@ == plan.scope.session_id@ && s.agent_branch@ == plan.scope.agent_branch@,
        s.workspace_root@ == plan.scope.workspace_root@,
        s.generation == plan.cursor.generation,
        s.last_event_id@ == plan.cursor.last_complete_event_id@,
        s.unread_backlog <==> plan.unread_backlog,
{
}

/// The words of a summary give each of its figures behind its own name, and say
/// that there is more to read where there is.
#[verifier::rlimit(40)]
pub proof fn lemma_summary_line(s: ObservationSummary)
    ensures
        occurs(summary_text(s), "Recorded "@ + decimal(s.recorded as nat) + " observation(s)"@),
        occurs(summary_text(s), " for session "@ + s.session_id@ + " on"@),
        occurs(summary_text(s), " on branch "@ + s.agent_branch@ + " ("@),
        occurs(summary_text(s), "(generation "@ + decimal(s.generation as nat) + ")"@),
        s.unread_backlog ==> occurs(summary_text(s), "; input continues past this pass, run observe again to reach it"@),
{
    reveal_strlit("Recorded ");
    let y0 = "Recorded "@;
    reveal_strlit(" observation(s) for session ");
    reveal_strlit(" observation(s)");
    assert(y0.skip(y0.len() - "Recorded "@.len()) =~= "Recorded "@);
    assert(" observation(s) for session "@.take(" observation(s)"@.len() as int) =~= " observation(s)"@);
    lemma_value_shown(y0, decimal(s.recorded as nat), " observation(s) for session "@, "Recorded "@, " observation(s)"@);
    let y1 = y0 + decimal(s.recorded as nat) + " observation(s) for session "@;
    reveal_strlit(" for session ");
    reveal_strlit(" on branch ");
    reveal_strlit(" on");
    assert(y1.skip(y1.len() - " for session "@.len()) =~= " for session "@);
    assert(" on branch "@.take(" on"@.len() as int) =~= " on"@);
    lemma_value_shown(y1, s.session_id@, " on branch "@, " for session "@, " on"@);
    let y2 = y1 + s.session_id@ + " on branch "@;
    reveal_strlit(" (generation ");
    reveal_strlit(" (");
    assert(y2.skip(y2.len() - " on branch "@.len()) =~= " on branch "@);
    assert(" (generation "@.take(" ("@.len() as int) =~= " ("@);
    lemma_value_shown(y2, s.agent_branch@, " (generation "@, " on branch "@, " ("@);
    let y3 = y2 + s.agent_branch@ + " (generation "@;
    reveal_strlit("(generation ");
    reveal_strlit(")");
    assert(y3.skip(y3.len() - "(generation "@.len()) =~= "(generation "@);
    assert(")"@.take(")"@.len() as int) =~= ")"@);
    lemma_value_shown(y3, decimal(s.generation as nat), ")"@, "(generation "@, ")"@);
    let y4 = y3 + decimal(s.generation as nat) + ")"@;
    let piece4 = if s.unread_backlog {
        "; input continues past this pass, run observe again to reach it"@
    } else {
        ""@
    };
    lemma_appended(y4, piece4);
    let y5 = y4 + piece4;
    let piece5 = "\n"@;
    lemma_appended(y5, piece5);
    let y6 = y5 + piece5;
    assert(y6 == summary_text(s));
}

/// A context is read before a transcript, and that before a session.
pub proof fn lemma_which_source_is_read(args: ObserveArguments, source: ObserveSource)
    requires
        reads_from(args, source),
    ensures
        args.context is Some ==> source is Context && source->Context_0 == args.context->0,
        args.context is None && args.transcript is Some && args.harness is Some ==> source
            is Transcript && source->file == args.transcript->0 && source->harness
            == args.harness->0,
        args.context is None && (args.transcript is None || args.harness is None) ==> source
            is Session,
{
}

/// A cursor is moved to the next generation, from none to the first, and not beyond
/// the last there is.
pub proof fn lemma_generations_follow_each_other(existing: Option<u64>)
    ensures
        generations_of(None) == Some((0u64, 1u64)),
        generations_of(existing) is None <==> existing == Some(u64::MAX),
        generations_of(existing) is Some ==> (generations_of(existing)->0).1 == (generations_of(
            existing,
        )->0).0 + 1,
        existing is Some && generations_of(existing) is Some ==> (generations_of(existing)->0).0
            == existing->0,
{
}

} // verus!
