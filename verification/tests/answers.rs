//! What whole commands answer, from what was read and recorded for them.

use skillranker::cli::config::{EnvPath, UserRoot};
use skillranker::cli::doctor::finish_readiness;
use skillranker::cli::eval::{admit_live, prepare_live};
use skillranker::cli::failure::{
    context_unavailable, prints_output, success_exit, write_document, ErrorCategory, StoreFault,
    StoreKind,
};
use skillranker::cli::feedback::{
    finish_feedback, FeedbackCategories, FeedbackError, FeedbackOutcome, JudgmentLabel,
};
use skillranker::cli::ledger::{
    finish_ledger, ClearCounts, LedgerAction, LedgerOpening, LedgerReport,
};
use skillranker::cli::observe::{
    finish_pass, plan_pass, session_failure, LoadObservation, LoadState, ObservedSession,
    PassInputs, RosterFault, SessionEvent, SessionFault,
};
use skillranker::cli::rank::Surroundings;
use skillranker::cli::roster::{
    finish_comparison, finish_export, finish_page, ExportError, ExportFault, PageError,
    SnapshotError,
};
use skillranker::cli::stats::finish_stats;

fn session() -> ObservedSession {
    ObservedSession {
        session: Some("s1".to_owned()),
        asked_branch: None,
        active_branch: Some("topic".to_owned()),
        native_harness: None,
        producer: Some("tool".to_owned()),
        events: vec![
            SessionEvent { user_message: true, event_id: Some("e1".to_owned()) },
            SessionEvent { user_message: false, event_id: None },
        ],
        bytes_scanned: 77,
        unread_backlog: true,
    }
}

fn inputs() -> PassInputs {
    PassInputs {
        workspace_root: "/w".to_owned(),
        now_ms: 9,
        imported: false,
        roster: Ok(()),
        cursor: Ok(Some(4)),
        loads: Ok(vec![LoadObservation {
            state: LoadState::ObservedLoaded,
            event_id: Some("e1".to_owned()),
            skill_id: "brainstorm".to_owned(),
        }]),
    }
}

fn conflict() -> ErrorCategory {
    ErrorCategory { code: 9, name: "revision-conflict" }
}

#[test]
fn a_pass_records_its_loads_and_moves_its_cursor_on() {
    let plan = plan_pass(&session(), &inputs()).unwrap();
    assert_eq!(plan.observations.len(), 1);
    assert_eq!(plan.observations[0].source_event_key, "normalized:s1:topic:e1:brainstorm");
    assert_eq!(plan.observations[0].observation_id, "obs-normalized:s1:topic:e1:brainstorm");
    assert_eq!(plan.cursor.session_id, "producer:tool:s1");
    assert_eq!(plan.cursor.agent_branch, "topic");
    assert_eq!(plan.cursor.generation, 5);
    assert_eq!(plan.cursor.last_complete_event_id, "e1");
    assert_eq!(plan.cursor.last_offset_bytes, 77);
    assert_eq!(plan.expected_generation, 4);
    let said = finish_pass(&plan, Ok(()), conflict(), false).unwrap();
    assert_eq!(
        said,
        "Recorded 1 observation(s) for session s1 on branch topic (generation 5); input continues past this pass, run observe again to reach it\n"
    );
    let document = finish_pass(&plan, Ok(()), conflict(), true).unwrap();
    let value: serde_json::Value = serde_json::from_str(&document).unwrap();
    assert_eq!(value["cursor_generation"], 5);
    assert_eq!(value["observations_recorded"], 1);
    assert_eq!(value["unread_backlog"], true);
    let fault = StoreFault { kind: StoreKind::RecordConflict, text: String::new() };
    let (code, kind, message) = finish_pass(&plan, Err(fault), conflict(), true).unwrap_err();
    assert_eq!((code, kind), (9, "revision-conflict"));
    assert_eq!(message, "Concurrent transcript observation or cursor conflict");
}

#[test]
fn a_pass_is_refused_by_the_first_thing_amiss() {
    let nobody = ObservedSession { session: None, ..session() };
    let broken = PassInputs { roster: Err(RosterFault::Deadline), ..inputs() };
    assert_eq!(plan_pass(&nobody, &broken).unwrap_err().1, "missing-session");
    assert_eq!(plan_pass(&session(), &broken).unwrap_err().1, "timeout");
    let unplanned = PassInputs { roster: Err(RosterFault::Plan), ..inputs() };
    assert_eq!(
        plan_pass(&session(), &unplanned).unwrap_err().2,
        "Failed to create roster source plan"
    );
    let unread = PassInputs { roster: Err(RosterFault::File("gone".to_owned())), ..inputs() };
    assert_eq!(
        plan_pass(&session(), &unread).unwrap_err(),
        (7, "malformed-input", "Failed to read roster file: gone".to_owned())
    );
    assert_eq!(
        session_failure(&SessionFault::Malformed("depth".to_owned())).2,
        "Invalid normalized context: depth"
    );
    assert_eq!(
        session_failure(&SessionFault::Transcript("lock".to_owned())).2,
        "Transcript snapshot failed: lock"
    );
    assert_eq!(context_unavailable().2, "Runtime context unavailable");
    let missing = PassInputs {
        cursor: Err(StoreFault { kind: StoreKind::Missing, text: String::new() }),
        loads: Err("Epoch".to_owned()),
        ..inputs()
    };
    assert_eq!(
        plan_pass(&session(), &missing).unwrap_err().2,
        "Ledger store is missing; run sr ledger init first"
    );
    let unidentified = PassInputs { loads: Err("Epoch".to_owned()), ..inputs() };
    assert_eq!(
        plan_pass(&session(), &unidentified).unwrap_err(),
        (7, "malformed-input", "Invalid session identity: Epoch".to_owned())
    );
}

#[test]
fn observing_again_names_observations_alike() {
    let first = plan_pass(&session(), &inputs()).unwrap();
    let later = PassInputs { now_ms: 100, cursor: Ok(Some(5)), ..inputs() };
    let second = plan_pass(&session(), &later).unwrap();
    assert_eq!(first.observations[0].observation_id, second.observations[0].observation_id);
    assert_eq!(second.expected_generation, first.cursor.generation);
    let fresh = plan_pass(&session(), &PassInputs { cursor: Ok(None), ..inputs() }).unwrap();
    assert_eq!((fresh.expected_generation, fresh.cursor.generation), (0, 1));
}

#[test]
fn a_ledger_command_answers_with_its_report() {
    let cleared = || Ok(LedgerReport::Cleared { records: 3, data_generation: 8 });
    let clear = LedgerAction::Clear { apply: true };
    assert_eq!(
        finish_ledger(clear, &LedgerOpening::Ready, cleared(), None).unwrap(),
        "Cleared all historical records (3 total records removed).\nNew data generation: 8\n"
    );
    assert_eq!(
        finish_ledger(clear, &LedgerOpening::Ready, cleared(), Some(Ok("{}".to_owned()))).unwrap(),
        "{}\n"
    );
    assert_eq!(
        finish_ledger(clear, &LedgerOpening::Ready, cleared(), Some(Err("no".to_owned())))
            .unwrap_err(),
        (9, "storage-failure", "no".to_owned())
    );
    assert_eq!(
        finish_ledger(clear, &LedgerOpening::ReadOnly, cleared(), None).unwrap_err().2,
        "Ledger is opened read-only; clear mutations are blocked"
    );
    assert_eq!(
        finish_ledger(clear, &LedgerOpening::Ready, Err("busy".to_owned()), None).unwrap_err().2,
        "Failed to clear ledger: busy"
    );
    let counts = ClearCounts {
        total_records: 9,
        events: 1,
        candidates: 1,
        observations: 1,
        judgments: 1,
        provider_attempts: 1,
        snapshots: 1,
        session_cursors: 1,
        feedback_proposals: 1,
        calibrations: 1,
    };
    let preview = finish_ledger(
        LedgerAction::Clear { apply: false },
        &LedgerOpening::ReadOnly,
        Ok(LedgerReport::ClearPreview(counts)),
        None,
    );
    assert!(preview.unwrap().starts_with(
        "Clear preview (entire history):\n  Total records to clear: 9\n"
    ));
    let init = LedgerAction::Init;
    assert_eq!(
        finish_ledger(init, &LedgerOpening::Missing, Err("Failed to initialize ledger: x".to_owned()), None)
            .unwrap_err().2,
        "Failed to initialize ledger: x"
    );
}

#[test]
fn feedback_is_answered_as_asked() {
    let categories = FeedbackCategories {
        incomplete_roster: ErrorCategory { code: 5, name: "incomplete-roster" },
        revision_conflict: conflict(),
    };
    let judged = || {
        Ok(FeedbackOutcome::SingleJudgment {
            judgment_id: "j".to_owned(),
            verdict: JudgmentLabel::Useful,
            data_generation: 2,
        })
    };
    assert_eq!(
        finish_feedback(judged(), categories, "s", None).unwrap(),
        "Recorded feedback for 's': Useful (j, data generation: 2)\n"
    );
    assert_eq!(
        finish_feedback(judged(), categories, "s", Some(Some("[]".to_owned()))).unwrap(),
        "[]\n"
    );
    assert_eq!(
        finish_feedback(judged(), categories, "s", Some(None)).unwrap_err(),
        (9, "serialization-failure", "Failed to serialize outcome".to_owned())
    );
    let (code, kind, _) =
        finish_feedback(Err(FeedbackError::StaleStamp), categories, "s", None).unwrap_err();
    assert_eq!((code, kind), (9, "revision-conflict"));
}

#[test]
fn statistics_that_cannot_be_computed_are_refused() {
    let fault = StoreFault { kind: StoreKind::Other, text: "locked".to_owned() };
    assert_eq!(
        finish_stats(Err(fault), None).unwrap_err(),
        (9, "storage-failure", "Failed to compute stats report: locked".to_owned())
    );
    assert_eq!(write_document(Ok("{}".to_owned())).unwrap(), "{}\n");
}

#[test]
fn a_hook_prints_nothing_and_never_fails() {
    assert!(!prints_output(true, false));
    assert!(prints_output(true, true));
    assert!(prints_output(false, false));
    assert_eq!(success_exit(true, false, false), 0);
    assert_eq!(success_exit(false, false, true), 0);
    assert_eq!(success_exit(false, false, false), 1);
    assert_eq!(success_exit(true, true, false), 1);
}

fn around() -> Surroundings {
    Surroundings {
        admits_work: true,
        flag_conflict: None,
        settings: Vec::new(),
        variables: vec![
            (b"SR_TOP".to_vec(), b"3".to_vec()),
            (b"PATH".to_vec(), b"/bin".to_vec()),
        ],
        max_variables: 1,
        has_workspace: true,
        xdg_config: EnvPath::Unset,
        home: EnvPath::Absolute,
        xdg_cache: EnvPath::Unset,
        platform_cache: true,
    }
}

#[test]
fn a_live_batch_is_admitted_step_by_step() {
    let (sources, root) = prepare_live(true, around()).unwrap();
    assert_eq!(sources.environment, vec![(b"SR_TOP".to_vec(), b"3".to_vec())]);
    assert_eq!(root, UserRoot::Home);
    let message = |deadline: bool, around: Surroundings| prepare_live(deadline, around).unwrap_err().2;
    assert_eq!(message(false, around()), "Invalid live batch deadline");
    let crowded = Surroundings { max_variables: 0, has_workspace: false, ..around() };
    assert_eq!(message(true, crowded), "Too many environment settings");
    let nowhere = Surroundings { has_workspace: false, home: EnvPath::Relative, ..around() };
    assert_eq!(message(true, nowhere), "Workspace is unavailable");
    let relative = Surroundings { home: EnvPath::Relative, ..around() };
    assert_eq!(message(true, relative), "Home directory must be absolute");
    let conflict = Surroundings { flag_conflict: Some("x".to_owned()), ..around() };
    assert_eq!(message(true, conflict), "Conflicting live batch effects");
    assert!(admit_live(true, true, true).is_ok());
    assert_eq!(
        admit_live(false, false, false).unwrap_err(),
        (
            2,
            "invalid-configuration",
            "The configuration is invalid; run `sr doctor --config`".to_owned()
        )
    );
    assert_eq!(admit_live(true, false, false).unwrap_err().0, 8);
    assert_eq!(admit_live(true, true, false).unwrap_err().1, "credential-absent");
}

#[test]
fn a_listing_answers_with_what_was_asked() {
    assert_eq!(finish_page(Ok("{}".to_owned()), true).unwrap(), "{}\n");
    assert_eq!(finish_page(Ok("{}".to_owned()), false).unwrap_err().1, "timeout");
    assert_eq!(finish_page(Err(PageError::RosterChanged), false).unwrap_err().1, "roster-changed");
    let category = ErrorCategory { code: 7, name: "malformed-input" };
    let saved = || Err((SnapshotError::Malformed, category));
    assert_eq!(finish_comparison(saved(), false).unwrap_err().0, 7);
    let value: serde_json::Value = serde_json::from_str("{\"added\": []}").unwrap();
    assert_eq!(finish_comparison(Ok(Some(value.clone())), true).unwrap(), "{\"added\":[]}\n");
    assert_eq!(finish_comparison(Ok(Some(value)), false).unwrap_err().0, 6);
    assert_eq!(
        finish_comparison(Ok(None), true).unwrap_err().2,
        "The comparison could not be rendered"
    );
    assert_eq!(
        finish_export(Ok(()), "s", 2, "d", false).unwrap(),
        "{\"exported\":true,\"partial\":false,\"records\":2,\"schema\":\"s\",\"snapshot\":\"d\"}\n"
    );
    let exists = Err(ExportFault::Export(ExportError::TargetAlreadyExists, category));
    assert_eq!(
        finish_export(exists, "s", 2, "d", false).unwrap_err().2,
        "The snapshot target already exists; refusing to overwrite it"
    );
    assert_eq!(finish_export(Err(ExportFault::Unqualified), "s", 2, "d", false).unwrap_err().0, 9);
}

#[test]
fn readiness_is_answered_in_time_or_not_at_all() {
    let report: serde_json::Value =
        serde_json::from_str("{\"checks\": {\"roster\": {\"state\": \"ready\"}}}").unwrap();
    assert_eq!(
        finish_readiness(true, true, true, &report, false).unwrap(),
        "CHECK\tSTATE\tNEXT STEP\nroster\tready\t-\n"
    );
    assert_eq!(finish_readiness(false, false, true, &report, true).unwrap_err().1, "timeout");
    assert_eq!(
        finish_readiness(true, false, false, &report, true).unwrap_err().2,
        "The endpoint override is not a valid origin"
    );
    assert_eq!(finish_readiness(true, true, false, &report, true).unwrap_err().0, 6);
    // Only the table reads the checks.
    let bare = serde_json::Value::Null;
    assert_eq!(finish_readiness(true, true, true, &bare, true).unwrap(), "null\n");
    assert_eq!(finish_readiness(true, true, false, &bare, false).unwrap_err().0, 6);
}
