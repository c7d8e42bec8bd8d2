//! Feedback, observation, statistics and maintenance of the ledger.

use skillranker::cli::failure::{ErrorCategory, StoreFault, StoreKind};
use skillranker::cli::feedback::{
    feedback_failure, parse_verdict, plan_feedback, render_feedback, FeedbackArguments,
    FeedbackCategories, FeedbackError, FeedbackOutcome, FeedbackSubject, JudgmentLabel,
};
use skillranker::cli::ledger::{
    action_failure, ledger_action, opened_for, prune_cutoff, render_clear_preview,
    render_cleared, render_init, render_migration, render_preview, render_prune_preview,
    render_pruned, render_status, ClearCounts, InitReport, LedgerAction, LedgerOpening,
    MigrationPreview, MigrationReport, PendingMigration, PruneCounts, StatusReport,
};
use skillranker::cli::observe::{
    bounded_context, current_request, cursor_failure, cursor_generations, cursor_session_id,
    durable_session, last_event_id, observations, observe_source, observed_branch,
    record_failure, render_summary, roster_failure, summary_document, supported_harness,
    undurable_session, EvidenceState, LoadObservation, LoadState, ObservationScope,
    ObservationSummary, ObserveArguments, ObserveSource, RosterFault, SessionEvent,
};
use skillranker::cli::stats::{
    format_stats_report, report_time, stats_failure, window_start, ChannelStats, FailureCause,
    HookEntryStats, JudgmentStats, LatencyStats, ObservationStats, ProviderStats, SkillStats,
    StatsReport, TurnStats,
};

fn text(s: &str) -> Option<String> {
    Some(s.to_owned())
}

fn no_feedback() -> FeedbackArguments {
    FeedbackArguments {
        event_id: None,
        event: None,
        skill: None,
        instead: None,
        verdict: None,
        reason: None,
        provenance: None,
        expected_version: None,
    }
}

#[test]
fn feedback_names_an_event_a_skill_and_one_subject() {
    let refused = |args: FeedbackArguments| plan_feedback(args).unwrap_err().2;
    assert_eq!(refused(no_feedback()), "Missing event ID for feedback");
    let event = FeedbackArguments { event: text("e"), ..no_feedback() };
    assert_eq!(refused(event.clone()), "Missing original skill ID (--skill)");
    let skill = FeedbackArguments { skill: text("s"), ..event };
    assert_eq!(
        refused(skill.clone()),
        "Must specify either --instead for paired correction or --verdict for single feedback"
    );
    let both = FeedbackArguments {
        instead: text("t"),
        verdict: text("useful"),
        ..skill.clone()
    };
    assert_eq!(refused(both), "Cannot specify both --instead and --verdict");
    let single = FeedbackArguments { verdict: text("Not-Useful"), ..skill.clone() };
    let version = FeedbackArguments { expected_version: text("x"), ..single.clone() };
    assert_eq!(refused(version), "Invalid expected version number");
    let odd = FeedbackArguments { verdict: text("meh"), ..skill.clone() };
    assert_eq!(
        refused(odd),
        "Invalid verdict 'meh'; expected 'useful', 'not-useful' (or 'harmful'), or 'unknown' (or 'neutral')"
    );
    let request = plan_feedback(FeedbackArguments {
        expected_version: text("7"),
        event_id: text("first"),
        ..single
    })
    .unwrap();
    // The positional event goes before the flag.
    assert_eq!(request.event_id, "first");
    assert_eq!(request.expected_version, Some(7));
    assert_eq!(request.subject, FeedbackSubject::Single { verdict: JudgmentLabel::Harmful });
    let paired = plan_feedback(FeedbackArguments { instead: text("t"), ..skill }).unwrap();
    assert_eq!(
        paired.subject,
        FeedbackSubject::Paired { alternative_skill_id: "t".to_owned() }
    );
    assert_eq!(parse_verdict("unknown"), Some(JudgmentLabel::Neutral));
    assert_eq!(parse_verdict("harmful"), Some(JudgmentLabel::Harmful));
    assert_eq!(parse_verdict(""), None);
}

#[test]
fn refused_feedback_says_why() {
    let categories = || FeedbackCategories {
        incomplete_roster: ErrorCategory { code: 5, name: "incomplete-roster" },
        revision_conflict: ErrorCategory { code: 9, name: "revision-conflict" },
    };
    let said = |error: FeedbackError| feedback_failure(error, categories());
    assert_eq!(said(FeedbackError::MissingSnapshot).1, "incomplete-roster");
    assert_eq!(
        said(FeedbackError::IneligibleAlternative { skill_id: "s".to_owned(), reason: None }),
        (2, "ineligible-alternative", "Alternative skill 's' is ineligible: ineligible".to_owned())
    );
    assert_eq!(
        said(FeedbackError::RevisionConflict { expected: 3, actual: 4 }),
        (
            9,
            "revision-conflict",
            "Ledger revision conflict: expected 3, actual 4".to_owned()
        )
    );
    assert_eq!(
        said(FeedbackError::IdenticalSkills).2,
        "Original and alternative skill IDs must be distinct"
    );
    assert_eq!(said(FeedbackError::InvalidSkillId("x".to_owned())).2, "Invalid skill ID: x");
    assert_eq!(
        said(FeedbackError::OriginalSkillNotFound("x".to_owned())).1,
        "skill-not-found"
    );
    assert_eq!(
        said(FeedbackError::EventNotFound("x".to_owned())).2,
        "Ranking event 'x' not found in ledger"
    );
    assert_eq!(said(FeedbackError::StaleStamp).2, "Ledger stamp is stale");
    assert_eq!(
        said(FeedbackError::Store("full".to_owned())),
        (9, "storage-failure", "Ledger storage error: full".to_owned())
    );
}

#[test]
fn recorded_feedback_is_put_in_words() {
    let paired = FeedbackOutcome::PairedCorrection {
        group_id: "g".to_owned(),
        data_generation: 4,
        original_judgment_id: "j1".to_owned(),
        alternative_judgment_id: "j2".to_owned(),
        alternative_skill_id: "t".to_owned(),
    };
    assert_eq!(
        render_feedback(&paired, "s"),
        "Recorded paired correction (group: g, data generation: 4)\n  Original 's' judged harmful (j1)\n  Alternative 't' judged useful (j2)\n"
    );
    let proposal = FeedbackOutcome::ProspectiveProposal {
        proposal_id: "p".to_owned(),
        alternative_skill_id: "t".to_owned(),
        reason: "absent".to_owned(),
    };
    assert_eq!(
        render_feedback(&proposal, "s"),
        "Alternative 't' was historically absent from roster snapshot (absent).\nRecorded prospective library proposal: p\nNo historical usefulness judgments committed.\n"
    );
    let single = FeedbackOutcome::SingleJudgment {
        judgment_id: "j".to_owned(),
        verdict: JudgmentLabel::Neutral,
        data_generation: 5,
    };
    assert_eq!(
        render_feedback(&single, "s"),
        "Recorded feedback for 's': Neutral (j, data generation: 5)\n"
    );
}

fn no_source() -> ObserveArguments {
    ObserveArguments {
        context: None,
        transcript: None,
        harness: None,
        session: None,
        no_ledger: false,
        no_persist: false,
    }
}

#[test]
fn an_observation_needs_a_source_and_the_ledger() {
    let refused = |args: ObserveArguments| observe_source(args).unwrap_err().2;
    assert!(refused(ObserveArguments { no_ledger: true, ..no_source() })
        .starts_with("sr observe requires ledger persistence"));
    assert!(refused(no_source()).starts_with("sr observe requires an explicit source"));
    assert!(observe_source(ObserveArguments { transcript: text("f"), ..no_source() }).is_err());
    let all = ObserveArguments {
        context: text("c"),
        transcript: text("f"),
        harness: text("h"),
        session: text("s"),
        ..no_source()
    };
    assert_eq!(observe_source(all.clone()), Ok(ObserveSource::Context("c".to_owned())));
    assert_eq!(
        observe_source(ObserveArguments { context: None, ..all.clone() }),
        Ok(ObserveSource::Transcript { file: "f".to_owned(), harness: "h".to_owned() })
    );
    assert_eq!(
        observe_source(ObserveArguments { context: None, harness: None, ..all }),
        Ok(ObserveSource::Session)
    );
    assert!(bounded_context(10, 10).is_ok());
    assert_eq!(bounded_context(11, 10).unwrap_err().1, "oversized-input");
    assert_eq!(supported_harness("x", false).unwrap_err().1, "invalid-arguments");
    assert_eq!(supported_harness("other", true).unwrap_err().1, "invalid-usage");
    assert_eq!(undurable_session().0, 3);
    assert_eq!(durable_session(text("s")), Ok("s".to_owned()));
    assert_eq!(durable_session(None).unwrap_err().1, "missing-session");
}

#[test]
fn sessions_and_branches_keep_their_namespaces() {
    assert_eq!(observed_branch(text("b"), text("a")), "b");
    assert_eq!(observed_branch(None, text("a")), "a");
    assert_eq!(observed_branch(None, None), "main");
    assert_eq!(cursor_session_id(Some("h"), Some("p"), "s"), "native:h:s");
    assert_eq!(cursor_session_id(None, Some("p"), "s"), "producer:p:s");
    assert_eq!(cursor_session_id(None, None, "s"), "s");
}

#[test]
fn an_observation_is_known_by_its_whole_key() {
    let scope = |branch: &str| ObservationScope {
        native: true,
        workspace_root: "/w".to_owned(),
        session_id: "s".to_owned(),
        agent_branch: branch.to_owned(),
        now_ms: 5,
    };
    let load = |state: LoadState| LoadObservation {
        state,
        event_id: None,
        skill_id: "k".to_owned(),
    };
    let loads = vec![
        load(LoadState::ObservedLoaded),
        load(LoadState::NotObserved),
        load(LoadState::Attempted),
        load(LoadState::Unobservable),
        load(LoadState::Censored),
    ];
    let recorded = observations(&scope("main"), &loads);
    let states: Vec<EvidenceState> = recorded.iter().map(|o| o.evidence_state).collect();
    assert_eq!(
        states,
        [
            EvidenceState::Loaded,
            EvidenceState::Censored,
            EvidenceState::Attempted,
            EvidenceState::Censored,
            EvidenceState::Censored,
        ]
    );
    assert_eq!(recorded[0].source_event_key, "native:s:main:event-0:k");
    assert_eq!(recorded[0].observation_id, "obs-native:s:main:event-0:k");
    // Another branch is another observation.
    let other = observations(&scope("side"), &loads);
    assert!(other[0].observation_id != recorded[0].observation_id);
    // Even where its name holds the separator, for one load.
    let nested = observations(&scope("main:event-0"), &loads);
    assert!(nested[0].observation_id != recorded[0].observation_id);
    assert!(nested[0].source_event_key != recorded[0].source_event_key);
    // Different loads of branches without one never share a key.
    let named = LoadObservation { event_id: text("a:b"), ..load(LoadState::Attempted) };
    let apart = observations(&scope("side"), &vec![named]);
    assert!(recorded.iter().all(|o| o.source_event_key != apart[0].source_event_key));
}

#[test]
fn a_pass_ends_at_its_last_event() {
    let event = |user_message: bool, id: Option<&str>| SessionEvent {
        user_message,
        event_id: id.map(str::to_owned),
    };
    let events =
        vec![event(true, Some("e1")), event(false, Some("e2")), event(false, None)];
    assert_eq!(current_request(&events), Some(0));
    assert_eq!(current_request(&vec![event(false, Some("x"))]), None);
    assert_eq!(last_event_id(&events), "e2");
    assert_eq!(last_event_id(&Vec::new()), "event-0");
    assert_eq!(cursor_generations(None), Some((0, 1)));
    assert_eq!(cursor_generations(Some(4)), Some((4, 5)));
    assert_eq!(cursor_generations(Some(u64::MAX)), None);
    let summary = ObservationSummary {
        workspace_root: "/w".to_owned(),
        session_id: "s".to_owned(),
        agent_branch: "main".to_owned(),
        recorded: 2,
        generation: 3,
        last_event_id: "e2".to_owned(),
        unread_backlog: true,
    };
    assert_eq!(
        render_summary(&summary, false),
        "Recorded 2 observation(s) for session s on branch main (generation 3); input continues past this pass, run observe again to reach it\n"
    );
    let document = summary_document(&summary);
    assert_eq!(document["observations_recorded"], 2);
    assert_eq!(document["unread_backlog"], true);
    assert_eq!(render_summary(&summary, true), format!("{document}\n"));
}

#[test]
fn observing_fails_in_its_own_words() {
    assert_eq!(roster_failure(&RosterFault::Deadline, true).0, 6);
    assert_eq!(roster_failure(&RosterFault::Cancelled, false).1, "timeout");
    assert_eq!(
        roster_failure(&RosterFault::Other("x".to_owned()), true),
        (7, "malformed-input", "Failed to import roster: x".to_owned())
    );
    assert_eq!(
        roster_failure(&RosterFault::Other("x".to_owned()), false),
        (5, "unusable-roster", "Failed to resolve roster: x".to_owned())
    );
    let fault = |kind: StoreKind| StoreFault { kind, text: "t".to_owned() };
    assert_eq!(
        cursor_failure(&fault(StoreKind::Other)).2,
        "Failed to read session cursor: t"
    );
    let conflict = ErrorCategory { code: 9, name: "revision-conflict" };
    assert_eq!(
        record_failure(&fault(StoreKind::RecordConflict), conflict),
        (
            9,
            "revision-conflict",
            "Concurrent transcript observation or cursor conflict".to_owned()
        )
    );
    assert_eq!(
        record_failure(&fault(StoreKind::Other), conflict).2,
        "Failed to record observations: t"
    );
    assert_eq!(
        stats_failure(&fault(StoreKind::Other)).2,
        "Failed to compute stats report: t"
    );
}

#[test]
fn ledger_commands_are_chosen_by_name() {
    assert_eq!(ledger_action(Some("init"), false, false), Ok(LedgerAction::Init));
    assert_eq!(
        ledger_action(Some("prune"), false, true),
        Ok(LedgerAction::Prune { apply: true })
    );
    assert_eq!(ledger_action(Some("clear"), true, true), Ok(LedgerAction::Help));
    assert_eq!(
        ledger_action(None, false, false).unwrap_err().2,
        "Missing ledger subcommand (init, migrate, status); see sr --help"
    );
    assert_eq!(
        ledger_action(Some("odd"), false, false).unwrap_err().2,
        "Unknown ledger subcommand: odd"
    );
}

#[test]
fn only_a_ready_ledger_is_changed() {
    for action in [
        LedgerAction::Migrate { apply: true },
        LedgerAction::Prune { apply: true },
        LedgerAction::Clear { apply: true },
    ] {
        assert!(opened_for(action, &LedgerOpening::Ready).is_ok());
        for opening in [
            LedgerOpening::ReadOnly,
            LedgerOpening::Missing,
            LedgerOpening::Disabled,
            LedgerOpening::Failed("x".to_owned()),
        ] {
            assert_eq!(opened_for(action, &opening).unwrap_err().0, 9);
        }
    }
    assert!(opened_for(LedgerAction::Prune { apply: false }, &LedgerOpening::ReadOnly).is_ok());
    assert_eq!(
        opened_for(
            LedgerAction::Prune { apply: false },
            &LedgerOpening::Failed("x".to_owned())
        )
        .unwrap_err()
        .2,
        "Failed to open ledger for prune preview: x"
    );
    assert_eq!(
        action_failure(LedgerAction::Clear { apply: true }, "x"),
        (9, "storage-failure", "Failed to clear ledger: x".to_owned())
    );
}

#[test]
fn a_retention_cutoff_is_a_point_in_history() {
    assert_eq!(prune_cutoff(Some(1_000), None, 400), Ok(600));
    assert_eq!(prune_cutoff(Some(1_000), Some(Ok(7)), 400), Ok(7));
    assert_eq!(prune_cutoff(Some(i64::MIN), None, 400), Ok(i64::MIN));
    assert_eq!(
        prune_cutoff(None, Some(Ok(7)), 400).unwrap_err().2,
        "The system clock is outside the representable range"
    );
    assert_eq!(
        prune_cutoff(Some(0), Some(Err("bad date".to_owned())), 1).unwrap_err(),
        (2, "invalid-arguments", "bad date".to_owned())
    );
}

#[test]
fn maintenance_is_put_in_words() {
    let init = |created: bool| InitReport {
        created,
        path: "/l".to_owned(),
        schema_version: 3,
        incarnation: "i".to_owned(),
    };
    assert_eq!(
        render_init(&init(true)),
        "Initialized new ledger at /l (schema version 3, incarnation i)\n"
    );
    assert_eq!(
        render_init(&init(false)),
        "Ledger at /l is already current (schema version 3, incarnation i)\n"
    );
    assert_eq!(
        render_migration(&MigrationReport {
            from_version: 1,
            to_version: 3,
            backup_path: "/b".to_owned(),
            backup_bytes: 12,
            applied_migrations: vec!["two".to_owned(), "three".to_owned()],
        }),
        "Successfully migrated ledger from version 1 to 3.\nBackup saved to /b (12 bytes).\nApplied migrations: two, three\n"
    );
    let preview = |pending_migrations: Vec<PendingMigration>| MigrationPreview {
        current_version: 1,
        target_version: 2,
        required_headroom_bytes: 9,
        pending_migrations,
    };
    assert_eq!(
        render_preview(&preview(Vec::new())),
        "Migration preview: current version 1, target version 2.\nRequired headroom: 9 bytes.\nSchema is already up to date. No pending migrations.\n"
    );
    assert_eq!(
        render_preview(&preview(vec![PendingMigration {
            version: 2,
            name: "two".to_owned(),
            checksum: "c".to_owned(),
            description: "adds".to_owned(),
        }])),
        "Migration preview: current version 1, target version 2.\nRequired headroom: 9 bytes.\nPending migrations:\n  - v2: two (checksum: c)\n    adds\n"
    );
    assert_eq!(
        render_status(&StatusReport {
            status: "ready".to_owned(),
            path: "/l".to_owned(),
            schema_version: None,
            target_version: 3,
            read_only: false,
            upgrade_available: Some(true),
        }),
        "Ledger Status: ready\nPath: /l\nSchema Version: none\nTarget Version: 3\nRead Only: false\nUpgrade Available: true\n"
    );
    let counts = PruneCounts {
        cutoff_iso: "1970".to_owned(),
        cutoff_unix_ms: -5,
        events: 1,
        candidates: 2,
        observations: 3,
        judgments: 4,
        provider_attempts: 5,
        snapshots: 6,
        shared_snapshots_preserved: 7,
    };
    assert_eq!(
        render_pruned(&counts, 8),
        "Pruned historical records before 1970 (cutoff -5):\n  Events pruned: 1\n  Candidates pruned: 2\n  Observations pruned: 3\n  Judgments pruned: 4\n  Provider attempts pruned: 5\n  Snapshots pruned: 6\n  Shared snapshots preserved: 7\n  New data generation: 8\n"
    );
    assert!(render_prune_preview(&counts)
        .ends_with("\nPass --apply to execute this retention cleanup.\n"));
    assert_eq!(
        render_cleared(11, 2),
        "Cleared all historical records (11 total records removed).\nNew data generation: 2\n"
    );
    let all = ClearCounts {
        total_records: 9,
        events: 1,
        candidates: 1,
        observations: 1,
        judgments: 1,
        provider_attempts: 1,
        snapshots: 1,
        session_cursors: 1,
        feedback_proposals: 1,
        calibrations: 1,
    };
    assert!(render_clear_preview(&all)
        .starts_with("Clear preview (entire history):\n  Total records to clear: 9\n  Events: 1\n"));
}

fn stats() -> StatsReport {
    StatsReport {
        since: "1970-01-01".to_owned(),
        as_of: "1970-01-02".to_owned(),
        turns: TurnStats {
            total_evaluated: 10,
            emitted_suggestions: 4,
            valid_abstentions: 3,
            muted_or_suppressed: 1,
            operational_failures: 1,
            explicit_requirements: 0,
            in_flight_or_killed: 1,
            failure_causes: vec![FailureCause { reason: "timeout".to_owned(), count: 1 }],
            by_channel: vec![ChannelStats {
                channel: "hook".to_owned(),
                evaluated_turns: 10,
                emitted: 4,
                abstain: 3,
                muted: 1,
                unavailable: 1,
                in_flight_or_killed: 1,
            }],
        },
        hook_entries: Some(HookEntryStats {
            counted_since: "a".to_owned(),
            counted_until: "b".to_owned(),
            counted_at_entry: 12,
            recorded: 10,
            non_turn_deliveries: 1,
            unrecorded: 1,
            counter_full: true,
        }),
        latency: LatencyStats {
            mean_ms: 5,
            median_ms: 4,
            p95_ms: 9,
            min_ms: 1,
            max_ms: 10,
            excluded_unfinished: 1,
        },
        observations: ObservationStats {
            total_observations: 3,
            observed_loads: 1,
            attempted_loads: 1,
            censored_observations: 1,
            attributed_loads: 1,
            unattributed_loads: 0,
            observation_coverage: None,
            suggestion_adoption_rate: text("25.0%"),
            caveat: "loads are not usefulness".to_owned(),
        },
        judgments: JudgmentStats {
            total_judgments: 2,
            useful: 1,
            harmful: 1,
            neutral: 0,
            distinct_judged_events: 2,
            label_coverage_rate: None,
            useful_ratio_in_judged: None,
        },
        provider: ProviderStats {
            total_attempts: 8,
            completed_attempts: 6,
            failed_attempts: 1,
            unknown_attempts: 1,
            known_total_tokens: 30,
            known_input_tokens: 20,
            known_output_tokens: 10,
            unknown_usage_attempts: 1,
            cache_served_events: 0,
            cache_hit_rate: None,
            cost_per_useful_suggestion: "unknown".to_owned(),
            judged_cohort_unknown_usage_attempts: 1,
            judged_turns_served_from_cache: 2,
        },
        by_skill: Some(vec![SkillStats {
            skill_id: "rust-test-triage".to_owned(),
            top1_recommendations: 4,
            shortlist_appearances: 6,
            observed_loads: 1,
            attributed_loads: 1,
            judged_useful: 1,
            judged_harmful: 1,
            judged_neutral: 0,
        }]),
    }
}

#[test]
fn a_stats_report_says_what_its_figures_leave_out() {
    let out = format_stats_report(&stats());
    for line in [
        "Mean: 5 ms | Median: 4 ms | P95: 9 ms | Range: 1 .. 10 ms\n",
        "Excluded 1 unfinished turn(s) with no measured duration.\n",
        "Hook invocations counted at entry (a to b):\n  counted: 12, recorded: 10, task notifications (not user turns): 1, left no row: 1 (upper bound on sr failures) (counter full: lower bounds)\n",
        "  [hook] evaluated: 10, emitted: 4, abstain: 3, muted: 1, unavailable: 1, unfinished: 1\n",
        "Note: loads are not usefulness\n",
        "Total attempts:           8 (completed: 6, failed: 1, unknown: 1)\n",
        "Known tokens:             30 (input: 20, output: 10)\n",
        "  a lower bound: 1 judged attempt(s) reported no usage\n",
        "  of the judged turns, 2 reused a response paid for elsewhere\n",
        "Skill ID                  Top-1  Shortlist  Obs Loads Attr Loads  Useful  Harmful  Neutral\n",
        "rust-test-triage              4          6          1          1       1        1        0\n",
    ] {
        assert!(out.contains(line), "{line}\n{out}");
    }
    let mut quiet = stats();
    quiet.latency.excluded_unfinished = 0;
    quiet.by_skill = Some(Vec::new());
    quiet.hook_entries = None;
    let out = format_stats_report(&quiet);
    assert!(!out.contains("Excluded") && !out.contains("counted at entry"));
    assert!(out.ends_with("No skill activity recorded in window.\n"));
    assert_eq!(window_start(None), Ok(0));
    assert_eq!(window_start(Some(Ok(9))), Ok(9));
    assert_eq!(window_start(Some(Err("x".to_owned()))).unwrap_err().1, "invalid-arguments");
    assert_eq!(report_time(Some(4)), Ok(4));
    assert_eq!(
        report_time(None).unwrap_err().2,
        "System clock cannot represent a Unix timestamp"
    );
}
