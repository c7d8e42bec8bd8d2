//! Configuration layers, the doctor and the roster.

use serde_json::Value;
use skillranker::cli::config::{
    admit_layer, decode_config, decode_layer, environment_sources, read_config, resolved_in_time,
    snapshot_environment, user_cache_root, ConfigFiles, ConfigLimits, ConfigSources, EnvPath, LayerFile, LayerRead,
    LayerTiming, RawValue, UserRoot,
};
use skillranker::cli::doctor::{
    config_report, invalid_endpoint, ledger_check, prepare_doctor, render_config,
    render_readiness, report_value, roster_check, EffectiveConfig, LedgerCheck, LedgerProbe,
    RosterCheck, SettingKey, SettingOrigin,
};
use skillranker::cli::failure::ErrorCategory;
use skillranker::cli::rank::Surroundings;
use skillranker::cli::roster::{
    export_failure, export_receipt, listing_action, page_failure, page_limit, prepare_listing,
    snapshot_failure, unqualified_export, workspace_failure, ExportError, ListingAction,
    PageError, SnapshotError, WorkspaceFault,
};
use skillranker::score::Score;

const LIMITS: ConfigLimits =
    ConfigLimits { file_bytes: 200, key_bytes: 40, list_items: 2, layer_entries: 4 };

fn score(x: f64) -> Score {
    Score { bits: x.to_bits() }
}

fn decode(text: &str) -> Option<Vec<(String, RawValue)>> {
    decode_config(text, LIMITS)
}

#[test]
fn a_configuration_is_flattened_to_dotted_settings() {
    let text = "[ranking]\ntop = 3\ngate = 0.25\n[context]\nno_tools = true\n[roster]\nroots = [\"/a\", \"/b\"]\n";
    assert_eq!(
        decode(text).unwrap(),
        [
            ("context.no_tools".to_owned(), RawValue::Bool(true)),
            ("ranking.gate".to_owned(), RawValue::Float(score(0.25))),
            ("ranking.top".to_owned(), RawValue::Integer(3)),
            (
                "roster.roots".to_owned(),
                RawValue::TextList(vec!["/a".to_owned(), "/b".to_owned()])
            ),
        ]
    );
    assert_eq!(decode("").unwrap(), []);
    assert_eq!(
        decode("name = \"x\"").unwrap(),
        [("name".to_owned(), RawValue::Text("x".to_owned()))]
    );
}

#[test]
fn malformed_or_excessive_configurations_are_refused() {
    // Duplicate keys, dotted names, empty tables, dates and mixed lists.
    for text in [
        "a = 1\na = 2",
        "\"a.b\" = 1",
        "[empty]",
        "day = 2020-01-01",
        "list = [1]",
        "list = [\"a\", \"b\", \"c\"]",
        "not toml",
    ] {
        assert_eq!(decode(text), None, "{text}");
    }
    assert_eq!(decode("a=1\nb=1\nc=1\nd=1").unwrap().len(), 4);
    assert_eq!(decode("a=1\nb=1\nc=1\nd=1\ne=1"), None);
    assert_eq!(decode(&format!("a = \"{}\"", "x".repeat(200))), None);
    assert_eq!(decode(&format!("{} = 1", "k".repeat(41))), None);
    let deep = |n: usize| -> String {
        let names: Vec<&str> = vec!["t"; n];
        format!("[{}]\nx = 1", names.join("."))
    };
    let roomy = ConfigLimits { key_bytes: 4_000, file_bytes: 4_000, ..LIMITS };
    assert!(decode_config(&deep(32), roomy).is_some());
    assert!(decode_config(&deep(33), roomy).is_none());
}

fn file(read: LayerRead) -> LayerFile {
    LayerFile {
        read,
        timing: LayerTiming { before: true, after_read: true, after_decode: true },
    }
}

#[test]
fn a_layer_says_why_it_is_refused() {
    let refused = |file: LayerFile| read_config("project", file, LIMITS).unwrap_err().2;
    assert_eq!(read_config("project", file(LayerRead::Absent), LIMITS), Ok(Vec::new()));
    assert_eq!(
        refused(file(LayerRead::RootUnavailable)),
        "project: configuration root unavailable"
    );
    assert_eq!(
        refused(file(LayerRead::Unreadable)),
        "project: configuration must be a bounded authorized regular file"
    );
    assert_eq!(
        refused(file(LayerRead::Bytes(vec![0xff]))),
        "project: invalid UTF-8 configuration"
    );
    assert_eq!(
        refused(file(LayerRead::Bytes(b"oops".to_vec()))),
        "project: malformed or excessive configuration"
    );
    for timing in [
        LayerTiming { before: false, after_read: true, after_decode: true },
        LayerTiming { before: true, after_read: false, after_decode: true },
        LayerTiming { before: true, after_read: true, after_decode: false },
    ] {
        let late = LayerFile { read: LayerRead::Bytes(b"a = 1".to_vec()), timing };
        assert_eq!(refused(late), "Local inspection deadline exceeded");
    }
    assert_eq!(
        read_config("project", file(LayerRead::Bytes(b"a = 1".to_vec())), LIMITS),
        Ok(vec![("a".to_owned(), RawValue::Integer(1))])
    );
}

#[test]
fn files_fill_their_layers_and_keep_the_others() {
    let files = ConfigFiles::new("/w".to_owned(), Some("/u".to_owned()));
    let user = || file(LayerRead::Bytes(b"a = 1".to_vec()));
    let project = || file(LayerRead::Bytes(b"b = 2".to_vec()));
    let mut sources = ConfigSources::empty();
    sources.cli = vec![("c".to_owned(), RawValue::Bool(true))];
    let loaded = files.load(sources.clone(), user(), project(), LIMITS).unwrap();
    assert_eq!(loaded.cli, sources.cli);
    assert_eq!(loaded.trusted_user, [("a".to_owned(), RawValue::Integer(1))]);
    assert_eq!(loaded.project, [("b".to_owned(), RawValue::Integer(2))]);
    // Without a user root the user's file is not read at all.
    let rootless = ConfigFiles::new("/w".to_owned(), None);
    let bad = || file(LayerRead::Unreadable);
    let loaded = rootless.load(sources.clone(), bad(), project(), LIMITS).unwrap();
    assert!(loaded.trusted_user.is_empty());
    // The user's refusal stands before the project's.
    let refused = files.load(sources, bad(), file(LayerRead::RootUnavailable), LIMITS);
    assert!(refused.unwrap_err().2.starts_with("trusted-user: "));
    let refreshed = files.refresh(7, user(), project(), LIMITS).unwrap();
    assert_eq!(refreshed.generation, 8);
    assert_eq!(
        files.refresh(u64::MAX, user(), project(), LIMITS).unwrap_err().2,
        "Configuration generation exhausted"
    );
    assert_eq!(resolved_in_time(Some("odd key"), true).unwrap_err().2, "odd key");
    assert_eq!(resolved_in_time(None, false).unwrap_err().0, 6);
    assert!(resolved_in_time(None, true).is_ok());
}

#[test]
fn only_recognized_variables_are_read() {
    let variables = || {
        vec![
            (b"SR_A".to_vec(), b"1".to_vec()),
            (b"XSR_B".to_vec(), b"2".to_vec()),
            (b"TYPESAFE_ENDPOINT".to_vec(), b"3".to_vec()),
            (b"TYPESAFE_ENDPOINTS".to_vec(), b"4".to_vec()),
            (b"SR_".to_vec(), b"5".to_vec()),
        ]
    };
    let (kept, whole) = snapshot_environment(variables(), 3);
    assert!(whole);
    let names: Vec<&[u8]> = kept.iter().map(|v| v.0.as_slice()).collect();
    assert_eq!(names, [&b"SR_A"[..], b"TYPESAFE_ENDPOINT", b"SR_"]);
    let (kept, whole) = snapshot_environment(variables(), 2);
    assert!(!whole);
    assert_eq!(kept.len(), 2);
    assert_eq!(
        environment_sources(variables(), 2).unwrap_err().2,
        "Too many environment settings"
    );
    assert_eq!(user_cache_root(EnvPath::Unset, true), Ok(UserRoot::Home));
    assert_eq!(user_cache_root(EnvPath::Unset, false), Ok(UserRoot::Nowhere));
}

fn around() -> Surroundings {
    Surroundings {
        admits_work: true,
        flag_conflict: None,
        settings: Vec::new(),
        variables: Vec::new(),
        max_variables: 8,
        has_workspace: true,
        xdg_config: EnvPath::Absolute,
        home: EnvPath::Unset,
        xdg_cache: EnvPath::Unset,
        platform_cache: true,
    }
}

#[test]
fn the_doctor_reads_its_flags_before_the_clock() {
    let (sources, root) = prepare_doctor(around()).unwrap();
    assert!(sources.cli.is_empty());
    assert_eq!(root, UserRoot::Xdg);
    let clash = Surroundings {
        admits_work: false,
        flag_conflict: Some("offline and network".to_owned()),
        ..around()
    };
    assert_eq!(prepare_doctor(clash).unwrap_err().2, "offline and network");
    let late = Surroundings { admits_work: false, has_workspace: false, ..around() };
    assert_eq!(prepare_doctor(late).unwrap_err().0, 6);
}

#[test]
fn checks_tell_a_timeout_from_a_broken_roster() {
    assert_eq!(roster_check(&Ok(())), RosterCheck::Resolved);
    assert_eq!(roster_check(&Err((6, "timeout", String::new()))), RosterCheck::Timeout);
    assert_eq!(
        roster_check(&Err((5, "unusable-roster", String::new()))),
        RosterCheck::Unusable
    );
    assert_eq!(
        ledger_check(LedgerProbe::Ready(Some(3))),
        LedgerCheck::Ready { cleanup_debt: Some(3) }
    );
    assert_eq!(
        ledger_check(LedgerProbe::ReadOnly(None)),
        LedgerCheck::ReadOnly { cleanup_debt: None }
    );
    for probe in [LedgerProbe::Missing, LedgerProbe::Disabled, LedgerProbe::Failed] {
        assert_eq!(ledger_check(probe), LedgerCheck::NotAvailable);
    }
    assert_eq!(invalid_endpoint().2, "The endpoint override is not a valid origin");
}

#[test]
fn readiness_is_a_table_in_the_order_of_its_checks() {
    let report: Value = serde_json::from_str(
        r#"{"checks":{"roster":{"state":"ready"},"network":{"mode":"offline","next_step":"allow it"},"zz":{}}}"#,
    )
    .unwrap();
    assert_eq!(
        render_readiness(&report, false),
        "CHECK\tSTATE\tNEXT STEP\nnetwork\toffline\tallow it\nroster\tready\t-\nzz\t-\t-\n"
    );
    assert_eq!(render_readiness(&report, true), format!("{report}\n"));
}

fn effective() -> EffectiveConfig {
    EffectiveConfig {
        top: 3,
        shortlist: 8,
        gate: Value::from(0.3),
        fits: Value::from(0.5),
        w_fit: Value::from(1.0),
        w_prior: Value::from(0.0),
        w_phase: Value::from(0.0),
        timeout_ms: 3_000,
        messages: 12,
        budget_chars: 4_000,
        context_profile: "recent".to_owned(),
        no_tools: false,
        hook_mode: "shadow".to_owned(),
        notification_turns: "skip".to_owned(),
        has_credential: true,
        has_endpoint: false,
        redacted_model: None,
        transcript_roots: 1,
        roster_roots: 2,
        exclude_skills: 0,
        network_enabled: false,
        policy_fingerprint: "fp".to_owned(),
    }
}

fn origin(key: SettingKey, path: &str) -> SettingOrigin {
    SettingOrigin { key, path: path.to_owned(), sources: vec!["default".to_owned()] }
}

#[test]
fn the_report_shows_settings_and_hides_secrets() {
    let origins = vec![
        origin(SettingKey::TypesafeApiKey, "typesafe.api_key"),
        origin(SettingKey::RankingGate, "ranking.gate"),
        origin(SettingKey::PrivacyRedaction, "privacy.redaction"),
    ];
    let report = config_report(&origins, &effective());
    assert_eq!(report["schema_version"], 1);
    assert_eq!(report["command"], "doctor-config");
    assert_eq!(report["scope"], "local-configuration-only");
    assert_eq!(report["policy_fingerprint"], "fp");
    assert_eq!(report["settings"]["typesafe.api_key"]["value"]["present"], true);
    assert!(report["settings"].get("privacy.redaction").is_none());
    assert_eq!(
        render_config(&origins, &effective(), false),
        "SETTING\tVALUE\tSOURCE\nranking.gate\t0.3\t[\"default\"]\ntypesafe.api_key\t{\"present\":true}\t[\"default\"]\n"
    );
    assert_eq!(render_config(&origins, &effective(), true), format!("{report}\n"));
    let shown = |key: SettingKey| report_value(key, &effective()).map(|v| v.to_string());
    assert_eq!(shown(SettingKey::ProviderModel).as_deref(), Some("\"[private]\""));
    assert_eq!(
        shown(SettingKey::TypesafeEndpoint).as_deref(),
        Some("{\"override_present\":false}")
    );
    assert_eq!(shown(SettingKey::RosterRoots).as_deref(), Some("{\"count\":2}"));
    assert_eq!(shown(SettingKey::ContextMessages).as_deref(), Some("12"));
    assert_eq!(shown(SettingKey::NetworkEnabled).as_deref(), Some("false"));
    assert_eq!(shown(SettingKey::NetworkProxy), None);
    assert_eq!(shown(SettingKey::PrivacyRawRetention), None);
}

#[test]
fn a_listing_is_bounded_and_says_what_is_wrong() {
    assert_eq!(page_limit(None, 128), Ok(128));
    assert_eq!(page_limit(Some("5"), 128), Ok(5));
    assert_eq!(
        page_limit(Some("five"), 128).unwrap_err().2,
        "--limit must be a whole number from 1 to 128"
    );
    let (entries, sources, root) = prepare_listing(Some("9"), 128, around()).unwrap();
    assert_eq!((entries, root), (9, UserRoot::Xdg));
    assert!(sources.environment.is_empty());
    let nowhere = Surroundings { has_workspace: false, ..around() };
    assert_eq!(
        prepare_listing(None, 128, nowhere).unwrap_err(),
        (5, "unusable-roster", "The workspace directory is unavailable".to_owned())
    );
    let text = |s: &str| Some(s.to_owned());
    assert_eq!(listing_action(text("s"), text("d")), ListingAction::Snapshot("s".to_owned()));
    assert_eq!(listing_action(None, text("d")), ListingAction::Compare("d".to_owned()));
    assert_eq!(listing_action(None, None), ListingAction::Page);
    assert_eq!(page_failure(PageError::RosterChanged).0, 5);
    assert_eq!(
        page_failure(PageError::InvalidCursor).2,
        "Unrecognized --cursor; restart without it"
    );
    assert_eq!(page_failure(PageError::InvalidLimit).1, "invalid-usage");
    assert_eq!(
        workspace_failure(WorkspaceFault::Deadline),
        (6, "timeout", "Local inspection deadline exceeded".to_owned())
    );
    for (fault, message) in [
        (WorkspaceFault::Plan, "The documented skill roots could not be planned"),
        (WorkspaceFault::Runtime, "The local runtime is unavailable"),
        (WorkspaceFault::Resolution, "The roster could not be resolved"),
    ] {
        assert_eq!(workspace_failure(fault), (5, "unusable-roster", message.to_owned()));
    }
}

#[test]
fn snapshots_fail_under_their_category() {
    let category = ErrorCategory { code: 7, name: "malformed-input" };
    for (error, message) in [
        (SnapshotError::Malformed, "The saved snapshot is malformed or has unknown fields"),
        (SnapshotError::TooLarge, "The saved snapshot exceeds 32 MiB"),
        (SnapshotError::TooManyRecords, "The snapshot exceeds 10,000 records"),
        (SnapshotError::Unreadable, "The saved snapshot is not a readable regular file"),
        (
            SnapshotError::Incompatible,
            "The saved snapshot belongs to a different schema, harness or workspace",
        ),
    ] {
        assert_eq!(
            snapshot_failure(error, category),
            (7, "malformed-input", message.to_owned())
        );
    }
    for (error, start) in [
        (ExportError::TargetAlreadyExists, "The snapshot target already exists"),
        (ExportError::Oversized, "The snapshot exceeds 32 MiB"),
        (ExportError::InvalidDirectory, "The snapshot directory is missing"),
        (ExportError::Permissions, "The snapshot directory is missing"),
        (ExportError::Io, "The snapshot could not be written"),
        (ExportError::Durability, "The snapshot was published, but durability"),
    ] {
        assert!(export_failure(error, category).2.starts_with(start));
    }
    assert_eq!(unqualified_export().0, 9);
    let receipt = export_receipt("schema.v1", 12, "digest", true);
    assert_eq!(
        receipt.to_string(),
        r#"{"exported":true,"partial":true,"records":12,"schema":"schema.v1","snapshot":"digest"}"#
    );
}

#[test]
fn a_layer_is_decoded_and_then_admitted() {
    let decode = |read: LayerRead| decode_layer("project", read, true, true, LIMITS);
    let decoded = decode(LayerRead::Bytes(b"a = 1".to_vec())).unwrap().unwrap();
    assert_eq!(admit_layer(Some(decoded.clone()), true), Ok(decoded.clone()));
    assert_eq!(admit_layer(Some(decoded), false).unwrap_err().1, "timeout");
    // A layer without a file is not held to the time after decoding.
    assert_eq!(decode(LayerRead::Absent), Ok(None));
    assert_eq!(admit_layer(None, false), Ok(Vec::new()));
    assert_eq!(
        decode(LayerRead::Bytes(vec![0xff])).unwrap_err().2,
        "project: invalid UTF-8 configuration"
    );
    let late = decode_layer("project", LayerRead::Absent, false, true, LIMITS);
    assert_eq!(late.unwrap_err().1, "timeout");
}
