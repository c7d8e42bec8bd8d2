//! The doctor: local readiness checks and the report on configuration.

use crate::cli::config::{cli_layer, cli_sources, recognized_variable, setting_views};
use crate::cli::config::{
    config_root_of, environment_sources, user_config_root, ConfigSources, UserRoot,
};
use crate::cli::failure::{
    answers, failure_view, invalid, late_refusal, refuses, timely, Failure,
};
use crate::cli::rank::Surroundings;
use crate::json;
use crate::json::{json_of, json_text, member_list, named_views, Json, JsonNumber};
use crate::text;
use crate::text::{lemma_appended, occurs};
use serde_json::Value;
use vstd::prelude::*;
use vstd::string::*;

verus! {

/// What stops the doctor before it loads the configuration, in the order it is
/// looked at.
pub open spec fn doctor_refusal(around: Surroundings) -> Option<(u8, Seq<char>, Seq<char>)> {
    let bad = |message: Seq<char>| Some((2u8, "invalid-configuration"@, message));
    if around.flag_conflict is Some {
        Some((2u8, "invalid-usage"@, around.flag_conflict->0@))
    } else if cli_layer(around.settings@) is Err {
        bad(cli_layer(around.settings@)->Err_0)
    } else if around.variables@.filter(recognized_variable()).len() > around.max_variables {
        bad("Too many environment settings"@)
    } else if !around.admits_work {
        Some(late_refusal())
    } else if !around.has_workspace {
        bad("Workspace is unavailable"@)
    } else if config_root_of(around.xdg_config, around.home) is Err {
        bad(config_root_of(around.xdg_config, around.home)->Err_0)
    } else {
        None
    }
}

/// Gather what the doctor finds around it. It never sends a request: its flags
/// say only what ranking would permit.
pub fn prepare_doctor(around: Surroundings) -> (r: Result<(ConfigSources, UserRoot), Failure>)
    ensures
        refuses(r, doctor_refusal(around)),
        r is Ok ==> {
            let sources = (r->Ok_0).0;
            &&& setting_views(sources.cli@) == cli_layer(around.settings@)->Ok_0
            &&& sources.environment@ == around.variables@.filter(recognized_variable())
            &&& sources.trusted_user@.len() == 0
            &&& sources.project@.len() == 0
            &&& (r->Ok_0).1 == config_root_of(around.xdg_config, around.home)->Ok_0
        },
{
    if let Some(conflict) = around.flag_conflict {
        return Err((2, "invalid-usage", conflict));
    }
    let mut sources: ConfigSources = ConfigSources::empty();
    sources.cli = match cli_sources(&around.settings) {
        Ok(list) => list,
        Err(f) => return Err(f),
    };
    sources.environment = match environment_sources(around.variables, around.max_variables) {
        Ok(list) => list,
        Err(f) => return Err(f),
    };
    match timely(around.admits_work) {
        Ok(_) => {},
        Err(f) => return Err(f),
    }
    if !around.has_workspace {
        return Err(invalid("Workspace is unavailable"));
    }
    match user_config_root(around.xdg_config, around.home) {
        Ok(root) => Ok((sources, root)),
        Err(f) => Err(f),
    }
}

/// What a roster check says.
#[derive(Clone, Copy, Debug, PartialEq, Eq, Structural)]
pub enum RosterCheck {
    Resolved,
    Timeout,
    Unusable,
}

/// What the doctor makes of a roster.
pub open spec fn checked_roster(resolved: Result<(), Failure>) -> RosterCheck {
    match resolved {
        Ok(_) => RosterCheck::Resolved,
        Err(f) => if f.0 == 6 {
            RosterCheck::Timeout
        } else {
            RosterCheck::Unusable
        },
    }
}

/// What resolving the roster says of readiness: out of time is not unusable.
pub fn roster_check(resolved: &Result<(), Failure>) -> (r: RosterCheck)
    ensures
        r == checked_roster(*resolved),
{
    match resolved {
        Ok(_) => RosterCheck::Resolved,
        Err(f) => if f.0 == 6 {
            RosterCheck::Timeout
        } else {
            RosterCheck::Unusable
        },
    }
}

/// How a ledger opened for a readiness check.
#[derive(Clone, Copy, Debug, PartialEq, Eq, Structural)]
pub enum LedgerProbe {
    /// It opened; how much cleanup is owed, where that could be read.
    Ready(Option<u64>),
    ReadOnly(Option<u64>),
    Missing,
    Disabled,
    /// It did not open, or no runtime could open it.
    Failed,
}

/// What a ledger check says.
#[derive(Clone, Copy, Debug, PartialEq, Eq, Structural)]
pub enum LedgerCheck {
    Ready { cleanup_debt: Option<u64> },
    ReadOnly { cleanup_debt: Option<u64> },
    NotAvailable,
}

/// What the doctor makes of a ledger.
pub open spec fn checked_ledger(probe: LedgerProbe) -> LedgerCheck {
    match probe {
        LedgerProbe::Ready(debt) => LedgerCheck::Ready { cleanup_debt: debt },
        LedgerProbe::ReadOnly(debt) => LedgerCheck::ReadOnly { cleanup_debt: debt },
        _ => LedgerCheck::NotAvailable,
    }
}

/// What opening the ledger says of readiness.
pub fn ledger_check(probe: LedgerProbe) -> (r: LedgerCheck)
    ensures
        r == checked_ledger(probe),
{
    match probe {
        LedgerProbe::Ready(debt) => LedgerCheck::Ready { cleanup_debt: debt },
        LedgerProbe::ReadOnly(debt) => LedgerCheck::ReadOnly { cleanup_debt: debt },
        LedgerProbe::Missing => LedgerCheck::NotAvailable,
        LedgerProbe::Disabled => LedgerCheck::NotAvailable,
        LedgerProbe::Failed => LedgerCheck::NotAvailable,
    }
}

/// The failure of an endpoint override that is no origin.
pub fn invalid_endpoint() -> (r: Failure)
    ensures
        failure_view(r) == (
            2u8,
            "invalid-configuration"@,
            "The endpoint override is not a valid origin"@,
        ),
{
    invalid("The endpoint override is not a valid origin")
}

/// The state of a check: its state, else its mode, else a dash.
pub open spec fn check_state(entry: Json) -> Seq<char> {
    match entry.member("state"@).text() {
        Some(state) => state,
        None => match entry.member("mode"@).text() {
            Some(mode) => mode,
            None => "-"@,
        },
    }
}

/// What to do next about a check, or a dash.
pub open spec fn check_next(entry: Json) -> Seq<char> {
    match entry.member("next_step"@).text() {
        Some(next) => next,
        None => "-"@,
    }
}

/// The table of the first checks of a readiness report.
pub open spec fn readiness_rows(list: Seq<(Seq<char>, Json)>) -> Seq<char>
    decreases list.len(),
{
    if list.len() == 0 {
        "CHECK\tSTATE\tNEXT STEP\n"@
    } else {
        readiness_rows(list.drop_last()) + list.last().0 + "\t"@ + check_state(list.last().1)
            + "\t"@ + check_next(list.last().1) + "\n"@
    }
}

/// Print a readiness report: in JSON as it is, else a table of its checks in
/// the order of their names.
pub fn render_readiness(report: &Value, as_json: bool) -> (r: String)
    requires
        !as_json ==> json_of(*report).member("checks"@) is Object,
    ensures
        r@ == if as_json {
            json_text(json_of(*report)) + "\n"@
        } else {
            readiness_rows(member_list(json_of(*report).member("checks"@)->Object_0))
        },
{
    if as_json {
        return json::line_of(report);
    }
    let mut output: String = "CHECK\tSTATE\tNEXT STEP\n".to_owned();
    let checks: &Value = match json::get(report, "checks") {
        Some(checks) => checks,
        None => return output,
    };
    let list: Vec<(String, Value)> = match json::members(checks) {
        Some(list) => list,
        None => return output,
    };
    let ghost all = named_views(list@);
    let mut i: usize = 0;
    assert(all.take(0) =~= Seq::<(Seq<char>, Json)>::empty());
    while i < list.len()
        invariant
            i <= list@.len(),
            all == named_views(list@),
            output@ == readiness_rows(all.take(i as int)),
        decreases list@.len() - i,
    {
        assert(all.take(i + 1).drop_last() =~= all.take(i as int));
        assert(all.take(i + 1).last() == (list@[i as int].0@, json_of(list@[i as int].1)));
        let entry: &Value = &list[i].1;
        let state: &str = match json::member_text(entry, "state") {
            Some(state) => state,
            None => match json::member_text(entry, "mode") {
                Some(mode) => mode,
                None => "-",
            },
        };
        let next: &str = match json::member_text(entry, "next_step") {
            Some(next) => next,
            None => "-",
        };
        output.append(list[i].0.as_str());
        output.append("\t");
        output.append(state);
        output.append("\t");
        output.append(next);
        output.append("\n");
        i = i + 1;
    }
    assert(all.take(all.len() as int) =~= all);
    output
}

/// The settings of a configuration.
#[derive(Clone, Copy, Debug, PartialEq, Eq, Structural)]
pub enum SettingKey {
    RankingTop,
    RankingShortlist,
    RankingGate,
    RankingFits,
    RankingWFit,
    RankingWPrior,
    RankingWPhase,
    RankingTimeoutMs,
    RankingExcludeSkills,
    ContextMessages,
    ContextBudgetChars,
    ContextProfile,
    ContextNoTools,
    ContextTranscriptRoots,
    HookMode,
    HookNotificationTurns,
    TypesafeApiKey,
    TypesafeEndpoint,
    ProviderModel,
    RosterRoots,
    NetworkEnabled,
    NetworkProxy,
    PrivacyRedaction,
    PrivacyRawRetention,
}

/// The effective configuration as the report reads it. Thresholds and weights
/// are JSON numbers; a credential and an endpoint are known by their presence
/// alone, roots and exclusions by how many there are.
pub struct EffectiveConfig {
    pub top: usize,
    pub shortlist: usize,
    pub gate: Value,
    pub fits: Value,
    pub w_fit: Value,
    pub w_prior: Value,
    pub w_phase: Value,
    pub timeout_ms: u64,
    pub messages: usize,
    pub budget_chars: usize,
    pub context_profile: String,
    pub no_tools: bool,
    pub hook_mode: String,
    pub notification_turns: String,
    pub has_credential: bool,
    pub has_endpoint: bool,
    /// The model's name with private text redacted, where that was possible.
    pub redacted_model: Option<String>,
    pub transcript_roots: usize,
    pub roster_roots: usize,
    pub exclude_skills: usize,
    pub network_enabled: bool,
    pub policy_fingerprint: String,
}

pub open spec fn natural_json(n: int) -> Json {
    Json::Number(JsonNumber::Natural(n as u64))
}

/// An object with one member.
pub open spec fn single_member(key: Seq<char>, value: Json) -> Json {
    Json::Object(Map::<Seq<char>, Json>::empty().insert(key, value))
}

/// What the report says of a setting, and nothing of those it leaves out.
pub open spec fn reported_value(key: SettingKey, config: EffectiveConfig) -> Option<Json> {
    match key {
        SettingKey::RankingTop => Some(natural_json(config.top as int)),
        SettingKey::RankingShortlist => Some(natural_json(config.shortlist as int)),
        SettingKey::RankingGate => Some(json_of(config.gate)),
        SettingKey::RankingFits => Some(json_of(config.fits)),
        SettingKey::RankingWFit => Some(json_of(config.w_fit)),
        SettingKey::RankingWPrior => Some(json_of(config.w_prior)),
        SettingKey::RankingWPhase => Some(json_of(config.w_phase)),
        SettingKey::RankingTimeoutMs => Some(natural_json(config.timeout_ms as int)),
        SettingKey::RankingExcludeSkills => Some(
            single_member("count"@, natural_json(config.exclude_skills as int)),
        ),
        SettingKey::ContextMessages => Some(natural_json(config.messages as int)),
        SettingKey::ContextBudgetChars => Some(natural_json(config.budget_chars as int)),
        SettingKey::ContextProfile => Some(Json::Text(config.context_profile@)),
        SettingKey::ContextNoTools => Some(Json::Bool(config.no_tools)),
        SettingKey::ContextTranscriptRoots => Some(
            single_member("count"@, natural_json(config.transcript_roots as int)),
        ),
        SettingKey::HookMode => Some(Json::Text(config.hook_mode@)),
        SettingKey::HookNotificationTurns => Some(Json::Text(config.notification_turns@)),
        SettingKey::TypesafeApiKey => Some(
            single_member("present"@, Json::Bool(config.has_credential)),
        ),
        SettingKey::TypesafeEndpoint => Some(
            single_member("override_present"@, Json::Bool(config.has_endpoint)),
        ),
        SettingKey::ProviderModel => Some(
            Json::Text(
                match config.redacted_model {
                    Some(model) => model@,
                    None => "[private]"@,
                },
            ),
        ),
        SettingKey::RosterRoots => Some(
            single_member("count"@, natural_json(config.roster_roots as int)),
        ),
        SettingKey::NetworkEnabled => Some(Json::Bool(config.network_enabled)),
        SettingKey::NetworkProxy => None,
        SettingKey::PrivacyRedaction => None,
        SettingKey::PrivacyRawRetention => None,
    }
}

fn single(key: &str, value: Value) -> (r: Value)
    ensures
        json_of(r) == single_member(key@, json_of(value)),
{
    let mut v: Value = json::object_value();
    json::set_member(&mut v, key, value);
    v
}

fn count_value(n: usize) -> (r: Value)
    ensures
        json_of(r) == single_member("count"@, natural_json(n as int)),
{
    single("count", json::natural_value(n as u64))
}

/// What the report says of a setting.
pub fn report_value(key: SettingKey, config: &EffectiveConfig) -> (r: Option<Value>)
    ensures
        match r {
            Some(v) => reported_value(key, *config) == Some(json_of(v)),
            None => reported_value(key, *config) is None,
        },
{
    match key {
        SettingKey::RankingTop => Some(json::natural_value(config.top as u64)),
        SettingKey::RankingShortlist => Some(json::natural_value(config.shortlist as u64)),
        SettingKey::RankingGate => Some(json::copy(&config.gate)),
        SettingKey::RankingFits => Some(json::copy(&config.fits)),
        SettingKey::RankingWFit => Some(json::copy(&config.w_fit)),
        SettingKey::RankingWPrior => Some(json::copy(&config.w_prior)),
        SettingKey::RankingWPhase => Some(json::copy(&config.w_phase)),
        SettingKey::RankingTimeoutMs => Some(json::natural_value(config.timeout_ms)),
        SettingKey::RankingExcludeSkills => Some(count_value(config.exclude_skills)),
        SettingKey::ContextMessages => Some(json::natural_value(config.messages as u64)),
        SettingKey::ContextBudgetChars => Some(json::natural_value(config.budget_chars as u64)),
        SettingKey::ContextProfile => Some(json::text_value(config.context_profile.clone())),
        SettingKey::ContextNoTools => Some(json::bool_value(config.no_tools)),
        SettingKey::ContextTranscriptRoots => Some(count_value(config.transcript_roots)),
        SettingKey::HookMode => Some(json::text_value(config.hook_mode.clone())),
        SettingKey::HookNotificationTurns => Some(
            json::text_value(config.notification_turns.clone()),
        ),
        SettingKey::TypesafeApiKey => Some(
            single("present", json::bool_value(config.has_credential)),
        ),
        SettingKey::TypesafeEndpoint => Some(
            single("override_present", json::bool_value(config.has_endpoint)),
        ),
        SettingKey::ProviderModel => match &config.redacted_model {
            Some(model) => Some(json::text_value(model.clone())),
            None => Some(json::text_value("[private]".to_owned())),
        },
        SettingKey::RosterRoots => Some(count_value(config.roster_roots)),
        SettingKey::NetworkEnabled => Some(json::bool_value(config.network_enabled)),
        SettingKey::NetworkProxy => None,
        SettingKey::PrivacyRedaction => None,
        SettingKey::PrivacyRawRetention => None,
    }
}

/// A setting with its path and the layers its value came from.
#[derive(Clone, Debug, PartialEq, Eq)]
pub struct SettingOrigin {
    pub key: SettingKey,
    pub path: String,
    pub sources: Vec<String>,
}

pub open spec fn texts_json(list: Seq<String>) -> Json {
    Json::Array(Seq::new(list.len(), |i: int| Json::Text(list[i]@)))
}

/// The entry of a setting in the report.
pub open spec fn setting_entry(value: Json, sources: Seq<String>) -> Json {
    Json::Object(
        Map::empty().insert("value"@, value).insert("sources"@, texts_json(sources)),
    )
}

/// The settings of a report: those that are reported, each under its path.
pub open spec fn report_settings(
    origins: Seq<SettingOrigin>,
    config: EffectiveConfig,
) -> Map<Seq<char>, Json>
    decreases origins.len(),
{
    if origins.len() == 0 {
        Map::empty()
    } else {
        let before = report_settings(origins.drop_last(), config);
        match reported_value(origins.last().key, config) {
            Some(value) => before.insert(
                origins.last().path@,
                setting_entry(value, origins.last().sources@),
            ),
            None => before,
        }
    }
}

/// The report on a configuration.
pub open spec fn report_json(origins: Seq<SettingOrigin>, config: EffectiveConfig) -> Json {
    Json::Object(
        Map::empty().insert("schema_version"@, natural_json(1)).insert(
            "command"@,
            Json::Text("doctor-config"@),
        ).insert("scope"@, Json::Text("local-configuration-only"@)).insert(
            "policy_fingerprint"@,
            Json::Text(config.policy_fingerprint@),
        ).insert("settings"@, Json::Object(report_settings(origins, config))),
    )
}

fn texts_value(list: &Vec<String>) -> (r: Value)
    ensures
        json_of(r) == texts_json(list@),
{
    let mut items: Vec<Value> = Vec::new();
    let mut i: usize = 0;
    while i < list.len()
        invariant
            i <= list@.len(),
            items@.len() == i,
            forall|j: int| 0 <= j < i ==> json_of(#[trigger] items@[j]) == Json::Text(list@[j]@),
        decreases list@.len() - i,
    {
        items.push(json::text_value(list[i].clone()));
        i = i + 1;
    }
    assert(Seq::new(items@.len(), |i: int| json_of(items@[i])) =~= Seq::new(
        list@.len(),
        |i: int| Json::Text(list@[i]@),
    ));
    json::array_value(items)
}

/// Report on a configuration: its policy and its settings with the layers they
/// came from, without anything private in them.
pub fn config_report(origins: &Vec<SettingOrigin>, config: &EffectiveConfig) -> (r: Value)
    ensures
        json_of(r) == report_json(origins@, *config),
{
    let mut settings: Value = json::object_value();
    let mut i: usize = 0;
    assert(origins@.take(0) =~= Seq::<SettingOrigin>::empty());
    while i < origins.len()
        invariant
            i <= origins@.len(),
            json_of(settings) == Json::Object(report_settings(origins@.take(i as int), *config)),
        decreases origins@.len() - i,
    {
        assert(origins@.take(i + 1).drop_last() =~= origins@.take(i as int));
        let origin: &SettingOrigin = &origins[i];
        if let Some(value) = report_value(origin.key, config) {
            let mut entry: Value = json::object_value();
            json::set_member(&mut entry, "value", value);
            json::set_member(&mut entry, "sources", texts_value(&origin.sources));
            json::set_member(&mut settings, origin.path.as_str(), entry);
        }
        i = i + 1;
    }
    assert(origins@.take(origins@.len() as int) =~= origins@);
    let mut report: Value = json::object_value();
    json::set_member(&mut report, "schema_version", json::natural_value(1));
    json::set_member(&mut report, "command", json::text_value("doctor-config".to_owned()));
    json::set_member(&mut report, "scope", json::text_value("local-configuration-only".to_owned()));
    json::set_member(
        &mut report,
        "policy_fingerprint",
        json::text_value(config.policy_fingerprint.clone()),
    );
    json::set_member(&mut report, "settings", settings);
    report
}

/// The table of the first settings of a report.
pub open spec fn setting_rows(list: Seq<(Seq<char>, Json)>) -> Seq<char>
    decreases list.len(),
{
    if list.len() == 0 {
        "SETTING\tVALUE\tSOURCE\n"@
    } else {
        setting_rows(list.drop_last()) + list.last().0 + "\t"@ + json_text(
            list.last().1.member("value"@),
        ) + "\t"@ + json_text(list.last().1.member("sources"@)) + "\n"@
    }
}

fn member_line(entry: &Value, key: &str) -> (r: String)
    requires
        json_of(*entry).has(key@),
    ensures
        r@ == json_text(json_of(*entry).member(key@)),
{
    match json::get(entry, key) {
        Some(value) => json::to_text(value),
        None => "".to_owned(),
    }
}

proof fn lemma_entries_are_whole(
    origins: Seq<SettingOrigin>,
    config: EffectiveConfig,
    key: Seq<char>,
)
    requires
        report_settings(origins, config).contains_key(key),
    ensures
        report_settings(origins, config)[key].has("value"@),
        report_settings(origins, config)[key].has("sources"@),
    decreases origins.len(),
{
    if origins.len() > 0 {
        let before = report_settings(origins.drop_last(), config);
        if before.contains_key(key) {
            lemma_entries_are_whole(origins.drop_last(), config, key);
        }
    }
}

/// Report on a configuration and print it: in JSON, else a table of its
/// settings in the order of their paths.
pub fn render_config(
    origins: &Vec<SettingOrigin>,
    config: &EffectiveConfig,
    as_json: bool,
) -> (r: String)
    ensures
        r@ == if as_json {
            json_text(report_json(origins@, *config)) + "\n"@
        } else {
            setting_rows(member_list(report_settings(origins@, *config)))
        },
{
    let report: Value = config_report(origins, config);
    if as_json {
        return json::line_of(&report);
    }
    let ghost held = report_settings(origins@, *config);
    let mut output: String = "SETTING\tVALUE\tSOURCE\n".to_owned();
    let settings: &Value = match json::get(&report, "settings") {
        Some(settings) => settings,
        None => return output,
    };
    let list: Vec<(String, Value)> = match json::members(settings) {
        Some(list) => list,
        None => return output,
    };
    let ghost all = named_views(list@);
    proof {
        assert forall|j: int| 0 <= j < list@.len() implies json_of((#[trigger] list@[j]).1).has(
            "value"@,
        ) && json_of(list@[j].1).has("sources"@) by {
            assert(held.contains_key(all[j].0));
            lemma_entries_are_whole(origins@, *config, all[j].0);
        }
    }
    let mut i: usize = 0;
    assert(all.take(0) =~= Seq::<(Seq<char>, Json)>::empty());
    while i < list.len()
        invariant
            i <= list@.len(),
            all == named_views(list@),
            output@ == setting_rows(all.take(i as int)),
            forall|j: int|
                0 <= j < list@.len() ==> json_of((#[trigger] list@[j]).1).has("value"@) && json_of(
                    list@[j].1,
                ).has("sources"@),
        decreases list@.len() - i,
    {
        assert(all.take(i + 1).drop_last() =~= all.take(i as int));
        assert(all.take(i + 1).last() == (list@[i as int].0@, json_of(list@[i as int].1)));
        let entry: &Value = &list[i].1;
        let value: String = member_line(entry, "value");
        let sources: String = member_line(entry, "sources");
        output.append(list[i].0.as_str());
        output.append("\t");
        output.append(value.as_str());
        output.append("\t");
        output.append(sources.as_str());
        output.append("\n");
        i = i + 1;
    }
    assert(all.take(all.len() as int) =~= all);
    output
}

/// What a readiness check answers: that resolving the roster took too long,
/// that the endpoint is none, that the report came late, else the report.
pub open spec fn readiness_answer(
    after_roster: bool,
    endpoint_valid: bool,
    after_report: bool,
    report: Json,
    as_json: bool,
) -> Result<Seq<char>, (u8, Seq<char>, Seq<char>)> {
    if !after_roster {
        Err(late_refusal())
    } else if !endpoint_valid {
        Err(
            (
                2u8,
                "invalid-configuration"@,
                "The endpoint override is not a valid origin"@,
            ),
        )
    } else if !after_report {
        Err(late_refusal())
    } else {
        Ok(
            if as_json {
                json_text(report) + "\n"@
            } else {
                readiness_rows(member_list(report.member("checks"@)->Object_0))
            },
        )
    }
}

/// Answer a readiness check. The two times say whether work was still admitted
/// once the roster was looked at, and once the report was written.
pub fn finish_readiness(
    after_roster: bool,
    endpoint_valid: bool,
    after_report: bool,
    report: &Value,
    as_json: bool,
) -> (r: Result<String, Failure>)
    requires
        after_roster && endpoint_valid && after_report && !as_json ==> json_of(*report).member(
            "checks"@,
        ) is Object,
    ensures
        answers(
            r,
            readiness_answer(
                after_roster,
                endpoint_valid,
                after_report,
                json_of(*report),
                as_json,
            ),
        ),
{
    match timely(after_roster) {
        Ok(_) => {},
        Err(f) => return Err(f),
    }
    if !endpoint_valid {
        return Err(invalid_endpoint());
    }
    match timely(after_report) {
        Ok(_) => Ok(render_readiness(report, as_json)),
        Err(f) => Err(f),
    }
}

/// The doctor goes ahead exactly where no flags contradict each other, its settings
/// can be read and are not too many, there is time for it, it has a workspace, and
/// its configuration directory is known.
pub proof fn lemma_surroundings_of_the_doctor(around: Surroundings)
    ensures
        doctor_refusal(around) is None <==> {
            &&& around.flag_conflict is None
            &&& cli_layer(around.settings@) is Ok
            &&& around.variables@.filter(recognized_variable()).len() <= around.max_variables
            &&& around.admits_work
            &&& around.has_workspace
            &&& config_root_of(around.xdg_config, around.home) is Ok
        },
        around.flag_conflict is Some ==> (doctor_refusal(around)->0).0 == 2 && (doctor_refusal(
            around,
        )->0).2 == around.flag_conflict->0@,
        doctor_refusal(around) is Some ==> (doctor_refusal(around)->0).0 == 2 || (doctor_refusal(
            around,
        )->0).0 == 6 && !around.admits_work,
{
}

/// A check shows its state, else its mode, and what to do next; what it does not
/// say is a dash.
pub proof fn lemma_what_a_check_shows(entry: Json)
    ensures
        ({
            let state = entry.member("state"@).text();
            let mode = entry.member("mode"@).text();
            let next = entry.member("next_step"@).text();
            &&& state is Some ==> check_state(entry) == state->0
            &&& state is None && mode is Some ==> check_state(entry) == mode->0
            &&& state is None && mode is None ==> check_state(entry) == "-"@
            &&& next is Some ==> check_next(entry) == next->0
            &&& next is None ==> check_next(entry) == "-"@
        }),
{
}

/// Every check has a row: its name, its state and what to do next, in this order.
pub proof fn lemma_readiness_row(list: Seq<(Seq<char>, Json)>, i: int)
    requires
        0 <= i < list.len(),
    ensures
        occurs(
            readiness_rows(list),
            "\n"@ + list[i].0 + "\t"@ + check_state(list[i].1) + "\t"@ + check_next(list[i].1)
                + "\n"@,
        ),
        text::has_prefix(readiness_rows(list), "CHECK\tSTATE\tNEXT STEP\n"@),
    decreases list.len(),
{
    let before = readiness_rows(list.drop_last());
    let name = list.last().0;
    let state = check_state(list.last().1);
    let next = check_next(list.last().1);
    lemma_readiness_rows_end(list.drop_last());
    lemma_row_of_three(before, name, state, next);
    if i < list.len() - 1 {
        lemma_readiness_row(list.drop_last(), i);
        assert(list.drop_last()[i] == list[i]);
    }
}

proof fn lemma_readiness_rows_end(list: Seq<(Seq<char>, Json)>)
    ensures
        readiness_rows(list).len() > 0,
        readiness_rows(list).last() == '\n',
        text::has_prefix(readiness_rows(list), "CHECK\tSTATE\tNEXT STEP\n"@),
    decreases list.len(),
{
    reveal_strlit("\n");
    reveal_strlit("CHECK\tSTATE\tNEXT STEP\n");
    let head = "CHECK\tSTATE\tNEXT STEP\n"@;
    let n = head.len() as int;
    if list.len() > 0 {
        let before = readiness_rows(list.drop_last());
        lemma_readiness_rows_end(list.drop_last());
        assert(readiness_rows(list).take(n) =~= before.take(n));
    } else {
        assert(head.take(n) =~= head);
    }
}

proof fn lemma_row_of_three(x: Seq<char>, a: Seq<char>, b: Seq<char>, c: Seq<char>)
    requires
        x.len() > 0,
        x.last() == '\n',
    ensures
        occurs(
            x + a + "\t"@ + b + "\t"@ + c + "\n"@,
            "\n"@ + a + "\t"@ + b + "\t"@ + c + "\n"@,
        ),
        forall|part: Seq<char>|
            occurs(x, part) ==> #[trigger] occurs(x + a + "\t"@ + b + "\t"@ + c + "\n"@, part),
        forall|front: Seq<char>|
            text::has_prefix(x, front) ==> #[trigger] text::has_prefix(
                x + a + "\t"@ + b + "\t"@ + c + "\n"@,
                front,
            ),
{
    let rest = a + "\t"@ + b + "\t"@ + c + "\n"@;
    lemma_row_regrouped(x, a, b, c);
    lemma_row_regrouped("\n"@, a, b, c);
    reveal_strlit("\n");
    assert(x + rest =~= x.drop_last() + ("\n"@ + rest));
    lemma_appended(x.drop_last(), "\n"@ + rest);
    lemma_appended(x, rest);
    assert forall|front: Seq<char>| text::has_prefix(x, front) implies #[trigger] text::has_prefix(
        x + rest,
        front,
    ) by {
        assert((x + rest).take(front.len() as int) =~= x.take(front.len() as int));
    }
}

proof fn lemma_row_regrouped(x: Seq<char>, a: Seq<char>, b: Seq<char>, c: Seq<char>)
    ensures
        x + a + "\t"@ + b + "\t"@ + c + "\n"@ == x + (a + "\t"@ + b + "\t"@ + c + "\n"@),
{
    assert(x + a + "\t"@ + b + "\t"@ + c + "\n"@ =~= x + (a + "\t"@ + b + "\t"@ + c + "\n"@));
}

/// Every setting has a row: its name, its value and where that came from, in this
/// order.
pub proof fn lemma_setting_row(list: Seq<(Seq<char>, Json)>, i: int)
    requires
        0 <= i < list.len(),
    ensures
        occurs(
            setting_rows(list),
            "\n"@ + list[i].0 + "\t"@ + json_text(list[i].1.member("value"@)) + "\t"@ + json_text(
                list[i].1.member("sources"@),
            ) + "\n"@,
        ),
    decreases list.len(),
{
    let before = setting_rows(list.drop_last());
    let name = list.last().0;
    let value = json_text(list.last().1.member("value"@));
    let sources = json_text(list.last().1.member("sources"@));
    lemma_setting_rows_end(list.drop_last());
    lemma_row_of_three(before, name, value, sources);
    if i < list.len() - 1 {
        lemma_setting_row(list.drop_last(), i);
        assert(list.drop_last()[i] == list[i]);
    }
}

proof fn lemma_setting_rows_end(list: Seq<(Seq<char>, Json)>)
    ensures
        setting_rows(list).len() > 0,
        setting_rows(list).last() == '\n',
{
    reveal_strlit("\n");
    reveal_strlit("SETTING\tVALUE\tSOURCE\n");
}

/// Every setting reports its own value. Lists report how many entries they have, and
/// what is secret only whether it is there.
pub proof fn lemma_each_setting_reports_its_own_value(config: EffectiveConfig)
    ensures
        reported_value(SettingKey::RankingTop, config) == Some(natural_json(config.top as int)),
        reported_value(SettingKey::RankingShortlist, config) == Some(
            natural_json(config.shortlist as int),
        ),
        reported_value(SettingKey::RankingGate, config) == Some(json_of(config.gate)),
        reported_value(SettingKey::RankingFits, config) == Some(json_of(config.fits)),
        reported_value(SettingKey::RankingWFit, config) == Some(json_of(config.w_fit)),
        reported_value(SettingKey::RankingWPrior, config) == Some(json_of(config.w_prior)),
        reported_value(SettingKey::RankingWPhase, config) == Some(json_of(config.w_phase)),
        reported_value(SettingKey::RankingTimeoutMs, config) == Some(
            natural_json(config.timeout_ms as int),
        ),
        reported_value(SettingKey::ContextMessages, config) == Some(
            natural_json(config.messages as int),
        ),
        reported_value(SettingKey::ContextBudgetChars, config) == Some(
            natural_json(config.budget_chars as int),
        ),
        reported_value(SettingKey::ContextProfile, config) == Some(
            Json::Text(config.context_profile@),
        ),
        reported_value(SettingKey::ContextNoTools, config) == Some(Json::Bool(config.no_tools)),
        reported_value(SettingKey::HookMode, config) == Some(Json::Text(config.hook_mode@)),
        reported_value(SettingKey::HookNotificationTurns, config) == Some(
            Json::Text(config.notification_turns@),
        ),
        reported_value(SettingKey::NetworkEnabled, config) == Some(
            Json::Bool(config.network_enabled),
        ),
        reported_value(SettingKey::RankingExcludeSkills, config)->0.member("count"@)
            == natural_json(config.exclude_skills as int),
        reported_value(SettingKey::ContextTranscriptRoots, config)->0.member("count"@)
            == natural_json(config.transcript_roots as int),
        reported_value(SettingKey::RosterRoots, config)->0.member("count"@) == natural_json(
            config.roster_roots as int,
        ),
        reported_value(SettingKey::TypesafeApiKey, config)->0.member("present"@) == Json::Bool(
            config.has_credential,
        ),
        reported_value(SettingKey::TypesafeEndpoint, config)->0.member("override_present"@)
            == Json::Bool(config.has_endpoint),
        config.redacted_model is Some ==> reported_value(SettingKey::ProviderModel, config)
            == Some(Json::Text(config.redacted_model->0@)),
        config.redacted_model is None ==> reported_value(SettingKey::ProviderModel, config)
            == Some(Json::Text("[private]"@)),
        forall|key: SettingKey|
            (#[trigger] reported_value(key, config)) is None <==> key is NetworkProxy || key
                is PrivacyRedaction || key is PrivacyRawRetention,
{
}

/// A setting that reports a value stands in the report under its path, with that
/// value and where it came from; the last of one path stands for it.
pub proof fn lemma_settings_are_reported_by_path(
    origins: Seq<SettingOrigin>,
    config: EffectiveConfig,
    i: int,
)
    requires
        0 <= i < origins.len(),
        reported_value(origins[i].key, config) is Some,
        forall|j: int|
            i < j < origins.len() && (#[trigger] origins[j]).path@ == origins[i].path@
                ==> reported_value(origins[j].key, config) is None,
    ensures
        ({
            let settings = report_settings(origins, config);
            &&& settings.contains_key(origins[i].path@)
            &&& settings[origins[i].path@].member("value"@) == reported_value(
                origins[i].key,
                config,
            )->0
            &&& settings[origins[i].path@].member("sources"@) is Array
            &&& settings[origins[i].path@].member("sources"@)->Array_0.len()
                == origins[i].sources@.len()
            &&& forall|k: int|
                0 <= k < origins[i].sources@.len()
                    ==> #[trigger] settings[origins[i].path@].member("sources"@)->Array_0[k]
                    == Json::Text(origins[i].sources@[k]@)
        }),
    decreases origins.len(),
{
    reveal_strlit("value");
    reveal_strlit("sources");
    assert("value"@.len() != "sources"@.len());
    if i < origins.len() - 1 {
        let front = origins.drop_last();
        assert(front[i] == origins[i]);
        assert forall|j: int|
            i < j < front.len() && (#[trigger] front[j]).path@ == front[i].path@ implies
            reported_value(front[j].key, config) is None by {
            assert(front[j] == origins[j]);
        }
        lemma_settings_are_reported_by_path(front, config, i);
        assert(origins.last() == origins[origins.len() - 1]);
    }
}

/// The report on the configuration is marked as one, names its policy, and holds
/// the settings.
pub proof fn lemma_config_report_members(origins: Seq<SettingOrigin>, config: EffectiveConfig)
    ensures
        ({
            let report = report_json(origins, config);
            &&& report.member("schema_version"@) == natural_json(1)
            &&& report.member("command"@) == Json::Text("doctor-config"@)
            &&& report.member("scope"@) == Json::Text("local-configuration-only"@)
            &&& report.member("policy_fingerprint"@) == Json::Text(config.policy_fingerprint@)
            &&& report.member("settings"@) == Json::Object(report_settings(origins, config))
        }),
{
    reveal_strlit("schema_version");
    reveal_strlit("command");
    reveal_strlit("scope");
    reveal_strlit("policy_fingerprint");
    reveal_strlit("settings");
    assert("schema_version"@.len() == 14 && "command"@.len() == 7 && "scope"@.len() == 5);
    assert("policy_fingerprint"@.len() == 18 && "settings"@.len() == 8);
}

/// Readiness is answered exactly where the work was in time throughout and the
/// endpoint is one; what failed first is said.
pub proof fn lemma_readiness_is_answered_in_time(
    after_roster: bool,
    endpoint_valid: bool,
    after_report: bool,
    report: Json,
    as_json: bool,
)
    ensures
        ({
            let answer = readiness_answer(
                after_roster,
                endpoint_valid,
                after_report,
                report,
                as_json,
            );
            &&& answer is Ok <==> after_roster && endpoint_valid && after_report
            &&& !after_roster ==> (answer->Err_0).0 == 6
            &&& after_roster && !endpoint_valid ==> (answer->Err_0).0 == 2
            &&& after_roster && endpoint_valid && !after_report ==> (answer->Err_0).0 == 6
            &&& answer is Ok && as_json ==> answer->Ok_0 == json_text(report) + "\n"@
        }),
{
}

/// A roster is resolved, or out of time, or else unusable; a ledger that can be opened
/// keeps what it owes, and one that cannot is not available.
pub proof fn lemma_what_the_doctor_finds(resolved: Result<(), Failure>, probe: LedgerProbe)
    ensures
        checked_roster(resolved) is Resolved <==> resolved is Ok,
        checked_roster(resolved) is Timeout <==> resolved is Err && resolved->Err_0.0 == 6,
        checked_ledger(probe) is NotAvailable <==> probe is Missing || probe is Disabled || probe
            is Failed,
        checked_ledger(probe) is Ready <==> probe is Ready,
        probe is Ready ==> checked_ledger(probe)->Ready_cleanup_debt == probe->Ready_0,
        probe is ReadOnly ==> checked_ledger(probe)->ReadOnly_cleanup_debt == probe->ReadOnly_0,
{
}

} // verus!
