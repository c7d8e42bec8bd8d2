//! What an evaluation command asks for, decided before any input is opened.

use crate::cli::config::{
    config_root_of, environment_sources, recognized_variable, user_config_root, ConfigSources,
    UserRoot,
};
use crate::cli::failure::{failure, failure_view, invalid, refuses, Failure};
use crate::cli::rank::Surroundings;
use crate::evaluation::replay::{
    config_refusal, validate_batch_config, BatchConfig, EvidenceOrigin, MAX_BATCH_RUNTIME_MS,
};
use crate::evaluation::report::{EvaluationError, EvaluationErrorView};
use crate::evaluation::sampling::FrameSampling;
use crate::text;
use crate::text::numeral;
use vstd::prelude::*;
use vstd::string::*;

verus! {

/// The evaluation arguments as given.
#[derive(Clone, Debug, PartialEq, Eq)]
pub struct EvalArguments {
    pub dataset: Option<String>,
    pub labels: Option<String>,
    pub sample_size: Option<String>,
    pub seed: Option<String>,
    pub online: bool,
    pub robustness: bool,
    pub allow_network: bool,
    pub max_requests: Option<String>,
    pub max_runtime_ms: Option<String>,
    pub timeout_ms: Option<String>,
}

/// What an evaluation command does.
#[derive(Clone, Copy, Debug, PartialEq, Eq, Structural)]
pub enum EvalPlan {
    /// Recompute recorded cases.
    Replay { config: BatchConfig },
    /// Score recorded decisions of a labeled frame.
    Frame { sampling: Option<FrameSampling> },
    /// Rank a labeled frame fresh, then score it.
    Live { sampling: Option<FrameSampling>, max_requests: u32, max_runtime_ms: u64 },
}

/// Why an evaluation command is refused.
pub enum EvalRefusal {
    Failure(Failure),
    /// The configuration of a replay batch is invalid.
    Config(EvaluationError),
}

/// What a refusal says.
pub enum RefusalView {
    Failure(u8, Seq<char>, Seq<char>),
    Config(Seq<char>),
}

/// Whether a refusal says something.
pub open spec fn refusal_says(refusal: EvalRefusal, view: RefusalView) -> bool {
    match refusal {
        EvalRefusal::Failure(f) => view == RefusalView::Failure(f.0, f.1@, f.2@),
        EvalRefusal::Config(e) => view is Config && e@ == EvaluationErrorView::InvalidField(
            view->Config_0,
        ),
    }
}

/// The number a text spells, where it is at most `max`.
pub open spec fn number_of(s: Seq<char>, max: nat) -> Option<nat> {
    match numeral(s) {
        Some(n) => if n <= max {
            Some(n)
        } else {
            None
        },
        None => None,
    }
}

/// Whether an argument was given that is not a number.
pub open spec fn not_a_number(arg: Option<String>, max: nat) -> bool {
    arg is Some && number_of(arg->0@, max) is None
}

/// The largest 64-bit number.
pub open spec fn max_u64() -> nat {
    u64::MAX as nat
}

/// Why the arguments of a labeled frame are refused.
pub open spec fn frame_refusal(args: EvalArguments) -> Option<RefusalView> {
    let usage = |message: Seq<char>| Some(RefusalView::Failure(2, "invalid-usage"@, message));
    let config = |message: Seq<char>|
        Some(RefusalView::Failure(2, "invalid-configuration"@, message));
    if not_a_number(args.sample_size, max_u64()) {
        usage("Invalid --sample-size: must be a non-negative integer"@)
    } else if not_a_number(args.seed, max_u64()) {
        usage("Invalid --seed: must be a non-negative integer"@)
    } else if args.sample_size is Some && number_of(args.sample_size->0@, max_u64()) == Some(0nat) {
        usage("Invalid --sample-size: must be positive"@)
    } else if args.online {
        if args.max_requests is None {
            config("A live batch requires an explicit --max-requests cap"@)
        } else if number_of(args.max_requests->0@, u32::MAX as nat) is None || number_of(
            args.max_requests->0@,
            u32::MAX as nat,
        ) == Some(0nat) {
            config("Invalid --max-requests: must be a positive integer"@)
        } else if args.max_runtime_ms is Some && (number_of(
            args.max_runtime_ms->0@,
            MAX_BATCH_RUNTIME_MS as nat,
        ) is None || number_of(args.max_runtime_ms->0@, MAX_BATCH_RUNTIME_MS as nat) == Some(
            0nat,
        )) {
            config("Invalid --max-runtime-ms: must be 1 to 86400000"@)
        } else {
            None
        }
    } else if args.max_requests is Some || args.robustness {
        usage("--max-requests and --robustness apply to a live batch; add --online"@)
    } else if args.max_runtime_ms is Some {
        usage(
            "--max-runtime-ms bounds a live or replay batch; scoring recorded decisions takes none"@,
        )
    } else {
        None
    }
}

/// The configuration a replay command asks for.
pub open spec fn replay_config(args: EvalArguments, default_runtime_ms: u64) -> BatchConfig {
    BatchConfig {
        max_requests: None,
        max_runtime_ms: match args.max_runtime_ms {
            Some(ms) => number_of(ms@, max_u64())->0 as u64,
            None => default_runtime_ms,
        },
        per_case_timeout_ms: match args.timeout_ms {
            Some(ms) => Some(number_of(ms@, max_u64())->0 as u64),
            None => None,
        },
        online: false,
        allow_network: args.allow_network,
        evidence_origin: EvidenceOrigin::Recorded,
        policy: None,
        compare_policy: None,
    }
}

/// Why the arguments of a replay are refused.
pub open spec fn replay_arguments_refusal(args: EvalArguments, default_runtime_ms: u64) -> Option<
    RefusalView,
> {
    let usage = |message: Seq<char>| Some(RefusalView::Failure(2, "invalid-usage"@, message));
    if args.online || args.max_requests is Some || args.robustness {
        usage("--online and --max-requests evaluate labeled cases; pass --labels"@)
    } else if not_a_number(args.max_runtime_ms, max_u64()) {
        usage("Invalid --max-runtime-ms: must be a positive integer"@)
    } else if not_a_number(args.timeout_ms, max_u64()) {
        usage("Invalid --timeout-ms: must be a positive integer"@)
    } else {
        match config_refusal(replay_config(args, default_runtime_ms)) {
            Some(reason) => Some(RefusalView::Config(reason)),
            None => None,
        }
    }
}

/// The first reason to refuse an evaluation command.
pub open spec fn eval_refusal(args: EvalArguments, default_runtime_ms: u64) -> Option<RefusalView> {
    if args.dataset is None {
        Some(RefusalView::Failure(2, "invalid-usage"@, "Missing required argument --dataset"@))
    } else if args.labels is Some {
        frame_refusal(args)
    } else {
        replay_arguments_refusal(args, default_runtime_ms)
    }
}

/// The sample a command asks for.
pub open spec fn sampling_of(args: EvalArguments) -> Option<FrameSampling> {
    match args.sample_size {
        Some(size) => Some(
            FrameSampling {
                sample_size: clamped(number_of(size@, max_u64())->0),
                seed: match args.seed {
                    Some(seed) => Some(number_of(seed@, max_u64())->0 as u64),
                    None => None,
                },
            },
        ),
        None => None,
    }
}

/// A number as a count, no greater than counts go.
pub open spec fn clamped(n: nat) -> usize {
    if n <= usize::MAX {
        n as usize
    } else {
        usize::MAX
    }
}

/// What an accepted command does.
pub open spec fn plan_of(args: EvalArguments, default_runtime_ms: u64) -> EvalPlan {
    if args.labels is None {
        EvalPlan::Replay { config: replay_config(args, default_runtime_ms) }
    } else if args.online {
        EvalPlan::Live {
            sampling: sampling_of(args),
            max_requests: number_of(args.max_requests->0@, u32::MAX as nat)->0 as u32,
            max_runtime_ms: match args.max_runtime_ms {
                Some(ms) => number_of(ms@, MAX_BATCH_RUNTIME_MS as nat)->0 as u64,
                None => default_runtime_ms,
            },
        }
    } else {
        EvalPlan::Frame { sampling: sampling_of(args) }
    }
}

fn parsed(arg: &Option<String>) -> (r: Result<Option<u64>, ()>)
    ensures
        r is Err <==> not_a_number(*arg, max_u64()),
        r is Ok ==> (r->Ok_0 is Some <==> *arg is Some),
        r is Ok && *arg is Some ==> number_of(arg->0@, max_u64()) == Some(r->Ok_0->0 as nat),
{
    match arg {
        Some(value) => match text::parse_number(value.as_str(), u64::MAX) {
            Some(n) => Ok(Some(n)),
            None => Err(()),
        },
        None => Ok(None),
    }
}

fn usage(message: &str) -> (r: EvalRefusal)
    ensures
        refusal_says(r, RefusalView::Failure(2, "invalid-usage"@, message@)),
{
    EvalRefusal::Failure(failure(2, "invalid-usage", message))
}

fn misconfigured(message: &str) -> (r: EvalRefusal)
    ensures
        refusal_says(r, RefusalView::Failure(2, "invalid-configuration"@, message@)),
{
    EvalRefusal::Failure(invalid(message))
}

fn plan_frame(args: &EvalArguments, default_runtime_ms: u64) -> (r: Result<EvalPlan, EvalRefusal>)
    requires
        args.labels is Some,
    ensures
        match r {
            Ok(plan) => frame_refusal(*args) is None && plan == plan_of(*args, default_runtime_ms),
            Err(refusal) => frame_refusal(*args) is Some && refusal_says(
                refusal,
                frame_refusal(*args)->0,
            ),
        },
{
    let sample_size: Option<u64> = match parsed(&args.sample_size) {
        Ok(n) => n,
        Err(_) => return Err(usage("Invalid --sample-size: must be a non-negative integer")),
    };
    let seed: Option<u64> = match parsed(&args.seed) {
        Ok(n) => n,
        Err(_) => return Err(usage("Invalid --seed: must be a non-negative integer")),
    };
    let sampling: Option<FrameSampling> = match sample_size {
        Some(n) => {
            if n == 0 {
                return Err(usage("Invalid --sample-size: must be positive"));
            }
            let sample_size: usize = if n <= usize::MAX as u64 {
                n as usize
            } else {
                usize::MAX
            };
            Some(FrameSampling { sample_size, seed })
        },
        None => None,
    };
    if args.online {
        let cap: &String = match &args.max_requests {
            Some(cap) => cap,
            None => return Err(
                misconfigured("A live batch requires an explicit --max-requests cap"),
            ),
        };
        let max_requests: u32 = match text::parse_number(cap.as_str(), u32::MAX as u64) {
            Some(n) => {
                if n == 0 {
                    return Err(misconfigured("Invalid --max-requests: must be a positive integer"));
                }
                n as u32
            },
            None => return Err(
                misconfigured("Invalid --max-requests: must be a positive integer"),
            ),
        };
        let max_runtime_ms: u64 = match &args.max_runtime_ms {
            Some(ms) => match text::parse_number(ms.as_str(), MAX_BATCH_RUNTIME_MS) {
                Some(n) => {
                    if n == 0 {
                        return Err(
                            misconfigured("Invalid --max-runtime-ms: must be 1 to 86400000"),
                        );
                    }
                    n
                },
                None => return Err(
                    misconfigured("Invalid --max-runtime-ms: must be 1 to 86400000"),
                ),
            },
            None => default_runtime_ms,
        };
        return Ok(EvalPlan::Live { sampling, max_requests, max_runtime_ms });
    }
    if args.max_requests.is_some() || args.robustness {
        return Err(
            usage("--max-requests and --robustness apply to a live batch; add --online"),
        );
    }
    if args.max_runtime_ms.is_some() {
        return Err(
            usage(
                "--max-runtime-ms bounds a live or replay batch; scoring recorded decisions takes none",
            ),
        );
    }
    Ok(EvalPlan::Frame { sampling })
}

/// Decide what an evaluation command does.
pub fn plan_eval(args: &EvalArguments, default_runtime_ms: u64) -> (r: Result<
    EvalPlan,
    EvalRefusal,
>)
    ensures
        match r {
            Ok(plan) => eval_refusal(*args, default_runtime_ms) is None && plan == plan_of(
                *args,
                default_runtime_ms,
            ),
            Err(refusal) => eval_refusal(*args, default_runtime_ms) is Some && refusal_says(
                refusal,
                eval_refusal(*args, default_runtime_ms)->0,
            ),
        },
{
    if args.dataset.is_none() {
        return Err(usage("Missing required argument --dataset"));
    }
    if args.labels.is_some() {
        return plan_frame(args, default_runtime_ms);
    }
    // A live batch ranks labeled requests fresh; a replay dataset has none.
    if args.online || args.max_requests.is_some() || args.robustness {
        return Err(usage("--online and --max-requests evaluate labeled cases; pass --labels"));
    }
    let max_runtime_ms: u64 = match parsed(&args.max_runtime_ms) {
        Ok(Some(ms)) => ms,
        Ok(None) => default_runtime_ms,
        Err(_) => return Err(usage("Invalid --max-runtime-ms: must be a positive integer")),
    };
    let per_case_timeout_ms: Option<u64> = match parsed(&args.timeout_ms) {
        Ok(ms) => ms,
        Err(_) => return Err(usage("Invalid --timeout-ms: must be a positive integer")),
    };
    let config = BatchConfig {
        max_requests: None,
        max_runtime_ms,
        per_case_timeout_ms,
        online: false,
        allow_network: args.allow_network,
        evidence_origin: EvidenceOrigin::Recorded,
        policy: None,
        compare_policy: None,
    };
    assert(config == replay_config(*args, default_runtime_ms));
    match validate_batch_config(&config) {
        Ok(_) => Ok(EvalPlan::Replay { config }),
        Err(e) => Err(EvalRefusal::Config(e)),
    }
}

/// A live batch needs network consent and a credential, before any input is
/// read.
pub fn live_authorized(consented: bool, credential: bool) -> (r: Result<(), Failure>)
    ensures
        r is Ok <==> consented && credential,
        r is Err ==> failure_view(r->Err_0) == if !consented {
            (
                8u8,
                "network-denied"@,
                "A live batch needs --allow-network or trusted network authorization"@,
            )
        } else {
            (
                4u8,
                "credential-absent"@,
                "A live batch needs your own TypeSafe API key in TYPESAFE_API_KEY"@,
            )
        },
{
    if !consented {
        return Err(
            failure(
                8,
                "network-denied",
                "A live batch needs --allow-network or trusted network authorization",
            ),
        );
    }
    if !credential {
        return Err(
            failure(
                4,
                "credential-absent",
                "A live batch needs your own TypeSafe API key in TYPESAFE_API_KEY",
            ),
        );
    }
    Ok(())
}

/// The failure of an evaluation input that cannot be opened.
pub fn input_failure(what: &str) -> (r: Failure)
    ensures
        failure_view(r) == (
            7u8,
            "malformed-input"@,
            "Evaluation "@ + what@ + " must be an accessible authorized regular file"@,
        ),
{
    let mut message: String = "Evaluation ".to_owned();
    message.append(what);
    message.append(" must be an accessible authorized regular file");
    (7, "malformed-input", message)
}

/// Whether a time, and what is kept of it for cleaning up, are those of one case.
pub open spec fn budgeted(
    per_case_ms: u64,
    remaining_ms: u64,
    reserve_ms: u64,
    total: u64,
    kept: u64,
) -> bool {
    &&& total == if per_case_ms <= remaining_ms {
        per_case_ms
    } else {
        remaining_ms
    }
    &&& kept == ({
        let wanted = if reserve_ms <= total / 2 {
            reserve_ms
        } else {
            total / 2
        };
        if wanted >= 1 {
            wanted
        } else {
            1
        }
    })
}

/// The deadline of one case and the part of it kept for cleanup: no case
/// outlasts its batch, and at most half of it is kept.
pub fn case_budget(per_case_ms: u64, remaining_ms: u64, reserve_ms: u64) -> (r: (u64, u64))
    ensures
        budgeted(per_case_ms, remaining_ms, reserve_ms, r.0, r.1),
        r.0 <= remaining_ms,
{
    let total: u64 = if per_case_ms <= remaining_ms {
        per_case_ms
    } else {
        remaining_ms
    };
    let half: u64 = total / 2;
    let kept: u64 = if reserve_ms <= half {
        reserve_ms
    } else {
        half
    };
    let reserve: u64 = if kept >= 1 {
        kept
    } else {
        1
    };
    (total, reserve)
}

/// What stops a live batch before the configuration is loaded, in the order it
/// is looked at.
pub open spec fn live_refusal(deadline_accepted: bool, around: Surroundings) -> Option<
    (u8, Seq<char>, Seq<char>),
> {
    let bad = |message: Seq<char>| Some((2u8, "invalid-configuration"@, message));
    if !deadline_accepted {
        bad("Invalid live batch deadline"@)
    } else if around.variables@.filter(recognized_variable()).len() > around.max_variables {
        bad("Too many environment settings"@)
    } else if !around.has_workspace {
        bad("Workspace is unavailable"@)
    } else if config_root_of(around.xdg_config, around.home) is Err {
        bad(config_root_of(around.xdg_config, around.home)->Err_0)
    } else if around.flag_conflict is Some {
        bad("Conflicting live batch effects"@)
    } else {
        None
    }
}

/// Prepare a live batch: the layers it was given and where the user's
/// configuration is. It takes no setting from its arguments.
pub fn prepare_live(deadline_accepted: bool, around: Surroundings) -> (r: Result<
    (ConfigSources, UserRoot),
    Failure,
>)
    ensures
        refuses(r, live_refusal(deadline_accepted, around)),
        r is Ok ==> {
            let sources = (r->Ok_0).0;
            &&& sources.cli@.len() == 0
            &&& sources.environment@ == around.variables@.filter(recognized_variable())
            &&& sources.trusted_user@.len() == 0
            &&& sources.project@.len() == 0
            &&& (r->Ok_0).1 == config_root_of(around.xdg_config, around.home)->Ok_0
        },
{
    if !deadline_accepted {
        return Err(invalid("Invalid live batch deadline"));
    }
    let mut sources: ConfigSources = ConfigSources::empty();
    sources.environment = match environment_sources(around.variables, around.max_variables) {
        Ok(list) => list,
        Err(f) => return Err(f),
    };
    if !around.has_workspace {
        return Err(invalid("Workspace is unavailable"));
    }
    let root: UserRoot = match user_config_root(around.xdg_config, around.home) {
        Ok(root) => root,
        Err(f) => return Err(f),
    };
    if around.flag_conflict.is_some() {
        return Err(invalid("Conflicting live batch effects"));
    }
    Ok((sources, root))
}

/// Why a live batch may not read its inputs.
pub open spec fn admission_refusal(
    config_loaded: bool,
    consented: bool,
    credential: bool,
) -> Option<(u8, Seq<char>, Seq<char>)> {
    if !config_loaded {
        Some(
            (
                2u8,
                "invalid-configuration"@,
                "The configuration is invalid; run `sr doctor --config`"@,
            ),
        )
    } else if !consented {
        Some(
            (
                8u8,
                "network-denied"@,
                "A live batch needs --allow-network or trusted network authorization"@,
            ),
        )
    } else if !credential {
        Some(
            (
                4u8,
                "credential-absent"@,
                "A live batch needs your own TypeSafe API key in TYPESAFE_API_KEY"@,
            ),
        )
    } else {
        None
    }
}

/// A live batch reads its inputs only under a valid configuration, with network
/// consent and a credential.
pub fn admit_live(config_loaded: bool, consented: bool, credential: bool) -> (r: Result<
    (),
    Failure,
>)
    ensures
        refuses(r, admission_refusal(config_loaded, consented, credential)),
{
    if !config_loaded {
        return Err(invalid("The configuration is invalid; run `sr doctor --config`"));
    }
    live_authorized(consented, credential)
}

/// Whether an argument is absent or a numeral no greater than a bound.
pub open spec fn counts_up_to(argument: Option<String>, max: nat) -> bool {
    argument is Some ==> numeral(argument->0@) is Some && numeral(argument->0@)->0 <= max
}

/// Whether an argument is absent or a numeral from one to a bound.
pub open spec fn counts_from_one_to(argument: Option<String>, max: nat) -> bool {
    argument is Some ==> numeral(argument->0@) is Some && 1 <= numeral(argument->0@)->0 <= max
}

/// An evaluation of labeled cases is accepted exactly where its sample and its seed
/// are numbers and the sample holds a case, and the rest fits its kind: a live batch
/// has a cap on its requests and a runtime within bounds, and the scoring of recorded
/// decisions has neither.
pub proof fn lemma_frames_that_are_accepted(args: EvalArguments, default_runtime_ms: u64)
    requires
        args.dataset is Some,
        args.labels is Some,
    ensures
        eval_refusal(args, default_runtime_ms) is None <==> {
            &&& counts_from_one_to(args.sample_size, u64::MAX as nat)
            &&& counts_up_to(args.seed, u64::MAX as nat)
            &&& args.online ==> {
                &&& args.max_requests is Some
                &&& counts_from_one_to(args.max_requests, u32::MAX as nat)
                &&& counts_from_one_to(args.max_runtime_ms, MAX_BATCH_RUNTIME_MS as nat)
            }
            &&& !args.online ==> {
                &&& args.max_requests is None
                &&& !args.robustness
                &&& args.max_runtime_ms is None
            }
        },
        eval_refusal(args, default_runtime_ms) is Some ==> eval_refusal(args, default_runtime_ms)->0
            is Failure,
{
}

/// A replay is accepted exactly where nothing of a live batch is asked for, its
/// bounds are numbers, and they make a valid configuration. Without a dataset
/// nothing is accepted.
pub proof fn lemma_replays_that_are_accepted(args: EvalArguments, default_runtime_ms: u64)
    ensures
        args.dataset is None ==> eval_refusal(args, default_runtime_ms) is Some,
        args.dataset is Some && args.labels is None ==> (eval_refusal(args, default_runtime_ms)
            is None <==> {
            &&& !args.online && args.max_requests is None && !args.robustness
            &&& counts_up_to(args.max_runtime_ms, u64::MAX as nat)
            &&& counts_up_to(args.timeout_ms, u64::MAX as nat)
            &&& config_refusal(replay_config(args, default_runtime_ms)) is None
        }),
{
}

/// An accepted evaluation is what was asked for: a replay without labels, else a
/// live batch where it is to go online, else the scoring of recorded decisions. Its
/// numbers are those that were given, each in its own place, and a runtime that was
/// not given is the default.
pub proof fn lemma_plan_holds_what_was_asked(args: EvalArguments, default_runtime_ms: u64)
    requires
        eval_refusal(args, default_runtime_ms) is None,
    ensures
        ({
            let plan = plan_of(args, default_runtime_ms);
            &&& plan is Replay <==> args.labels is None
            &&& plan is Live <==> args.labels is Some && args.online
            &&& plan is Frame <==> args.labels is Some && !args.online
            &&& plan is Live ==> numeral(args.max_requests->0@) == Some(
                plan->max_requests as nat,
            )
            &&& plan is Live ==> sampled_as_asked(args, plan->Live_sampling)
            &&& plan is Live && args.max_runtime_ms is None ==> plan->max_runtime_ms
                == default_runtime_ms
            &&& plan is Live && args.max_runtime_ms is Some ==> numeral(args.max_runtime_ms->0@)
                == Some(plan->max_runtime_ms as nat)
            &&& plan is Frame ==> sampled_as_asked(args, plan->Frame_sampling)
            &&& plan is Replay ==> {
                let config = plan->config;
                &&& !config.online && config.max_requests is None
                &&& config.evidence_origin is Recorded
                &&& config.allow_network == args.allow_network
                &&& args.max_runtime_ms is None ==> config.max_runtime_ms == default_runtime_ms
                &&& args.max_runtime_ms is Some ==> numeral(args.max_runtime_ms->0@) == Some(
                    config.max_runtime_ms as nat,
                )
                &&& args.timeout_ms is None <==> config.per_case_timeout_ms is None
                &&& args.timeout_ms is Some ==> numeral(args.timeout_ms->0@) == Some(
                    config.per_case_timeout_ms->0 as nat,
                )
            }
        }),
{
}

/// Whether a sampling is the one that was asked for.
pub open spec fn sampled_as_asked(
    args: EvalArguments,
    sampling: Option<FrameSampling>,
) -> bool {
    &&& sampling is Some <==> args.sample_size is Some
    &&& sampling is Some && numeral(args.sample_size->0@)->0 <= usize::MAX ==> numeral(
        args.sample_size->0@,
    ) == Some(sampling->0.sample_size as nat)
    &&& sampling is Some ==> (sampling->0.seed is Some <==> args.seed is Some)
    &&& sampling is Some && args.seed is Some ==> numeral(args.seed->0@) == Some(
        sampling->0.seed->0 as nat,
    )
}

/// A live batch is admitted exactly with a configuration, consent to the network and
/// a credential. Consent is missed before a credential is.
pub proof fn lemma_live_batches_that_are_admitted(
    config_loaded: bool,
    consented: bool,
    credential: bool,
)
    ensures
        ({
            let refusal = admission_refusal(config_loaded, consented, credential);
            &&& refusal is None <==> config_loaded && consented && credential
            &&& !config_loaded ==> (refusal->0).0 == 2
            &&& config_loaded && !consented ==> (refusal->0).0 == 8 && (refusal->0).1
                == "network-denied"@
            &&& config_loaded && consented && !credential ==> (refusal->0).0 == 4 && (refusal->0).1
                == "credential-absent"@
        }),
{
}

/// A refusal says one thing alone: a failure its code, its kind and its message,
/// and an invalid configuration the field that is invalid.
pub proof fn lemma_refusals_say_one_thing(refusal: EvalRefusal, view: RefusalView)
    requires
        refusal_says(refusal, view),
    ensures
        refusal is Failure <==> view is Failure,
        refusal is Failure ==> {
            let f = refusal->Failure_0;
            view->Failure_0 == f.0 && view->Failure_1 == f.1@ && view->Failure_2 == f.2@
        },
        refusal is Config ==> refusal->Config_0 is InvalidField
            && refusal->Config_0->InvalidField_0@ == view->Config_0,
{
}

/// A live batch goes ahead exactly where its deadline is accepted, its settings are
/// not too many, it has a workspace and a directory, and no effects contradict each
/// other.
pub proof fn lemma_surroundings_of_a_live_batch(deadline_accepted: bool, around: Surroundings)
    ensures
        live_refusal(deadline_accepted, around) is None <==> {
            &&& deadline_accepted
            &&& around.variables@.filter(recognized_variable()).len() <= around.max_variables
            &&& around.has_workspace
            &&& config_root_of(around.xdg_config, around.home) is Ok
            &&& around.flag_conflict is None
        },
        live_refusal(deadline_accepted, around) is Some ==> (live_refusal(
            deadline_accepted,
            around,
        )->0).0 == 2,
{
}

/// A case has the time asked for it or what is left, whichever is less. What is kept
/// of it is the reserve, but no more than half of it, and never nothing.
pub proof fn lemma_time_of_a_case(
    per_case_ms: u64,
    remaining_ms: u64,
    reserve_ms: u64,
    total: u64,
    kept: u64,
)
    requires
        budgeted(per_case_ms, remaining_ms, reserve_ms, total, kept),
    ensures
        total <= per_case_ms && total <= remaining_ms,
        total == per_case_ms || total == remaining_ms,
        kept >= 1,
        kept <= reserve_ms || kept == 1,
        total >= 2 ==> 2 * kept <= total,
        1 <= reserve_ms && 2 * reserve_ms <= total ==> kept == reserve_ms,
        2 * reserve_ms > total && total >= 2 ==> 2 * kept + 1 >= total,
{
}

} // verus!
