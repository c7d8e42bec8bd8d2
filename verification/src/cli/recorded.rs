//! Replaying a saved case, and the built-in demonstrations.

use crate::cli::failure::{failure, failure_view, late_refusal, refuses, timely, Failure};
use vstd::prelude::*;
use vstd::string::*;

verus! {

/// What stops a replay before its case is read.
pub open spec fn replay_plan_refusal(admits_work: bool, case_file: Option<String>) -> Option<
    (u8, Seq<char>, Seq<char>),
> {
    if !admits_work {
        Some(late_refusal())
    } else if case_file is None {
        Some((2u8, "invalid-usage"@, "Missing required case file"@))
    } else {
        None
    }
}

/// Find the case to replay.
pub fn plan_replay(admits_work: bool, case_file: Option<String>) -> (r: Result<String, Failure>)
    ensures
        refuses(r, replay_plan_refusal(admits_work, case_file)),
        r is Ok ==> case_file == Some(r->Ok_0),
{
    match timely(admits_work) {
        Ok(_) => {},
        Err(f) => return Err(f),
    }
    match case_file {
        Some(file) => Ok(file),
        None => Err(failure(2, "invalid-usage", "Missing required case file")),
    }
}

/// What stops a replay whose inputs were read: the case before its policy, and
/// that before the one it is compared with.
pub open spec fn replay_refusal(
    case: Result<(), Failure>,
    policy: Option<Result<(), Failure>>,
    compared: Option<Result<(), Failure>>,
) -> Option<(u8, Seq<char>, Seq<char>)> {
    if case is Err {
        Some(failure_view(case->Err_0))
    } else if policy is Some && policy->0 is Err {
        Some(failure_view(policy->0->Err_0))
    } else if compared is Some && compared->0 is Err {
        Some(failure_view(compared->0->Err_0))
    } else {
        None
    }
}

/// Whether the inputs of a replay can all be used.
pub fn replay_inputs(
    case: Result<(), Failure>,
    policy: Option<Result<(), Failure>>,
    compared: Option<Result<(), Failure>>,
) -> (r: Result<(), Failure>)
    ensures
        refuses(r, replay_refusal(case, policy, compared)),
{
    match case {
        Ok(_) => {},
        Err(f) => return Err(f),
    }
    match policy {
        Some(Err(f)) => return Err(f),
        _ => {},
    }
    match compared {
        Some(Err(f)) => Err(f),
        _ => Ok(()),
    }
}

/// What stops a demonstration before it is shown.
pub open spec fn demo_refusal(admits_work: bool, case: Option<String>, known: bool) -> Option<
    (u8, Seq<char>, Seq<char>),
> {
    if !admits_work {
        Some(late_refusal())
    } else if case is None {
        Some((2u8, "invalid-usage"@, "Missing required argument --case"@))
    } else if !known {
        Some((2u8, "invalid-usage"@, "Unknown demo case: "@ + case->0@))
    } else {
        None
    }
}

/// Find the demonstration to show. `known` says whether there is one of that
/// name.
pub fn plan_demo(admits_work: bool, case: Option<String>, known: bool) -> (r: Result<
    String,
    Failure,
>)
    ensures
        refuses(r, demo_refusal(admits_work, case, known)),
        r is Ok ==> case == Some(r->Ok_0),
{
    match timely(admits_work) {
        Ok(_) => {},
        Err(f) => return Err(f),
    }
    match case {
        None => Err(failure(2, "invalid-usage", "Missing required argument --case")),
        Some(name) => if known {
            Ok(name)
        } else {
            let mut message: String = "Unknown demo case: ".to_owned();
            message.append(name.as_str());
            Err((2, "invalid-usage", message))
        },
    }
}

/// A replay goes ahead exactly where there is time for it and a case is given, and a
/// demonstration where there is time and a known one is named.
pub proof fn lemma_what_goes_ahead(admits_work: bool, case: Option<String>, known: bool)
    ensures
        replay_plan_refusal(admits_work, case) is None <==> admits_work && case is Some,
        demo_refusal(admits_work, case, known) is None <==> admits_work && case is Some && known,
        !admits_work ==> (replay_plan_refusal(admits_work, case)->0).0 == 6 && (demo_refusal(
            admits_work,
            case,
            known,
        )->0).0 == 6,
        admits_work && case is None ==> (replay_plan_refusal(admits_work, case)->0).0 == 2 && (
        demo_refusal(admits_work, case, known)->0).0 == 2,
        admits_work && case is Some && !known ==> (demo_refusal(admits_work, case, known)->0).0
            == 2,
{
}

/// A replay whose inputs were read goes ahead exactly where all that were given can be
/// used; the case is missed first, then its policy, then the one it is compared with.
pub proof fn lemma_replays_need_all_their_inputs(
    case: Result<(), Failure>,
    policy: Option<Result<(), Failure>>,
    compared: Option<Result<(), Failure>>,
)
    ensures
        ({
            let refusal = replay_refusal(case, policy, compared);
            let policy_fails = policy is Some && policy->0 is Err;
            let compared_fails = compared is Some && compared->0 is Err;
            &&& refusal is None <==> case is Ok && !policy_fails && !compared_fails
            &&& case is Err ==> refusal == Some(
                (case->Err_0.0, case->Err_0.1@, case->Err_0.2@),
            )
            &&& case is Ok && policy_fails ==> (refusal->0).2 == policy->0->Err_0.2@
            &&& case is Ok && !policy_fails && compared_fails ==> (refusal->0).2
                == compared->0->Err_0.2@
        }),
{
}

} // verus!
