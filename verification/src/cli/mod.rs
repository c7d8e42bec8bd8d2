//! The commands of `sr`: what each is given, when it is refused and why, and
//! what it says.

pub mod args;
pub mod config;
pub mod doctor;
pub mod eval;
pub mod failure;
pub mod feedback;
pub mod grammar;
pub mod hook;
pub mod ledger;
pub mod live_case;
pub mod observe;
pub mod rank;
pub mod recorded;
pub mod roster;
pub mod routing;
pub mod stats;
