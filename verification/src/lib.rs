//! The decisions of SkillRanker's command line and of its evaluation, with
//! contracts that say exactly what each of them answers.
//!
//! `cli` holds what a command is given, refuses and says. `evaluation` holds how
//! cases are read, sampled, ranked, scored, compared and explained. The other
//! modules hold what both are written in: texts, JSON and TOML values, digests,
//! counts, and numbers carried by their bits.

pub mod cli;
pub mod digest;
pub mod evaluation;
pub mod json;
pub mod score;
pub mod tally;
pub mod text;
pub mod toml_value;
