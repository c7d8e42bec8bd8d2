# SkillRanker

SkillRanker ranks the next step of an agent session and evaluates how well it
ranks. This crate is the part of it that decides: it is written in Verus, and
every function carries a contract that says what it returns.

- `src/cli/` holds the commands of `sr`: which arguments are accepted, in which
  order refusals are looked at, and the texts and documents that are answered.
- `src/evaluation/` holds evaluation: reading and sampling a frame, scheduling a
  live batch within its budget, scoring, baselines, review queues and
  explanations.
- `src/json.rs`, `src/toml_value.rs`, `src/digest.rs` and `src/text.rs` hold the
  contracts of the outside functions that the library calls.
- `tests/` runs the library on concrete values.
- `app/` is ordinary Rust around it: the command-line parser, files, streams and
  the clock. The other parts of the product (the ledger, the provider pipeline,
  the roster, the installer) are reached through its trait `Services`.

Numbers with a fraction are carried by their bits (`score.rs`): the library
compares them and never computes one.
