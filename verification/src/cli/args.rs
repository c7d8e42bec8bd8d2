//! What is read off the raw arguments before they are parsed, and off an
//! output after it was written. An argument that is not Unicode is `None`.

use crate::evaluation::report::opt_view;
use crate::json;
use crate::json::{json_of, parsed_json, Json};
use crate::text;
use serde_json::Value;
use vstd::prelude::*;
use vstd::string::*;

verus! {

/// Whether an argument is a given text.
pub open spec fn is_text(arg: Option<String>, s: Seq<char>) -> bool {
    arg is Some && arg->0@ == s
}

/// Whether an argument is a positional one: Unicode, and no flag.
pub open spec fn is_positional(arg: Option<String>) -> bool {
    arg is Some && !text::has_prefix(arg->0@, "-"@)
}

/// Whether a place holds the first positional argument after the program name.
pub open spec fn first_positional(args: Seq<Option<String>>, i: int) -> bool {
    &&& 1 <= i < args.len()
    &&& is_positional(args[i])
    &&& forall|j: int| 1 <= j < i ==> !is_positional(#[trigger] args[j])
}

/// Whether the arguments call the hook of a harness: the first positional
/// argument is `hook`, and what follows it directly names the harness.
pub open spec fn calls_hook(args: Seq<Option<String>>, harness: Seq<char>) -> bool {
    exists|i: int|
        #[trigger] first_positional(args, i) && is_text(args[i], "hook"@) && i + 1 < args.len()
            && is_text(args[i + 1], harness)
}

fn arg_is(arg: &Option<String>, s: &str) -> (r: bool)
    ensures
        r == is_text(*arg, s@),
{
    match arg {
        Some(a) => text::eq(a.as_str(), s),
        None => false,
    }
}

/// Whether the arguments call the hook of a harness.
pub fn is_hook_claude_invocation(args: &Vec<Option<String>>, harness: &str) -> (r: bool)
    ensures
        r == calls_hook(args@, harness@),
{
    let mut i: usize = 1;
    while i < args.len()
        invariant
            1 <= i,
            forall|j: int| 1 <= j < i && j < args@.len() ==> !is_positional(#[trigger] args@[j]),
        decreases args@.len() - i,
    {
        if let Some(arg) = &args[i] {
            if !text::starts_with(arg.as_str(), "-") {
                assert(first_positional(args@, i as int));
                assert(forall|k: int| #[trigger] first_positional(args@, k) ==> k == i) by {
                    assert forall|k: int| #[trigger] first_positional(args@, k) implies k == i by {
                        if k < i {
                            assert(is_positional(args@[k]));
                        } else if k > i {
                            assert(!is_positional(args@[i as int]));
                        }
                    }
                }
                return text::eq(arg.as_str(), "hook") && i + 1 < args.len() && arg_is(
                    &args[i + 1],
                    harness,
                );
            }
        }
        i = i + 1;
    }
    false
}

/// Whether any argument is a given text.
pub open spec fn mentioned(args: Seq<Option<String>>, s: Seq<char>) -> bool {
    exists|i: int| 0 <= i < args.len() && is_text(#[trigger] args[i], s)
}

/// Whether any argument is a given text.
pub fn mentions(args: &Vec<Option<String>>, s: &str) -> (r: bool)
    ensures
        r == mentioned(args@, s@),
{
    let mut i: usize = 0;
    while i < args.len()
        invariant
            i <= args@.len(),
            forall|j: int| 0 <= j < i ==> !is_text(#[trigger] args@[j], s@),
        decreases args@.len() - i,
    {
        if arg_is(&args[i], s) {
            return true;
        }
        i = i + 1;
    }
    false
}

/// Whether help was asked for anywhere.
pub fn asks_help(args: &Vec<Option<String>>) -> (r: bool)
    ensures
        r == (mentioned(args@, "--help"@) || mentioned(args@, "-h"@)),
{
    mentions(args, "--help") || mentions(args, "-h")
}

/// Whether the entry of an invocation is counted.
pub open spec fn counted_entry(args: Seq<Option<String>>, harness: Seq<char>) -> bool {
    calls_hook(args, harness) && !mentioned(args, "--help"@) && !mentioned(args, "-h"@)
        && !mentioned(args, "--no-ledger"@) && !mentioned(args, "--no-persist"@)
}

/// Whether a hook invocation is counted beside the ledger: the same flags that
/// keep the hook out of the ledger keep it out of the counter, and help counts
/// for nothing.
pub fn counts_hook_entry(args: &Vec<Option<String>>, harness: &str) -> (r: bool)
    ensures
        r == counted_entry(args@, harness@),
{
    is_hook_claude_invocation(args, harness) && !asks_help(args) && !mentions(args, "--no-ledger")
        && !mentions(args, "--no-persist")
}

/// Where the arguments name a ledger directory.
#[derive(Clone, Debug, PartialEq, Eq)]
pub enum DirArgument {
    /// The argument at this place, which follows `--dir`.
    At(usize),
    /// The text behind `--dir=`.
    Text(String),
}

/// What a directory argument says.
pub enum DirView {
    At(int),
    Text(Seq<char>),
}

/// What the argument at a place says of the directory.
pub open spec fn dir_at(args: Seq<Option<String>>, i: int) -> Option<DirView> {
    if is_text(args[i], "--dir"@) {
        if i + 1 < args.len() {
            Some(DirView::At(i + 1))
        } else {
            None
        }
    } else if args[i] is Some && text::has_prefix(args[i]->0@, "--dir="@) {
        Some(DirView::Text(args[i]->0@.skip("--dir="@.len() as int)))
    } else {
        None
    }
}

/// What the first argument from a place on that speaks of it says of the
/// directory.
pub open spec fn dir_from(args: Seq<Option<String>>, i: int) -> Option<DirView>
    decreases args.len() - i,
{
    if i >= args.len() {
        None
    } else {
        match dir_at(args, i) {
            Some(dir) => Some(dir),
            None => dir_from(args, i + 1),
        }
    }
}

/// What a directory argument says.
pub open spec fn dir_view(dir: Option<DirArgument>) -> Option<DirView> {
    match dir {
        Some(DirArgument::At(i)) => Some(DirView::At(i as int)),
        Some(DirArgument::Text(s)) => Some(DirView::Text(s@)),
        None => None,
    }
}

/// The ledger directory that the arguments name.
pub fn try_extract_dir(args: &Vec<Option<String>>) -> (r: Option<DirArgument>)
    ensures
        dir_view(r) == dir_from(args@, 0),
{
    let mut i: usize = 0;
    while i < args.len()
        invariant
            i <= args@.len(),
            dir_from(args@, 0) == dir_from(args@, i as int),
        decreases args@.len() - i,
    {
        if let Some(arg) = &args[i] {
            if text::eq(arg.as_str(), "--dir") {
                if i + 1 < args.len() {
                    return Some(DirArgument::At(i + 1));
                }
            } else {
                if let Some(rest) = text::strip_prefix(arg.as_str(), "--dir=") {
                    return Some(DirArgument::Text(rest));
                }
            }
        }
        i = i + 1;
    }
    None
}

/// The event a document names: its own, or that of its local decision.
pub open spec fn event_of(document: Json) -> Option<Seq<char>> {
    match document.member("event_id"@).text() {
        Some(id) => Some(id),
        None => document.member("local_decision"@).member("event_id"@).text(),
    }
}

/// The event an output names, where it is a JSON document.
pub open spec fn emitted_event(output: Seq<char>) -> Option<Seq<char>> {
    let body = text::trimmed(false, output);
    if text::has_prefix(body, "{"@) && parsed_json(body) is Some {
        event_of(parsed_json(body)->0)
    } else {
        None
    }
}

/// The event a document names.
pub fn document_event(document: &Value) -> (r: Option<String>)
    ensures
        opt_view(r) == event_of(json_of(*document)),
{
    if let Some(id) = json::member_text(document, "event_id") {
        return Some(id.to_owned());
    }
    match json::get(document, "local_decision") {
        Some(local) => match json::member_text(local, "event_id") {
            Some(id) => Some(id.to_owned()),
            None => None,
        },
        None => None,
    }
}

/// The event an output names.
pub fn try_extract_event_id(output: &str) -> (r: Option<String>)
    ensures
        opt_view(r) == emitted_event(output@),
{
    let body: String = text::trim(false, output);
    if !text::starts_with(body.as_str(), "{") {
        return None;
    }
    match json::parse(body.as_str()) {
        Some(document) => document_event(&document),
        None => None,
    }
}

/// The directory that is given is the first: that of the argument behind the flag, or
/// what follows the flag and a sign of equality in one argument.
pub proof fn lemma_first_directory_is_used(args: Seq<Option<String>>, i: int)
    requires
        0 <= i < args.len(),
        forall|j: int|
            0 <= j < i ==> (#[trigger] args[j]) is None || args[j]->0@ != "--dir"@
                && !text::has_prefix(args[j]->0@, "--dir="@),
    ensures
        args[i] is Some && args[i]->0@ == "--dir"@ && i + 1 < args.len() ==> dir_from(args, 0)
            == Some(DirView::At(i + 1)),
        args[i] is Some && text::has_prefix(args[i]->0@, "--dir="@) ==> dir_from(args, 0) == Some(
            DirView::Text(args[i]->0@.skip(6)),
        ),
        i == args.len() - 1 && (args[i] is None || args[i]->0@ == "--dir"@ || !text::has_prefix(
            args[i]->0@,
            "--dir="@,
        )) ==> dir_from(args, 0) is None,
{
    reveal_strlit("--dir");
    reveal_strlit("--dir=");
    assert("--dir"@.len() == 5 && "--dir="@.len() == 6);
    lemma_no_directory_before(args, i, i);
    if i == args.len() - 1 {
        assert(dir_from(args, i + 1) is None);
    }
}

proof fn lemma_no_directory_before(args: Seq<Option<String>>, i: int, k: int)
    requires
        0 <= k <= i < args.len(),
        forall|j: int|
            0 <= j < i ==> (#[trigger] args[j]) is None || args[j]->0@ != "--dir"@
                && !text::has_prefix(args[j]->0@, "--dir="@),
    ensures
        dir_from(args, i - k) == dir_from(args, i),
    decreases k,
{
    if k > 0 {
        lemma_no_directory_before(args, i, k - 1);
        assert(args[i - k] is None || args[i - k]->0@ != "--dir"@);
    }
}

/// The event of an output is that of its document, else that of the local decision in
/// it. What is no document has none.
pub proof fn lemma_which_event_was_emitted(document: Json, output: Seq<char>)
    ensures
        ({
            let own = document.member("event_id"@).text();
            let local = document.member("local_decision"@).member("event_id"@).text();
            &&& own is Some ==> event_of(document) == own
            &&& own is None ==> event_of(document) == local
        }),
        parsed_json(text::trimmed(false, output)) is None ==> emitted_event(output) is None,
        emitted_event(output) is Some ==> emitted_event(output) == event_of(
            parsed_json(text::trimmed(false, output))->0,
        ),
{
}

/// An invocation is that of a hook exactly where the first argument that is no flag
/// is the hook and the next names the harness.
pub proof fn lemma_which_invocations_are_hooks(
    args: Seq<Option<String>>,
    harness: Seq<char>,
    i: int,
)
    requires
        first_positional(args, i),
    ensures
        calls_hook(args, harness) <==> {
            &&& args[i]->0@ == "hook"@
            &&& i + 1 < args.len()
            &&& args[i + 1] is Some
            &&& args[i + 1]->0@ == harness
        },
{
    assert forall|k: int| #[trigger] first_positional(args, k) implies k == i by {
        if k < i {
            assert(is_positional(args[k]));
        } else if i < k {
            assert(is_positional(args[i]));
        }
    }
}

/// Only the entry of a hook is counted, and not where it only shows its help or is to
/// leave no trace.
pub proof fn lemma_which_entries_are_counted(
    args: Seq<Option<String>>,
    harness: Seq<char>,
    i: int,
)
    ensures
        counted_entry(args, harness) ==> calls_hook(args, harness),
        0 <= i < args.len() && args[i] is Some && (args[i]->0@ == "--help"@ || args[i]->0@ == "-h"@
            || args[i]->0@ == "--no-ledger"@ || args[i]->0@ == "--no-persist"@) ==> !counted_entry(
            args,
            harness,
        ),
        calls_hook(args, harness) && (forall|j: int|
            0 <= j < args.len() && (#[trigger] args[j]) is Some ==> args[j]->0@ != "--help"@
                && args[j]->0@ != "-h"@ && args[j]->0@ != "--no-ledger"@ && args[j]->0@
                != "--no-persist"@) ==> counted_entry(args, harness),
{
    if 0 <= i < args.len() && args[i] is Some {
        assert(is_text(args[i], args[i]->0@));
        assert(mentioned(args, args[i]->0@));
    }
}

} // verus!
