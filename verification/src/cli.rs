//! The daemon's command line, and what `--check` reports.
//!
//! Four flags is not worth an argument parser. `--check` reads exactly what the daemon reads,
//! so "why is my setting not taking effect" can be answered without starting a daemon or
//! attaching to a bus.
use vstd::prelude::*;

use crate::store::{spec_invalid, spec_sources, Source, Store};
use crate::schema::table::SETTING_COUNT;
use crate::text::{int_text, owned, spec_int_text, str_eq};

verus! {

/// What the command line asks for.
#[derive(Debug, PartialEq, Eq)]
pub enum Command {
    /// Serve: whether to take the name from whoever holds it, whether only to print the schema,
    /// whether only to report on the config files.
    Run { replace: bool, dump_schema: bool, check: bool },
    /// Print the usage.
    Help,
    /// Print the version.
    Version,
    /// An argument nobody asked for.
    Unknown(String),
}

/// What the arguments from position `i` on ask for, given the flags already seen.
pub open spec fn spec_parse_from(
    args: Seq<Seq<char>>,
    i: int,
    replace: bool,
    dump_schema: bool,
    check: bool,
) -> (int, bool, bool, bool)
    decreases args.len() - i,
{
    if i < 0 || i >= args.len() {
        (0, replace, dump_schema, check)
    } else {
        let arg = args[i];
        if arg == "--replace"@ {
            spec_parse_from(args, i + 1, true, dump_schema, check)
        } else if arg == "--dump-schema"@ {
            spec_parse_from(args, i + 1, replace, true, check)
        } else if arg == "--check"@ {
            spec_parse_from(args, i + 1, replace, dump_schema, true)
        } else if arg == "-h"@ || arg == "--help"@ {
            (1, replace, dump_schema, check)
        } else if arg == "-V"@ || arg == "--version"@ {
            (2, replace, dump_schema, check)
        } else {
            (3 + i, replace, dump_schema, check)
        }
    }
}

/// The arguments, as sequences of characters.
pub open spec fn args_view(args: Seq<String>) -> Seq<Seq<char>> {
    args.map_values(|a: String| a@)
}

/// What the arguments after the program's name ask for.
pub fn parse_args(args: &[String]) -> (r: Command)
    ensures
        ({
            let (stop, replace, dump_schema, check) = spec_parse_from(
                args_view(args@),
                0,
                false,
                false,
                false,
            );
            &&& stop == 0 ==> r == Command::Run { replace, dump_schema, check }
            &&& stop == 1 ==> r == Command::Help
            &&& stop == 2 ==> r == Command::Version
            &&& stop >= 3 ==> (r matches Command::Unknown(arg) && arg@ == args@[stop - 3]@)
        }),
{
    let ghost view = args_view(args@);
    let mut replace = false;
    let mut dump_schema = false;
    let mut check = false;
    let mut i: usize = 0;
    while i < args.len()
        invariant
            view == args_view(args@),
            i <= args@.len(),
            spec_parse_from(view, i as int, replace, dump_schema, check) == spec_parse_from(
                view,
                0,
                false,
                false,
                false,
            ),
        decreases args@.len() - i,
    {
        let arg = args[i].as_str();
        assert(view[i as int] == arg@);
        if str_eq(arg, "--replace") {
            replace = true;
        } else if str_eq(arg, "--dump-schema") {
            dump_schema = true;
        } else if str_eq(arg, "--check") {
            check = true;
        } else if str_eq(arg, "-h") || str_eq(arg, "--help") {
            return Command::Help;
        } else if str_eq(arg, "-V") || str_eq(arg, "--version") {
            return Command::Version;
        } else {
            return Command::Unknown(owned(arg));
        }
        i = i + 1;
    }
    Command::Run { replace, dump_schema, check }
}

/// How many of a namespace's settings, among the first `n` of its sources, something sets.
pub open spec fn count_set(sources: Seq<(Seq<char>, Source)>, n: int) -> int
    decreases n,
{
    if n <= 0 {
        0
    } else {
        count_set(sources, n - 1) + if sources[n - 1].1 != Source::Default {
            1int
        } else {
            0int
        }
    }
}

/// The line `--check` prints for one namespace: how many of its settings are set.
pub open spec fn count_line(namespace: Seq<char>, set: int, total: int) -> Seq<char> {
    namespace + ": "@ + spec_int_text(set) + " of "@ + spec_int_text(total) + " settings are set"@
}

/// The line `--check` prints for a broken file.
pub open spec fn broken_line(entry: (Seq<char>, Seq<char>, Seq<char>)) -> Seq<char> {
    entry.0 + ": "@ + entry.1 + " is not valid: "@ + entry.2
}

/// What `--check` reports: when any file will not parse, a line for each, and failure;
/// otherwise, for every namespace, how many of its settings are set, and success.
pub fn check_report(store: &Store) -> (r: (bool, Vec<String>))
    requires
        Store::view_shaped(store@),
    ensures
        ({
            let broken = spec_invalid(store@, crate::paths::FILE_COUNT as int);
            if broken.len() > 0 {
                &&& !r.0
                &&& r.1@.len() == broken.len()
                &&& forall|i: int| 0 <= i < broken.len() ==> (#[trigger] r.1@[i])@ == broken_line(broken[i])
            } else {
                &&& r.0
                &&& r.1@.len() == crate::schema::spec_namespaces().len()
                &&& forall|i: int|
                    0 <= i < r.1@.len() ==> {
                        let ns = crate::schema::spec_namespaces()[i];
                        let sources = spec_sources(store@, ns, SETTING_COUNT as int);
                        (#[trigger] r.1@[i])@ == count_line(ns, count_set(sources, sources.len() as int), sources.len() as int)
                    }
            }
        }),
{
    let broken = store.invalid();
    let ghost want = spec_invalid(store@, crate::paths::FILE_COUNT as int);
    let mut lines: Vec<String> = Vec::new();
    if broken.len() > 0 {
        let mut i: usize = 0;
        while i < broken.len()
            invariant
                broken@.map_values(|e: (&'static str, String, String)| (e.0@, e.1@, e.2@)) == want,
                i <= broken@.len(),
                lines@.len() == i,
                forall|j: int| 0 <= j < i ==> (#[trigger] lines@[j])@ == broken_line(want[j]),
            decreases broken@.len() - i,
        {
            let (namespace, path, message) = &broken[i];
            proof {
                assert(want[i as int] == (namespace@, path@, message@));
            }
            let mut line = owned(namespace);
            line.append(": ");
            line.append(path.as_str());
            line.append(" is not valid: ");
            line.append(message.as_str());
            lines.push(line);
            i = i + 1;
        }
        return (false, lines);
    }
    let names = crate::schema::namespaces();
    let mut k: usize = 0;
    while k < names.len()
        invariant
            Store::view_shaped(store@),
            names@.len() == crate::schema::spec_namespaces().len(),
            forall|j: int| 0 <= j < names@.len() ==> #[trigger] names@[j]@ == crate::schema::spec_namespaces()[j],
            k <= names@.len(),
            lines@.len() == k,
            forall|j: int|
                0 <= j < k ==> {
                    let ns = crate::schema::spec_namespaces()[j];
                    let sources = spec_sources(store@, ns, SETTING_COUNT as int);
                    (#[trigger] lines@[j])@ == count_line(ns, count_set(sources, sources.len() as int), sources.len() as int)
                },
        decreases names@.len() - k,
    {
        let namespace = names[k];
        let sources = store.sources(namespace);
        let ghost sv = sources@.map_values(|p: (&'static str, Source)| (p.0@, p.1));
        let mut set: usize = 0;
        let mut j: usize = 0;
        while j < sources.len()
            invariant
                sv == sources@.map_values(|p: (&'static str, Source)| (p.0@, p.1)),
                j <= sources@.len(),
                set as int == count_set(sv, j as int),
                set <= j,
            decreases sources@.len() - j,
        {
            if sources[j].1 != Source::Default {
                set = set + 1;
            }
            j = j + 1;
        }
        proof {
            assert(sources@.len() <= SETTING_COUNT) by {
                lemma_sources_bounded(store@, namespace@, SETTING_COUNT as int);
            }
        }
        let mut line = owned(namespace);
        line.append(": ");
        let set_text = int_text(set as i64);
        line.append(set_text.as_str());
        line.append(" of ");
        let total_text = int_text(sources.len() as i64);
        line.append(total_text.as_str());
        line.append(" settings are set");
        lines.push(line);
        k = k + 1;
    }
    (true, lines)
}

/// There are no more sources than settings.
proof fn lemma_sources_bounded(s: crate::store::StoreView, namespace: Seq<char>, n: int)
    requires
        0 <= n,
    ensures
        spec_sources(s, namespace, n).len() <= n,
    decreases n,
{
    if n > 0 {
        lemma_sources_bounded(s, namespace, n - 1);
    }
}

} // verus!
