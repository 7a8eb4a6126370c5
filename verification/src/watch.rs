//! What a change noticed in the config directories amounts to.
//!
//! Every writer here -- this daemon, `vim`, `install`, `mv` -- replaces a file by renaming a
//! new one over it, so the watch is on the directories rather than the files, and an event
//! names a file *in* a directory. An editor's swapfile lands in the same events, which is why
//! the names are checked against the files the daemon knows. An event with no name is about
//! the watch rather than a file in it: the directory going away, or events having been
//! dropped, puts every file in doubt; the kernel's note that a watch was removed -- which the
//! daemon causes itself every time it drops the parent watch -- puts none in doubt.
//!
//! The watch itself, and the waiting for a burst of events to go quiet, are the program's.
use vstd::prelude::*;

use crate::paths::{file_named, spec_all, spec_file_name, File};

verus! {

/// One event the watch reported.
#[derive(Debug)]
pub struct Event {
    /// The name of the file in the watched directory it is about, if any.
    pub name: Option<String>,
    /// For an event with no name: whether it says the directory is gone or that events were
    /// lost (`DELETE_SELF`, `MOVE_SELF`, `UNMOUNT`, `QUEUE_OVERFLOW`).
    pub everything: bool,
}

/// Whether an event puts a file in doubt: it names the file, or it is nameless and puts
/// everything in doubt.
pub open spec fn touches(event: Event, file: File) -> bool {
    match event.name {
        Some(name) => name@ == spec_file_name(file),
        None => event.everything,
    }
}

/// Whether any of the events puts a file in doubt.
pub open spec fn touched(events: Seq<Event>, file: File) -> bool {
    exists|i: int| 0 <= i < events.len() && touches(#[trigger] events[i], file)
}

/// The files a burst of events puts in doubt, each once, in file order.
pub open spec fn spec_changed_files(events: Seq<Event>) -> Seq<File> {
    spec_all().filter(|file: File| touched(events, file))
}

/// The files a burst of events puts in doubt, each once, in file order.
pub fn changed_files(events: &[Event]) -> (r: Vec<File>)
    ensures
        r@ == spec_changed_files(events@),
{
    proof {
        crate::paths::lemma_files();
    }
    let mut hit: Vec<bool> = Vec::new();
    let mut k: usize = 0;
    while k < crate::paths::FILE_COUNT
        invariant
            k <= crate::paths::FILE_COUNT,
            hit@.len() == k,
            forall|j: int| 0 <= j < k ==> !hit@[j],
        decreases crate::paths::FILE_COUNT - k,
    {
        hit.push(false);
        k = k + 1;
    }
    let mut i: usize = 0;
    while i < events.len()
        invariant
            i <= events@.len(),
            hit@.len() == crate::paths::FILE_COUNT,
            spec_all().len() == crate::paths::FILE_COUNT,
            forall|j: int|
                0 <= j < crate::paths::FILE_COUNT ==> (hit@[j] <==> exists|m: int|
                    0 <= m < i && touches(#[trigger] events@[m], spec_all()[j])),
        decreases events@.len() - i,
    {
        let event = &events[i];
        match &event.name {
            Some(name) => {
                match file_named(name.as_str()) {
                    Some(file) => {
                        proof {
                            crate::paths::lemma_files();
                        }
                        hit.set(file.index(), true);
                        proof {
                            assert forall|j: int|
                                0 <= j < crate::paths::FILE_COUNT implies (hit@[j] <==> exists|m: int|
                                    0 <= m < i + 1 && touches(#[trigger] events@[m], spec_all()[j])) by {
                                if touches(events@[i as int], spec_all()[j]) {
                                    assert(spec_file_name(spec_all()[j]) == spec_file_name(file));
                                    assert(spec_all()[j] == file) by {
                                        lemma_file_name_names_one(spec_all()[j], file);
                                    }
                                }
                            }
                        }
                    },
                    None => {
                        proof {
                            assert forall|j: int|
                                0 <= j < crate::paths::FILE_COUNT implies (hit@[j] <==> exists|m: int|
                                    0 <= m < i + 1 && touches(#[trigger] events@[m], spec_all()[j])) by {
                                assert(!touches(events@[i as int], spec_all()[j]));
                            }
                        }
                    },
                }
            },
            None => {
                if event.everything {
                    let mut j: usize = 0;
                    while j < crate::paths::FILE_COUNT
                        invariant
                            j <= crate::paths::FILE_COUNT,
                            hit@.len() == crate::paths::FILE_COUNT,
                            forall|m: int| 0 <= m < j ==> hit@[m],
                            forall|m: int|
                                j <= m < crate::paths::FILE_COUNT ==> (hit@[m] <==> exists|e: int|
                                    0 <= e < i && touches(#[trigger] events@[e], spec_all()[m])),
                        decreases crate::paths::FILE_COUNT - j,
                    {
                        hit.set(j, true);
                        j = j + 1;
                    }
                }
                proof {
                    assert forall|j: int|
                        0 <= j < crate::paths::FILE_COUNT implies (hit@[j] <==> exists|m: int|
                            0 <= m < i + 1 && touches(#[trigger] events@[m], spec_all()[j])) by {
                        if event.everything {
                            assert(touches(events@[i as int], spec_all()[j]));
                        }
                    }
                }
            },
        }
        i = i + 1;
    }
    let files = crate::paths::all();
    let mut out: Vec<File> = Vec::new();
    let mut k: usize = 0;
    proof {
        reveal(Seq::filter);
        assert(spec_all().subrange(0, 0) =~= Seq::<File>::empty());
    }
    while k < files.len()
        invariant
            files@ == spec_all(),
            files@.len() == crate::paths::FILE_COUNT,
            hit@.len() == crate::paths::FILE_COUNT,
            k <= files@.len(),
            forall|j: int|
                0 <= j < crate::paths::FILE_COUNT ==> (hit@[j] <==> touched(events@, spec_all()[j])),
            out@ == spec_all().subrange(0, k as int).filter(|file: File| touched(events@, file)),
        decreases files@.len() - k,
    {
        proof {
            crate::schema::lemma_filter_push(
                spec_all().subrange(0, k as int),
                |file: File| touched(events@, file),
                spec_all()[k as int],
            );
            assert(spec_all().subrange(0, k as int).push(spec_all()[k as int]) =~= spec_all().subrange(
                0,
                k + 1,
            ));
        }
        if hit[k] {
            out.push(files[k]);
        }
        k = k + 1;
    }
    proof {
        assert(spec_all().subrange(0, crate::paths::FILE_COUNT as int) =~= spec_all());
    }
    out
}

/// No two files have the same name.
proof fn lemma_file_name_names_one(a: File, b: File)
    requires
        spec_file_name(a) == spec_file_name(b),
    ensures
        a == b,
{
    crate::paths::lemma_files();
    let na = crate::paths::spec_namespace(a);
    let nb = crate::paths::spec_namespace(b);
    assert(spec_file_name(a) == na + ".toml"@);
    assert(spec_file_name(b) == nb + ".toml"@);
    reveal_strlit(".toml");
    assert(na.len() == nb.len());
    assert(na =~= spec_file_name(a).subrange(0, na.len() as int));
    assert(nb =~= spec_file_name(b).subrange(0, nb.len() as int));
}

/// What to do with the watch on the user directory's parent after re-attaching the watches.
#[derive(Debug, Clone, Copy, PartialEq, Eq, Structural)]
pub enum ParentWatch {
    /// The user directory is watched: the parent has nothing left to tell, so drop its watch.
    Drop,
    /// The user directory does not exist and nothing is waiting for it: watch the parent so
    /// its appearing is noticed.
    Add,
    /// Leave things as they are.
    Keep,
}

/// What to do with the parent watch, given whether the user directory is now watched and
/// whether the parent is. The parent -- every application's config directory -- is busy, so
/// it is watched only while the user directory is missing.
pub fn parent_watch(user_watched: bool, parent_watched: bool) -> (r: ParentWatch)
    ensures
        r == (if user_watched && parent_watched {
            ParentWatch::Drop
        } else if !user_watched && !parent_watched {
            ParentWatch::Add
        } else {
            ParentWatch::Keep
        }),
{
    if user_watched && parent_watched {
        ParentWatch::Drop
    } else if !user_watched && !parent_watched {
        ParentWatch::Add
    } else {
        ParentWatch::Keep
    }
}

/// What the last step of waiting for a burst saw.
#[derive(Debug, Clone, Copy, PartialEq, Eq, Structural)]
pub enum Polled {
    /// Nothing yet: the wait has just begun, with whatever was already pending gathered.
    Started,
    /// The watch woke after waiting indefinitely.
    Woke,
    /// More events arrived within the quiet period.
    MoreArrived,
    /// The quiet period passed with nothing new.
    WentQuiet,
}

/// What waiting for a burst does next.
#[derive(Debug, Clone, Copy, PartialEq, Eq, Structural)]
pub enum WaitStep {
    /// Nothing is gathered: wait, for as long as it takes, for something to happen.
    Block,
    /// Gather what arrived, then wait out the quiet period for more.
    Settle,
    /// The directories went quiet: the burst is over, and what was gathered is the answer.
    Answer,
}

/// What waiting for a burst does next, given what the last step saw and whether anything has
/// been gathered. A save is several events, and should be one answer: the burst is over only
/// when a whole quiet period passes with nothing new. Events already pending when the wait
/// begins are not waited for a second time.
pub fn wait_step(polled: Polled, gathered_any: bool) -> (r: WaitStep)
    ensures
        r == match polled {
            Polled::Started => if gathered_any {
                WaitStep::Settle
            } else {
                WaitStep::Block
            },
            Polled::Woke | Polled::MoreArrived => WaitStep::Settle,
            Polled::WentQuiet => WaitStep::Answer,
        },
{
    match polled {
        Polled::Started => if gathered_any {
            WaitStep::Settle
        } else {
            WaitStep::Block
        },
        Polled::Woke | Polled::MoreArrived => WaitStep::Settle,
        Polled::WentQuiet => WaitStep::Answer,
    }
}

} // verus!
