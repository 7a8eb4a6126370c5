//! Telling the owning program that its config changed.
//!
//! Writing the file is only half of applying a setting. The compositor and `wlrix-idle` each
//! drop their pid in a well-known file and re-read their config on `SIGHUP`. Not every owner
//! can be told: the portal has no reload deliberately, and `wlrix-session` reads its config
//! before there is a session.
//!
//! What comes back is an [`Outcome`] per owner rather than a bare success, so a settings panel
//! can say "the compositor is not running; this applies at next login".
//!
//! A crashed compositor leaves its pidfile behind, and pids are recycled, so the pidfile's
//! contents are checked before they are believed, and a pid that cannot be a daemon (`0`
//! signals the whole process group, `1` is init) is never signaled.
//!
//! Reading the pidfile and sending the signal are the caller's: they are handed in as
//! closures, and this module decides what to do with what they answer.
use vstd::prelude::*;

use crate::schema::{spec_pidfile, Owner, Reload};
use crate::text::{join, owned, parse_i32, spec_join, spec_parse_i32, spec_trim, trim};

verus! {

/// What became of a change, from the point of view of whoever has to see it take effect.
#[derive(Debug, Clone, Copy, PartialEq, Eq, Structural)]
pub enum Outcome {
    /// The owner was signaled and re-read its config.
    Applied,
    /// Written, but the owner is not running. It will be read at the next start.
    NotRunning,
    /// Written, but the owner has to be restarted before it takes effect.
    RestartRequired,
    /// Written, and read at the next login.
    NextLogin,
}

pub open spec fn spec_outcome_name(outcome: Outcome) -> Seq<char> {
    match outcome {
        Outcome::Applied => "applied"@,
        Outcome::NotRunning => "not-running"@,
        Outcome::RestartRequired => "restart-required"@,
        Outcome::NextLogin => "next-login"@,
    }
}

impl Outcome {
    pub fn name(self) -> (r: &'static str)
        ensures
            r@ == spec_outcome_name(self),
    {
        match self {
            Outcome::Applied => "applied",
            Outcome::NotRunning => "not-running",
            Outcome::RestartRequired => "restart-required",
            Outcome::NextLogin => "next-login",
        }
    }
}

/// The pid a pidfile's contents name, if they name one that may be signaled: a bare decimal
/// number, whitespace around it allowed, greater than 1.
pub open spec fn spec_parse_pid(text: Seq<char>) -> Option<int> {
    match spec_parse_i32(spec_trim(text)) {
        Some(pid) if pid > 1 => Some(pid),
        _ => None,
    }
}

/// The pid a pidfile's contents name, if it is one.
pub fn parse_pid(text: &str) -> (r: Option<i32>)
    ensures
        match r {
            Some(pid) => spec_parse_pid(text@) == Some(pid as int),
            None => spec_parse_pid(text@) is None,
        },
{
    match parse_i32(trim(text)) {
        Some(pid) if pid > 1 => Some(pid),
        _ => None,
    }
}

/// Tell `owner` that a setting with this reload behavior changed.
///
/// Never fails: every way this can go wrong is a fact about the session rather than an error in
/// the request. Only a live setting involves the owner at all; for it, `signal_pidfile` is
/// handed the name of the owner's pidfile and answers what became of signaling through it.
pub fn notify<F: FnOnce(&'static str) -> Outcome>(owner: Owner, reload: Reload, signal_pidfile: F) -> (r:
    Outcome)
    requires
        forall|name: &'static str| signal_pidfile.requires((name,)),
    ensures
        match reload {
            Reload::NextLogin => r == Outcome::NextLogin,
            Reload::Never | Reload::Restart => r == Outcome::RestartRequired,
            Reload::Live => match spec_pidfile(owner) {
                Some(name) => exists|p: &'static str|
                    p@ == name && signal_pidfile.ensures((p,), r),
                None => r == Outcome::RestartRequired,
            },
        },
{
    match reload {
        Reload::NextLogin => Outcome::NextLogin,
        Reload::Never | Reload::Restart => Outcome::RestartRequired,
        Reload::Live => signal_owner(owner, signal_pidfile),
    }
}

/// Signal a live setting's owner through its pidfile, if it has one.
///
/// An owner with no pidfile has nothing to signal, and has to be restarted to pick the change
/// up.
pub fn signal_owner<F: FnOnce(&'static str) -> Outcome>(owner: Owner, signal_pidfile: F) -> (r:
    Outcome)
    requires
        forall|name: &'static str| signal_pidfile.requires((name,)),
    ensures
        match spec_pidfile(owner) {
            Some(name) => exists|p: &'static str| p@ == name && signal_pidfile.ensures((p,), r),
            None => r == Outcome::RestartRequired,
        },
{
    match owner.pidfile() {
        Some(name) => signal_pidfile(name),
        None => Outcome::RestartRequired,
    }
}

/// Decide what a pidfile amounts to, and signal what it names.
///
/// `contents` is the pidfile's text, or `None` when it could not be read -- missing or
/// otherwise -- which means the owner is not running. `send_hup` delivers `SIGHUP` to a pid
/// and answers whether it arrived; it is only ever asked to signal a pid greater than 1.
pub fn reload_via_pidfile<G: FnOnce(i32) -> bool>(contents: Option<&str>, send_hup: G) -> (r:
    Outcome)
    requires
        forall|pid: i32| pid > 1 ==> send_hup.requires((pid,)),
    ensures
        match contents {
            None => r == Outcome::NotRunning,
            Some(text) => match spec_parse_pid(text@) {
                None => r == Outcome::NotRunning,
                Some(pid) => (r == Outcome::Applied && send_hup.ensures((pid as i32,), true)) || (r
                    == Outcome::NotRunning && send_hup.ensures((pid as i32,), false)),
            },
        },
{
    let text = match contents {
        Some(text) => text,
        None => return Outcome::NotRunning,
    };
    let pid = match parse_pid(text) {
        Some(pid) => pid,
        None => return Outcome::NotRunning,
    };
    if send_hup(pid) {
        Outcome::Applied
    } else {
        Outcome::NotRunning
    }
}

/// The directory pidfiles are in: `$XDG_RUNTIME_DIR` when it is an absolute path, else the
/// temporary directory -- the fallback every wlRIX pidfile uses.
pub open spec fn spec_runtime_dir(xdg_runtime_dir: Option<Seq<char>>, temp_dir: Seq<char>) -> Seq<
    char,
> {
    match xdg_runtime_dir {
        Some(dir) => if dir.len() > 0 && dir[0] == '/' {
            dir
        } else {
            temp_dir
        },
        None => temp_dir,
    }
}

/// The directory pidfiles are in, given `$XDG_RUNTIME_DIR` and the temporary directory.
pub fn runtime_dir(xdg_runtime_dir: Option<&str>, temp_dir: &str) -> (r: String)
    ensures
        r@ == spec_runtime_dir(
            match xdg_runtime_dir {
                Some(d) => Some(d@),
                None => None,
            },
            temp_dir@,
        ),
{
    match xdg_runtime_dir {
        Some(dir) => if dir.unicode_len() > 0 && dir.get_char(0) == '/' {
            owned(dir)
        } else {
            owned(temp_dir)
        },
        None => owned(temp_dir),
    }
}

/// Where an owner's pidfile is, in the runtime directory.
pub fn pidfile_path(runtime_dir: &str, name: &str) -> (r: String)
    ensures
        r@ == spec_join(runtime_dir@, name@),
{
    join(runtime_dir, name)
}

} // verus!
