//! Where the config files are, and where the daemon is allowed to write.
//!
//! A hand-edited file under `$XDG_CONFIG_HOME/wlrix/`, with `/etc/wlrix/` consulted when the
//! user has none of their own. The first file found wins outright; nothing is merged. The
//! daemon only ever writes the user path.
use vstd::prelude::*;

use crate::text::{join, owned, spec_join, str_eq};

verus! {

/// One config file the daemon knows about.
///
/// The variants are the namespaces of the bus API: a key is `<namespace>.<toml path>`, and the
/// namespace is this file's stem.
#[derive(Debug, Clone, Copy, PartialEq, Eq, Structural, PartialOrd, Ord, Hash)]
pub enum File {
    Background,
    Compositor,
    Desktop,
    Idle,
    Portal,
    Screenshot,
    Session,
    Tray,
}

/// Every file, in the order they are listed and dumped.
pub open spec fn spec_all() -> Seq<File> {
    seq![
        File::Background,
        File::Compositor,
        File::Desktop,
        File::Idle,
        File::Portal,
        File::Screenshot,
        File::Session,
        File::Tray,
    ]
}

/// Where a file stands in [`spec_all`].
pub open spec fn spec_index(file: File) -> nat {
    match file {
        File::Background => 0,
        File::Compositor => 1,
        File::Desktop => 2,
        File::Idle => 3,
        File::Portal => 4,
        File::Screenshot => 5,
        File::Session => 6,
        File::Tray => 7,
    }
}

pub open spec fn spec_namespace(file: File) -> Seq<char> {
    match file {
        File::Background => "background"@,
        File::Compositor => "compositor"@,
        File::Desktop => "desktop"@,
        File::Idle => "idle"@,
        File::Portal => "portal"@,
        File::Screenshot => "screenshot"@,
        File::Session => "session"@,
        File::Tray => "tray"@,
    }
}

pub open spec fn spec_file_name(file: File) -> Seq<char> {
    spec_namespace(file) + ".toml"@
}

/// The number of files.
pub const FILE_COUNT: usize = 8;

/// Every file's position in [`spec_all`] names it, and no two files share a namespace.
pub proof fn lemma_files()
    ensures
        spec_all().len() == FILE_COUNT,
        forall|f: File| spec_index(f) < FILE_COUNT && #[trigger] spec_all()[spec_index(f) as int] == f,
        forall|i: int| 0 <= i < FILE_COUNT ==> spec_index(#[trigger] spec_all()[i]) == i,
        forall|f: File, g: File| #[trigger] spec_namespace(f) == #[trigger] spec_namespace(g) ==> f == g,
{
    reveal_strlit("background");
    reveal_strlit("compositor");
    reveal_strlit("desktop");
    reveal_strlit("idle");
    reveal_strlit("portal");
    reveal_strlit("screenshot");
    reveal_strlit("session");
    reveal_strlit("tray");
    assert forall|f: File, g: File| #[trigger] spec_namespace(f) == #[trigger] spec_namespace(g)
        implies f == g by {
        if f != g {
            let a = spec_namespace(f);
            let b = spec_namespace(g);
            if a.len() == b.len() {
                assert(a[0] != b[0] || a[1] != b[1] || a[2] != b[2]);
            }
        }
    }
}

/// Every file, in the order they are listed and dumped.
pub fn all() -> (r: Vec<File>)
    ensures
        r@ == spec_all(),
{
    let r = vec![
        File::Background,
        File::Compositor,
        File::Desktop,
        File::Idle,
        File::Portal,
        File::Screenshot,
        File::Session,
        File::Tray,
    ];
    assert(r@ =~= spec_all());
    r
}

impl File {
    /// The namespace a key in this file is prefixed with, which is also the file's stem.
    pub fn namespace(self) -> (r: &'static str)
        ensures
            r@ == spec_namespace(self),
    {
        match self {
            File::Background => "background",
            File::Compositor => "compositor",
            File::Desktop => "desktop",
            File::Idle => "idle",
            File::Portal => "portal",
            File::Screenshot => "screenshot",
            File::Session => "session",
            File::Tray => "tray",
        }
    }

    /// The file's position in [`all`].
    pub fn index(self) -> (r: usize)
        ensures
            r == spec_index(self),
    {
        match self {
            File::Background => 0,
            File::Compositor => 1,
            File::Desktop => 2,
            File::Idle => 3,
            File::Portal => 4,
            File::Screenshot => 5,
            File::Session => 6,
            File::Tray => 7,
        }
    }

    /// The file's name on disk.
    pub fn file_name(self) -> (r: String)
        ensures
            r@ == spec_file_name(self),
    {
        let mut out = owned(self.namespace());
        out.append(".toml");
        out
    }

    /// The file this namespace names, if it is one.
    pub fn from_namespace(namespace: &str) -> (r: Option<File>)
        ensures
            match r {
                Some(file) => spec_namespace(file) == namespace@,
                None => forall|file: File| spec_namespace(file) != namespace@,
            },
    {
        proof {
            lemma_files();
        }
        let files = all();
        let mut i: usize = 0;
        while i < files.len()
            invariant
                files@ == spec_all(),
                i <= files.len(),
                forall|j: int| 0 <= j < i ==> spec_namespace(#[trigger] spec_all()[j]) != namespace@,
            decreases files.len() - i,
        {
            let file = files[i];
            if str_eq(file.namespace(), namespace) {
                return Some(file);
            }
            i = i + 1;
        }
        assert forall|file: File| spec_namespace(file) != namespace@ by {
            assert(spec_all()[spec_index(file) as int] == file);
        }
        None
    }
}

/// Whether a filename in a watched directory is one of ours.
///
/// An editor's swapfile and the daemon's own temporary land in the same directory, and this is
/// what keeps them from costing a rescan.
pub fn is_known_file(name: &str) -> (r: bool)
    ensures
        r == exists|file: File| spec_file_name(file) == name@,
{
    proof {
        lemma_files();
    }
    let files = all();
    let mut i: usize = 0;
    while i < files.len()
        invariant
            files@ == spec_all(),
            i <= files.len(),
            forall|j: int| 0 <= j < i ==> spec_file_name(#[trigger] spec_all()[j]) != name@,
        decreases files.len() - i,
    {
        let candidate = files[i].file_name();
        if str_eq(candidate.as_str(), name) {
            assert(spec_file_name(spec_all()[i as int]) == name@);
            return true;
        }
        i = i + 1;
    }
    assert forall|file: File| spec_file_name(file) != name@ by {
        assert(spec_all()[spec_index(file) as int] == file);
    }
    false
}

/// The file a filename names, if it is one of ours.
pub fn file_named(name: &str) -> (r: Option<File>)
    ensures
        match r {
            Some(file) => spec_file_name(file) == name@,
            None => forall|file: File| spec_file_name(file) != name@,
        },
{
    proof {
        lemma_files();
    }
    let files = all();
    let mut i: usize = 0;
    while i < files.len()
        invariant
            files@ == spec_all(),
            i <= files.len(),
            forall|j: int| 0 <= j < i ==> spec_file_name(#[trigger] spec_all()[j]) != name@,
        decreases files.len() - i,
    {
        let file = files[i];
        let candidate = file.file_name();
        if str_eq(candidate.as_str(), name) {
            return Some(file);
        }
        i = i + 1;
    }
    assert forall|file: File| spec_file_name(file) != name@ by {
        assert(spec_all()[spec_index(file) as int] == file);
    }
    None
}

/// What `Path::parent` answers for a path: the path without its last component, if it has one.
pub uninterp spec fn std_path_parent(path: Seq<char>) -> Option<Seq<char>>;

/// Calls `std::path::Path::parent` and converts the answer back to text.
///
/// Claims only that the answer is the parent `std` computes for this path, a function of the
/// path alone; what that parent is is left to `std`'s documentation.
#[verifier::external_body]
pub(crate) fn path_parent(path: &str) -> (r: Option<String>)
    ensures
        match r {
            Some(p) => std_path_parent(path@) == Some(p@),
            None => std_path_parent(path@) is None,
        },
{
    std::path::Path::new(path).parent().map(|parent| parent.to_string_lossy().into_owned())
}

/// What `Path::file_name` answers for a path: its last component, if it is a name.
pub uninterp spec fn std_path_file_name(path: Seq<char>) -> Option<Seq<char>>;

/// Calls `std::path::Path::file_name` and converts the answer back to text.
///
/// Claims only that the answer is the name `std` computes for this path, a function of the
/// path alone.
#[verifier::external_body]
pub(crate) fn path_file_name(path: &str) -> (r: Option<String>)
    ensures
        match r {
            Some(name) => std_path_file_name(path@) == Some(name@),
            None => std_path_file_name(path@) is None,
        },
{
    std::path::Path::new(path).file_name().map(|name| name.to_string_lossy().into_owned())
}

/// Calls `std::path::Path::is_file`: whether a regular file is at that path right now.
///
/// Nothing is claimed of the answer: it depends on the disk, not on the path.
#[verifier::external_body]
pub(crate) fn path_is_file(path: &str) -> (r: bool) {
    std::path::Path::new(path).is_file()
}

/// The two directories the daemon reads from, one of which it writes to.
pub struct Roots {
    /// Where writes go. `None` when neither `$XDG_CONFIG_HOME` nor `$HOME` is set.
    user: Option<String>,
    system: String,
}

impl Clone for Roots {
    fn clone(&self) -> (r: Self)
        ensures
            r == *self,
    {
        Roots {
            user: match &self.user {
                Some(dir) => Some(dir.clone()),
                None => None,
            },
            system: self.system.clone(),
        }
    }
}

/// The user's config directory as the environment names it: `$XDG_CONFIG_HOME` when it is
/// set and not empty, else `$HOME/.config` when `$HOME` is set and not empty.
pub open spec fn spec_user_config_dir(
    xdg_config_home: Option<Seq<char>>,
    home: Option<Seq<char>>,
) -> Option<Seq<char>> {
    match xdg_config_home {
        Some(dir) if dir.len() > 0 => Some(dir),
        _ => match home {
            Some(home) if home.len() > 0 => Some(spec_join(home, ".config"@)),
            _ => None,
        },
    }
}

impl Roots {
    /// The user directory, as text.
    pub closed spec fn spec_user(&self) -> Option<Seq<char>> {
        match self.user {
            Some(dir) => Some(dir@),
            None => None,
        }
    }

    /// The system directory, as text.
    pub closed spec fn spec_system(&self) -> Seq<char> {
        self.system@
    }

    /// The real ones, from the values of `$XDG_CONFIG_HOME` and `$HOME`.
    pub fn from_environment(xdg_config_home: Option<&str>, home: Option<&str>) -> (r: Self)
        ensures
            r.spec_user() == (match spec_user_config_dir(
                match xdg_config_home {
                    Some(s) => Some(s@),
                    None => None,
                },
                match home {
                    Some(s) => Some(s@),
                    None => None,
                },
            ) {
                Some(dir) => Some(spec_join(dir, "wlrix"@)),
                None => None,
            }),
            r.spec_system() == spec_join("/etc"@, "wlrix"@),
    {
        let config: Option<String> = match xdg_config_home {
            Some(dir) if dir.unicode_len() > 0 => Some(owned(dir)),
            _ => match home {
                Some(home) if home.unicode_len() > 0 => Some(join(home, ".config")),
                _ => None,
            },
        };
        let user = match config {
            Some(dir) => Some(join(dir.as_str(), "wlrix")),
            None => None,
        };
        Roots { user, system: join("/etc", "wlrix") }
    }

    /// Made-up ones, for a test or for scratch directories.
    pub fn new(user: Option<String>, system: String) -> (r: Self)
        ensures
            r.spec_user() == (match user {
                Some(dir) => Some(dir@),
                None => None,
            }),
            r.spec_system() == system@,
    {
        Roots { user, system }
    }

    /// The directory the daemon writes into, and watches.
    pub fn user_dir(&self) -> (r: Option<&str>)
        ensures
            match r {
                Some(dir) => self.spec_user() == Some(dir@),
                None => self.spec_user() is None,
            },
    {
        match &self.user {
            Some(dir) => Some(dir.as_str()),
            None => None,
        }
    }

    /// The config directory itself, which is [`Roots::user_dir`]'s parent.
    pub fn config_home(&self) -> (r: Option<String>)
        ensures
            match self.spec_user() {
                Some(dir) => match r {
                    Some(home) => std_path_parent(dir) == Some(home@),
                    None => std_path_parent(dir) is None,
                },
                None => r is None,
            },
    {
        match &self.user {
            Some(dir) => path_parent(dir.as_str()),
            None => None,
        }
    }

    /// The system directory, watched because a change there changes the effective value of
    /// every key the user has not overridden.
    pub fn system_dir(&self) -> (r: &str)
        ensures
            r@ == self.spec_system(),
    {
        self.system.as_str()
    }

    /// Where a write for `file` lands: the user's file, always.
    pub open spec fn spec_user_path(&self, file: File) -> Option<Seq<char>> {
        match self.spec_user() {
            Some(dir) => Some(spec_join(dir, spec_file_name(file))),
            None => None,
        }
    }

    /// The system fallback for `file`.
    pub open spec fn spec_system_path(&self, file: File) -> Seq<char> {
        spec_join(self.spec_system(), spec_file_name(file))
    }

    /// Where a write lands: the user's file, always.
    pub fn user_path(&self, file: File) -> (r: Option<String>)
        ensures
            match r {
                Some(path) => self.spec_user_path(file) == Some(path@),
                None => self.spec_user_path(file) is None,
            },
    {
        match &self.user {
            Some(dir) => {
                let name = file.file_name();
                Some(join(dir.as_str(), name.as_str()))
            },
            None => None,
        }
    }

    /// The system fallback. Read from, never written.
    pub fn system_path(&self, file: File) -> (r: String)
        ensures
            r@ == self.spec_system_path(file),
    {
        let name = file.file_name();
        join(self.system.as_str(), name.as_str())
    }

    /// The file in force, given whether the user's and the system's files exist: the user's if
    /// it does, else the system's if it does.
    pub open spec fn spec_effective(
        &self,
        file: File,
        user_is_file: bool,
        system_is_file: bool,
    ) -> Option<Seq<char>> {
        if self.spec_user_path(file) is Some && user_is_file {
            self.spec_user_path(file)
        } else if system_is_file {
            Some(self.spec_system_path(file))
        } else {
            None
        }
    }

    /// The file actually in force, for the given state of the disk. `None` means neither
    /// exists, which is the ordinary case on a fresh install.
    pub fn effective_path_given(&self, file: File, user_is_file: bool, system_is_file: bool) -> (r:
        Option<String>)
        ensures
            match r {
                Some(path) => self.spec_effective(file, user_is_file, system_is_file) == Some(
                    path@,
                ),
                None => self.spec_effective(file, user_is_file, system_is_file) is None,
            },
    {
        if let Some(path) = self.user_path(file) {
            if user_is_file {
                return Some(path);
            }
        }
        if system_is_file {
            Some(self.system_path(file))
        } else {
            None
        }
    }

    /// The file actually in force: the user's if it exists, else the system's if it does.
    ///
    /// Looks at the disk, so all that can be said of the answer is that it is one of the two
    /// paths, or nothing.
    pub fn effective_path(&self, file: File) -> (r: Option<String>)
        ensures
            match r {
                Some(path) => self.spec_user_path(file) == Some(path@) || path@
                    == self.spec_system_path(file),
                None => true,
            },
    {
        let user_is_file = match self.user_path(file) {
            Some(path) => path_is_file(path.as_str()),
            None => false,
        };
        let system_is_file = if user_is_file {
            false
        } else {
            let system = self.system_path(file);
            path_is_file(system.as_str())
        };
        self.effective_path_given(file, user_is_file, system_is_file)
    }

    /// Whether the file in force is the user's own, for the given state of the disk.
    pub open spec fn spec_is_user_file(
        &self,
        file: File,
        user_is_file: bool,
        system_is_file: bool,
    ) -> bool {
        match self.spec_effective(file, user_is_file, system_is_file) {
            Some(effective) => self.spec_user_path(file) == Some(effective),
            None => false,
        }
    }

    /// Whether the file in force is the user's own, for the given state of the disk, which is
    /// what decides whether a value is reported as coming from `user` or from `system`.
    pub fn is_user_file_given(&self, file: File, user_is_file: bool, system_is_file: bool) -> (r:
        bool)
        ensures
            r == self.spec_is_user_file(file, user_is_file, system_is_file),
    {
        match self.effective_path_given(file, user_is_file, system_is_file) {
            Some(effective) => match self.user_path(file) {
                Some(user) => str_eq(effective.as_str(), user.as_str()),
                None => false,
            },
            None => false,
        }
    }

    /// Whether the file in force is the user's own.
    ///
    /// Looks at the disk; when it answers `true` there is a user path.
    pub fn is_user_file(&self, file: File) -> (r: bool)
        ensures
            r ==> self.spec_user_path(file) is Some,
    {
        let user_is_file = match self.user_path(file) {
            Some(path) => path_is_file(path.as_str()),
            None => false,
        };
        let system_is_file = if user_is_file {
            false
        } else {
            let system = self.system_path(file);
            path_is_file(system.as_str())
        };
        self.is_user_file_given(file, user_is_file, system_is_file)
    }
}

/// The user's own file wins: when it exists the file in force is the user's, whatever the
/// system holds, and when it does not, the file in force is not the user's -- unless the two
/// paths are one and the same.
pub proof fn law_user_file_wins(roots: Roots, file: File, system_is_file: bool)
    ensures
        roots.spec_is_user_file(file, true, system_is_file) == roots.spec_user_path(file) is Some,
        roots.spec_user_path(file) != Some(roots.spec_system_path(file))
            ==> !roots.spec_is_user_file(file, false, system_is_file),
{
}

} // verus!
