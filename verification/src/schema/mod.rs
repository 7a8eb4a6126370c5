//! What a wlRIX setting *is*.
//!
//! Every setting the daemon will write is declared once, in [`table`], with the file it lives
//! in, its path within that file, its type and range, its default, which process owns it, and
//! how that process takes the change. A client asks for the declaration and can render and
//! validate a whole panel without hardcoding a single wlRIX key name.
//!
//! The table is advisory; the owner's parser is the authority. What is declared here is what a
//! *UI* needs -- ranges, choices, units, prose -- plus enough structure to reject the obvious
//! mistakes early, with a clearer message than a TOML parse error.
//!
//! Array-of-table sections (`[[output]]`, `[[timeout]]`, `[[app]]`) and free-form maps
//! (`[env]`) are deliberately absent: they are keyed collections, not scalar leaves.
pub mod table;
pub mod group;
pub mod dump;


use vstd::prelude::*;

use crate::paths::{all, spec_all, spec_namespace, File};
use crate::text::str_eq;
use table::{settings, table, SETTING_COUNT};


pub use dump::dump;
pub use group::{group_of, group_table, groups, lookup_group, resolve_members, Group};

verus! {

/// One setting: what it is, where it lives and who has to be told when it changes.
#[derive(Debug, Clone, Copy)]
pub struct Setting {
    /// The bus key, `<namespace>.<toml path>`.
    pub key: &'static str,
    pub file: File,
    /// The path to the value within the document, outermost first. A one-element path is a
    /// top-level key; two elements are a key in a table.
    pub path: &'static [&'static str],
    pub kind: Kind,
    /// Who reads this, and therefore who is signaled after a write.
    pub owner: Owner,
    /// What that costs the user.
    pub reload: Reload,
    /// What the number means, for a UI to put after the spinner.
    pub unit: Unit,
    /// One line, for a label or a tooltip.
    pub summary: &'static str,
    /// The longer version, for the panel's help text.
    pub description: &'static str,
}

/// A decimal number as the schema declares it: its IEEE-754 double bits, which are what a
/// value is compared against, and the number as it is written out -- the shortest decimal that
/// reads back as those bits, with no `.0` on a whole number.
#[derive(Debug, Clone, Copy)]
pub struct FloatLit {
    pub bits: u64,
    pub text: &'static str,
}

/// A setting's type, its range, and what it is when the file does not say.
///
/// The `Option` on every default is load-bearing: `compositor.keyboard.layout` genuinely has
/// no default (absent means "let libxkbcommon decide"), while `repeat_delay` defaults to 200.
#[allow(inconsistent_fields)]
#[derive(Debug, Clone, Copy)]
pub enum Kind {
    Bool { default: Option<bool> },
    Int { default: Option<i64>, min: i64, max: i64 },
    Float { default: Option<FloatLit>, min: FloatLit, max: FloatLit },
    Str { default: Option<&'static str> },
    /// A string from a fixed set. The values are exactly what the owner's serde enum accepts.
    Enum { default: Option<&'static str>, choices: &'static [Choice] },
    /// A list of strings. Its default is the empty list rather than "absent".
    StrList { default: &'static [&'static str] },
}

/// One value of a [`Kind::Enum`], with something to put in a dropdown.
#[derive(Debug, Clone, Copy)]
pub struct Choice {
    pub value: &'static str,
    pub label: &'static str,
}

/// Which running program reads a setting, and therefore gets told when it changes.
#[derive(Debug, Clone, Copy, PartialEq, Eq, Structural)]
pub enum Owner {
    Background,
    Compositor,
    Desktop,
    Idle,
    Portal,
    /// `wlrix-screenshot`. Not a daemon: it runs for as long as one screenshot takes. It is an
    /// owner all the same, because this enum also names whose parser validates a candidate
    /// file.
    Screenshot,
    Tray,
    /// Nothing to tell: the value is read once, by something that is not running yet.
    Nobody,
}

/// What it takes for a change to this setting to be in effect.
#[derive(Debug, Clone, Copy, PartialEq, Eq, Structural)]
pub enum Reload {
    /// The owner re-reads it on `SIGHUP` and it takes effect immediately.
    Live,
    /// The owner must be restarted.
    Restart,
    /// Only read when the session starts.
    NextLogin,
    /// Nothing reads it while running and nothing can be told.
    Never,
}

/// What a number means, so a UI can put a suffix after the spinner.
#[derive(Debug, Clone, Copy, PartialEq, Eq, Structural)]
pub enum Unit {
    Unitless,
    Milliseconds,
    Seconds,
    Hertz,
    Pixels,
}

pub open spec fn spec_signature(kind: Kind) -> Seq<char> {
    match kind {
        Kind::Bool { .. } => "b"@,
        Kind::Int { .. } => "x"@,
        Kind::Float { .. } => "d"@,
        Kind::Str { .. } | Kind::Enum { .. } => "s"@,
        Kind::StrList { .. } => "as"@,
    }
}

pub open spec fn spec_kind_name(kind: Kind) -> Seq<char> {
    match kind {
        Kind::Bool { .. } => "bool"@,
        Kind::Int { .. } => "int"@,
        Kind::Float { .. } => "double"@,
        Kind::Str { .. } => "string"@,
        Kind::Enum { .. } => "enum"@,
        Kind::StrList { .. } => "string-list"@,
    }
}

pub open spec fn spec_has_default(kind: Kind) -> bool {
    match kind {
        Kind::Bool { default } => default is Some,
        Kind::Int { default, .. } => default is Some,
        Kind::Float { default, .. } => default is Some,
        Kind::Str { default } => default is Some,
        Kind::Enum { default, .. } => default is Some,
        Kind::StrList { .. } => true,
    }
}

impl Kind {
    /// The bus signature a value of this kind is carried as.
    pub fn signature(&self) -> (r: &'static str)
        ensures
            r@ == spec_signature(*self),
    {
        match self {
            Kind::Bool { .. } => "b",
            Kind::Int { .. } => "x",
            Kind::Float { .. } => "d",
            Kind::Str { .. } | Kind::Enum { .. } => "s",
            Kind::StrList { .. } => "as",
        }
    }

    /// The name a client switches on to pick a widget.
    pub fn name(&self) -> (r: &'static str)
        ensures
            r@ == spec_kind_name(*self),
    {
        match self {
            Kind::Bool { .. } => "bool",
            Kind::Int { .. } => "int",
            Kind::Float { .. } => "double",
            Kind::Str { .. } => "string",
            Kind::Enum { .. } => "enum",
            Kind::StrList { .. } => "string-list",
        }
    }

    /// Whether this setting has a default the daemon can name. A list always does -- the
    /// empty list.
    pub fn has_default(&self) -> (r: bool)
        ensures
            r == spec_has_default(*self),
    {
        match self {
            Kind::Bool { default } => default.is_some(),
            Kind::Int { default, .. } => default.is_some(),
            Kind::Float { default, .. } => default.is_some(),
            Kind::Str { default } => default.is_some(),
            Kind::Enum { default, .. } => default.is_some(),
            Kind::StrList { .. } => true,
        }
    }
}

pub open spec fn spec_program(owner: Owner) -> Option<Seq<char>> {
    match owner {
        Owner::Background => Some("wlrix-bg"@),
        Owner::Compositor => Some("wlrix-compositor"@),
        Owner::Desktop => Some("wlrix-desktop"@),
        Owner::Idle => Some("wlrix-idle"@),
        Owner::Portal => Some("xdg-desktop-portal-wlrix"@),
        Owner::Screenshot => Some("wlrix-screenshot"@),
        Owner::Tray => Some("wlrix-tray"@),
        Owner::Nobody => None,
    }
}

pub open spec fn spec_pidfile(owner: Owner) -> Option<Seq<char>> {
    match owner {
        Owner::Background => Some("wlrix-bg.pid"@),
        Owner::Compositor => Some("wlrix-compositor.pid"@),
        Owner::Desktop => Some("wlrix-desktop.pid"@),
        Owner::Idle => Some("wlrix-idle.pid"@),
        Owner::Tray => Some("wlrix-tray.pid"@),
        Owner::Portal | Owner::Screenshot | Owner::Nobody => None,
    }
}

impl Owner {
    /// The program's name, as it appears in a log line and on `PATH`.
    pub fn program(self) -> (r: Option<&'static str>)
        ensures
            match r {
                Some(p) => spec_program(self) == Some(p@),
                None => spec_program(self) is None,
            },
    {
        match self {
            Owner::Background => Some("wlrix-bg"),
            Owner::Compositor => Some("wlrix-compositor"),
            Owner::Desktop => Some("wlrix-desktop"),
            Owner::Idle => Some("wlrix-idle"),
            Owner::Portal => Some("xdg-desktop-portal-wlrix"),
            Owner::Screenshot => Some("wlrix-screenshot"),
            Owner::Tray => Some("wlrix-tray"),
            Owner::Nobody => None,
        }
    }

    /// The pidfile the owner drops in `$XDG_RUNTIME_DIR`, if it drops one.
    ///
    /// The portal has none deliberately -- a screen share is not something to reconfigure
    /// underneath it. `wlrix-screenshot` has none because it is spawned per screenshot.
    pub fn pidfile(self) -> (r: Option<&'static str>)
        ensures
            match r {
                Some(p) => spec_pidfile(self) == Some(p@),
                None => spec_pidfile(self) is None,
            },
    {
        match self {
            Owner::Background => Some("wlrix-bg.pid"),
            Owner::Compositor => Some("wlrix-compositor.pid"),
            Owner::Desktop => Some("wlrix-desktop.pid"),
            Owner::Idle => Some("wlrix-idle.pid"),
            Owner::Tray => Some("wlrix-tray.pid"),
            Owner::Portal | Owner::Screenshot | Owner::Nobody => None,
        }
    }
}

pub open spec fn spec_reload_name(reload: Reload) -> Seq<char> {
    match reload {
        Reload::Live => "live"@,
        Reload::Restart => "restart"@,
        Reload::NextLogin => "next-login"@,
        Reload::Never => "none"@,
    }
}

impl Reload {
    pub fn name(self) -> (r: &'static str)
        ensures
            r@ == spec_reload_name(self),
    {
        match self {
            Reload::Live => "live",
            Reload::Restart => "restart",
            Reload::NextLogin => "next-login",
            Reload::Never => "none",
        }
    }
}

pub open spec fn spec_unit_name(unit: Unit) -> Seq<char> {
    match unit {
        Unit::Unitless => ""@,
        Unit::Milliseconds => "ms"@,
        Unit::Seconds => "s"@,
        Unit::Hertz => "hz"@,
        Unit::Pixels => "px"@,
    }
}

impl Unit {
    pub fn name(self) -> (r: &'static str)
        ensures
            r@ == spec_unit_name(self),
    {
        match self {
            Unit::Unitless => "",
            Unit::Milliseconds => "ms",
            Unit::Seconds => "s",
            Unit::Hertz => "hz",
            Unit::Pixels => "px",
        }
    }
}

impl Setting {
    /// The namespace this setting belongs to.
    pub fn namespace(&self) -> (r: &'static str)
        ensures
            r@ == spec_namespace(self.file),
    {
        self.file.namespace()
    }
}

/// The position in [`table`] of the first setting, at or after `from`, whose key is `key`.
pub open spec fn find_key(key: Seq<char>, from: int) -> Option<int>
    decreases SETTING_COUNT - from,
{
    if from < 0 || from >= SETTING_COUNT {
        None
    } else if table()[from].key@ == key {
        Some(from)
    } else {
        find_key(key, from + 1)
    }
}

/// The position in [`table`] of the setting a key names, if there is one.
pub open spec fn spec_lookup(key: Seq<char>) -> Option<int> {
    find_key(key, 0)
}

/// What [`find_key`] answers: the first match at or after `from`, or nothing when there is
/// none.
pub proof fn lemma_find_key(key: Seq<char>, from: int)
    requires
        0 <= from <= SETTING_COUNT,
    ensures
        match find_key(key, from) {
            Some(i) => from <= i < SETTING_COUNT && table()[i].key@ == key && forall|j: int|
                from <= j < i ==> table()[j].key@ != key,
            None => forall|j: int| from <= j < SETTING_COUNT ==> table()[j].key@ != key,
        },
    decreases SETTING_COUNT - from,
{
    if from < SETTING_COUNT && table()[from].key@ != key {
        lemma_find_key(key, from + 1);
    }
}

/// Every setting is what its own key looks up: its key names it and no other setting.
pub proof fn law_lookup_finds_every_setting()
    ensures
        forall|i: int| 0 <= i < SETTING_COUNT ==> spec_lookup(#[trigger] table()[i].key@) == Some(i),
{
    crate::schema::table::law_keys_are_unique();
    assert forall|i: int| 0 <= i < SETTING_COUNT implies spec_lookup(#[trigger] table()[i].key@)
        == Some(i) by {
        let key = table()[i].key@;
        lemma_find_key(key, 0);
        match find_key(key, 0) {
            Some(k) => {
                if k < i {
                    assert(table()[k].key@ != table()[i].key@);
                } else if k > i {
                    assert(table()[i].key@ != key);
                }
            },
            None => {
                assert(table()[i].key@ != key);
            },
        }
    }
}

/// Where in the table the setting this key names stands, if there is one.
pub fn lookup_index(key: &str) -> (r: Option<usize>)
    ensures
        match r {
            Some(i) => spec_lookup(key@) == Some(i as int) && i < SETTING_COUNT,
            None => spec_lookup(key@) is None,
        },
{
    let all_settings = settings();
    let mut i: usize = 0;
    while i < all_settings.len()
        invariant
            all_settings@ == table(),
            all_settings@.len() == SETTING_COUNT,
            i <= SETTING_COUNT,
            find_key(key@, 0) == find_key(key@, i as int),
        decreases SETTING_COUNT - i,
    {
        if str_eq(all_settings[i].key, key) {
            return Some(i);
        }
        i = i + 1;
    }
    None
}

/// The setting this key names, if there is one.
pub fn lookup(key: &str) -> (r: Option<Setting>)
    ensures
        match r {
            Some(setting) => spec_lookup(key@) matches Some(i) && 0 <= i < SETTING_COUNT
                && table()[i] == setting,
            None => spec_lookup(key@) is None,
        },
{
    match lookup_index(key) {
        Some(i) => {
            let all_settings = settings();
            Some(all_settings[i])
        },
        None => None,
    }
}

/// The setting at a position in the table.
pub fn setting_at(i: usize) -> (r: Setting)
    requires
        i < SETTING_COUNT,
    ensures
        r == table()[i as int],
{
    let all_settings = settings();
    all_settings[i]
}

/// Whether a setting belongs to the namespace `namespace`.
pub open spec fn in_namespace_pred(namespace: Seq<char>) -> spec_fn(Setting) -> bool {
    |setting: Setting| spec_namespace(setting.file) == namespace
}

/// Every setting in one namespace, in declaration order.
pub open spec fn spec_in_namespace(namespace: Seq<char>) -> Seq<Setting> {
    table().filter(in_namespace_pred(namespace))
}

/// Filtering what a sequence grows by: the new element is kept exactly when it passes.
pub proof fn lemma_filter_push<A>(s: Seq<A>, pred: spec_fn(A) -> bool, e: A)
    ensures
        s.push(e).filter(pred) == (if pred(e) {
            s.filter(pred).push(e)
        } else {
            s.filter(pred)
        }),
{
    reveal(Seq::filter);
    assert(s.push(e).drop_last() =~= s);
}

/// Every setting in one namespace, in declaration order.
///
/// Declaration order is the order of the file itself, which is what a generated example and a
/// generated panel both want.
pub fn in_namespace(namespace: &str) -> (r: Vec<Setting>)
    ensures
        r@ == spec_in_namespace(namespace@),
{
    let all_settings = settings();
    let mut out: Vec<Setting> = Vec::new();
    let mut i: usize = 0;
    proof {
        reveal(Seq::filter);
        assert(table().subrange(0, 0) =~= Seq::<Setting>::empty());
    }
    while i < all_settings.len()
        invariant
            all_settings@ == table(),
            i <= all_settings@.len(),
            out@ == table().subrange(0, i as int).filter(in_namespace_pred(namespace@)),
        decreases all_settings@.len() - i,
    {
        let setting = all_settings[i];
        proof {
            lemma_filter_push(
                table().subrange(0, i as int),
                in_namespace_pred(namespace@),
                setting,
            );
            assert(table().subrange(0, i as int).push(setting) =~= table().subrange(
                0,
                i + 1,
            ));
        }
        if str_eq(setting.file.namespace(), namespace) {
            out.push(setting);
        }
        i = i + 1;
    }
    proof {
        assert(table().subrange(0, table().len() as int) =~= table());
    }
    out
}

/// Every namespace the daemon serves, in file order.
pub open spec fn spec_namespaces() -> Seq<Seq<char>> {
    spec_all().map_values(|file: File| spec_namespace(file))
}

/// Every namespace the daemon serves, in file order.
pub fn namespaces() -> (r: Vec<&'static str>)
    ensures
        r@.len() == spec_namespaces().len(),
        forall|i: int| 0 <= i < r@.len() ==> #[trigger] r@[i]@ == spec_namespaces()[i],
{
    let files = all();
    let mut out: Vec<&'static str> = Vec::new();
    let mut i: usize = 0;
    while i < files.len()
        invariant
            files@ == spec_all(),
            i <= files@.len(),
            out@.len() == i,
            forall|j: int| 0 <= j < i ==> #[trigger] out@[j]@ == spec_namespaces()[j],
        decreases files@.len() - i,
    {
        out.push(files[i].namespace());
        i = i + 1;
    }
    out
}

} // verus!
