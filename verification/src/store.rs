//! What every setting currently is, and the only path by which it changes.
//!
//! The [`Store`] holds the effective value and the source of every declared setting, which
//! files will not currently parse, and the exact bytes of the daemon's own last write to each
//! file. Reading and writing the files is done around it: the program reads what is on disk
//! and hands it in ([`Observed`]), and writes what [`Store::prepare_write`] produces.
//!
//! ## A change, in order
//!
//! A request is validated and resolved whole before anything is written ([`plan_set_many`],
//! [`plan_reset`]): a batch with one bad value leaves nothing half-applied. The edits are
//! grouped by file, so each file is written once ([`Store::prepare_write`]); once every file is
//! on disk, each is re-read, what moved is announced, and each owning program is told once,
//! however many of its settings changed ([`Store::settle`]). A hand edit noticed by the watch
//! goes the same way ([`Store::refresh`]).
//!
//! ## Telling our own writes apart
//!
//! The daemon's own writes come back through the watch looking exactly like a hand-edit. The
//! discriminator is a byte comparison: the bytes just written are kept, and a file that comes
//! back byte-identical is ours. Not a timestamp, which races; not a flag, which leaks if the
//! write fails.
//!
//! ## A file that will not parse
//!
//! Reported, and then nothing else happens: the last-good values keep being served and the
//! owner is not signaled. The compositor's reaction to a config it cannot parse is to fall back
//! to built-in defaults, so poking it about a file someone is halfway through editing would
//! blank their whole configuration until they finished.
use vstd::prelude::*;

use crate::apply::Outcome;
use crate::edit::{
    self, int_as_double, double_display, double_less, finite, is_finite, is_nan, order_key,
    parse_double, path_view, spec_get, spec_value_kind_name, strings_view, Document, Double,
    Value, ValueView,
};
use crate::paths::{spec_namespace, File, Roots};
use crate::schema::table::{settings, table, SETTING_COUNT};
use crate::schema::{
    group_table, lookup_group, lookup_index, resolve_members, setting_at, spec_kind_name,
    spec_lookup, Choice, FloatLit, Group, Kind, Setting,
};
use crate::text::{
    int_text, join_with, owned, quoted, spec_int_text, spec_join_with,
    spec_starts_with, starts_with, str_eq, debug_text,
};

verus! {

/// Where a value came from, so a panel can gray out a Reset that would do nothing and be
/// honest about a value it cannot change.
#[derive(Debug, Clone, Copy, PartialEq, Eq, Structural)]
pub enum Source {
    /// The user's own file.
    User,
    /// The system directory, because the user has no file of their own.
    System,
    /// Nothing sets it; this is the declared default.
    Default,
}

pub open spec fn spec_source_name(source: Source) -> Seq<char> {
    match source {
        Source::User => "user"@,
        Source::System => "system"@,
        Source::Default => "default"@,
    }
}

impl Source {
    pub fn name(self) -> (r: &'static str)
        ensures
            r@ == spec_source_name(self),
    {
        match self {
            Source::User => "user",
            Source::System => "system",
            Source::Default => "default",
        }
    }
}

/// Why a request could not be carried out.
#[derive(Debug)]
pub enum Error {
    /// No such setting.
    UnknownKey(String),
    /// A setting the daemon deliberately does not describe yet, with the reason.
    Unsupported { key: String, why: &'static str },
    /// The right key, the wrong shape.
    WrongType { key: String, wanted: &'static str, got: &'static str },
    /// A number outside the range the schema declares.
    OutOfRange { key: String, value: String, min: String, max: String },
    /// A string that is not one of an enum's choices.
    InvalidValue { key: String, value: String, choices: Vec<&'static str> },
    /// The file could not be read, parsed, or written.
    File(edit::Error),
}

/// An [`Error`] as the contracts see it.
pub enum ErrorView {
    UnknownKey(Seq<char>),
    Unsupported { key: Seq<char>, why: Seq<char> },
    WrongType { key: Seq<char>, wanted: Seq<char>, got: Seq<char> },
    OutOfRange { key: Seq<char>, value: Seq<char>, min: Seq<char>, max: Seq<char> },
    InvalidValue { key: Seq<char>, value: Seq<char>, choices: Seq<Seq<char>> },
    File(edit::ErrorView),
}

/// A list of static strings as sequences of characters.
pub open spec fn names_view(items: Seq<&'static str>) -> Seq<Seq<char>> {
    items.map_values(|s: &'static str| s@)
}

impl View for Error {
    type V = ErrorView;

    open spec fn view(&self) -> ErrorView {
        match self {
            Error::UnknownKey(key) => ErrorView::UnknownKey(key@),
            Error::Unsupported { key, why } => ErrorView::Unsupported { key: key@, why: why@ },
            Error::WrongType { key, wanted, got } => ErrorView::WrongType {
                key: key@,
                wanted: wanted@,
                got: got@,
            },
            Error::OutOfRange { key, value, min, max } => ErrorView::OutOfRange {
                key: key@,
                value: value@,
                min: min@,
                max: max@,
            },
            Error::InvalidValue { key, value, choices } => ErrorView::InvalidValue {
                key: key@,
                value: value@,
                choices: names_view(choices@),
            },
            Error::File(err) => ErrorView::File(err@),
        }
    }
}

/// What an error says, in words.
pub open spec fn spec_store_error_text(err: ErrorView) -> Seq<char> {
    match err {
        ErrorView::UnknownKey(key) => "no such setting: "@ + key,
        ErrorView::Unsupported { key, why } => key + " is not settable here: "@ + why,
        ErrorView::WrongType { key, wanted, got } => key + " is a "@ + wanted + ", not a "@ + got,
        ErrorView::OutOfRange { key, value, min, max } => key + " must be between "@ + min
            + " and "@ + max + ", not "@ + value,
        ErrorView::InvalidValue { key, value, choices } => key + " must be one of "@
            + spec_join_with(choices, ", "@) + ", not "@ + debug_text(value),
        ErrorView::File(err) => edit::spec_error_text(err),
    }
}

impl Error {
    /// What the error says, in words.
    pub fn message(&self) -> (r: String)
        ensures
            r@ == spec_store_error_text(self@),
    {
        match self {
            Error::UnknownKey(key) => {
                let mut out = owned("no such setting: ");
                out.append(key.as_str());
                out
            },
            Error::Unsupported { key, why } => {
                let mut out = owned(key.as_str());
                out.append(" is not settable here: ");
                out.append(why);
                out
            },
            Error::WrongType { key, wanted, got } => {
                let mut out = owned(key.as_str());
                out.append(" is a ");
                out.append(wanted);
                out.append(", not a ");
                out.append(got);
                out
            },
            Error::OutOfRange { key, value, min, max } => {
                let mut out = owned(key.as_str());
                out.append(" must be between ");
                out.append(min.as_str());
                out.append(" and ");
                out.append(max.as_str());
                out.append(", not ");
                out.append(value.as_str());
                out
            },
            Error::InvalidValue { key, value, choices } => {
                let listed = join_with(choices.as_slice(), ", ");
                let shown = quoted(value.as_str());
                let mut out = owned(key.as_str());
                out.append(" must be one of ");
                out.append(listed.as_str());
                out.append(", not ");
                out.append(shown.as_str());
                out
            },
            Error::File(err) => err.message(),
        }
    }
}

/// How many deliberately deferred key prefixes there are.
pub const DEFERRED_COUNT: usize = 6;

/// Paths the daemon knows about but deliberately does not offer, and what to say instead.
///
/// Answering "no such setting" for these would be misleading -- they are real settings that a
/// person can put in the file by hand. Each is a keyed collection or a free-form map rather
/// than a scalar leaf, and needs add/remove/reorder rather than get/set.
pub open spec fn deferred_table() -> Seq<(&'static str, &'static str)> {
    seq![
        (
            "background.output",
            "a per-monitor wallpaper is a picture, a mode and a color that only mean anything \
             together with the connector name they hang off, so it is a collection rather than a \
             setting. Unlike the compositor's [[output]] this one would apply live, so it is first in \
             line when the collection surface lands. Edit background.toml by hand for now",
        ),
        (
            "compositor.output",
            "per-monitor settings are not written here. The machine-written outputs.toml is \
             layered on top of them, so a value set here is overridden the moment the compositor \
             next saves, and the compositor does not re-resolve outputs on reload in any case. Use \
             wlr-output-management, which the compositor implements and which applies live and \
             atomically",
        ),
        (
            "idle.timeout",
            "a countdown is several fields that only mean anything together, so it is a collection \
             rather than a setting. Edit idle.toml by hand for now",
        ),
        (
            "session.app",
            "the session's app list is a collection rather than a setting. Edit session.toml by \
             hand for now",
        ),
        (
            "session.env",
            "the session's environment is a free-form map with no fixed keys to describe. Edit \
             session.toml by hand for now",
        ),
        (
            "portal.preview.tile",
            "the thumbnail size is a fixed-length pair of numbers, which none of the value shapes \
             here describes. Edit portal.toml by hand for now",
        ),
    ]
}

/// The deferred prefixes: the value of [`deferred_table`].
pub fn deferred() -> (r: Vec<(&'static str, &'static str)>)
    ensures
        r@ == deferred_table(),
        r@.len() == DEFERRED_COUNT,
{
    let r = vec![
        (
            "background.output",
            "a per-monitor wallpaper is a picture, a mode and a color that only mean anything \
             together with the connector name they hang off, so it is a collection rather than a \
             setting. Unlike the compositor's [[output]] this one would apply live, so it is first in \
             line when the collection surface lands. Edit background.toml by hand for now",
        ),
        (
            "compositor.output",
            "per-monitor settings are not written here. The machine-written outputs.toml is \
             layered on top of them, so a value set here is overridden the moment the compositor \
             next saves, and the compositor does not re-resolve outputs on reload in any case. Use \
             wlr-output-management, which the compositor implements and which applies live and \
             atomically",
        ),
        (
            "idle.timeout",
            "a countdown is several fields that only mean anything together, so it is a collection \
             rather than a setting. Edit idle.toml by hand for now",
        ),
        (
            "session.app",
            "the session's app list is a collection rather than a setting. Edit session.toml by \
             hand for now",
        ),
        (
            "session.env",
            "the session's environment is a free-form map with no fixed keys to describe. Edit \
             session.toml by hand for now",
        ),
        (
            "portal.preview.tile",
            "the thumbnail size is a fixed-length pair of numbers, which none of the value shapes \
             here describes. Edit portal.toml by hand for now",
        ),
    ];
    assert(r@ =~= deferred_table());
    r
}

/// Whether a deferred prefix covers a key: the prefix itself, or anything under it.
pub open spec fn defers(prefix: Seq<char>, key: Seq<char>) -> bool {
    key == prefix || spec_starts_with(key, prefix + "."@)
}

/// The first deferred prefix, at or after `from`, that covers `key`.
pub open spec fn first_deferral(key: Seq<char>, from: int) -> Option<int>
    decreases DEFERRED_COUNT - from,
{
    if from < 0 || from >= DEFERRED_COUNT {
        None
    } else if defers(deferred_table()[from].0@, key) {
        Some(from)
    } else {
        first_deferral(key, from + 1)
    }
}

/// What a key names.
pub enum Resolution {
    /// The setting at this position in the table.
    Setting(int),
    /// A deliberately deferred collection, at this position in [`deferred_table`].
    Deferred(int),
    Unknown,
}

/// What a key names: a setting if the table declares it, else a deferred collection if one
/// covers it, else nothing.
pub open spec fn spec_resolve(key: Seq<char>) -> Resolution {
    match spec_lookup(key) {
        Some(i) => Resolution::Setting(i),
        None => match first_deferral(key, 0) {
            Some(j) => Resolution::Deferred(j),
            None => Resolution::Unknown,
        },
    }
}

/// What resolving a key answers.
pub open spec fn spec_resolve_result(key: Seq<char>) -> Result<Setting, ErrorView> {
    match spec_resolve(key) {
        Resolution::Setting(i) => Ok(table()[i]),
        Resolution::Deferred(j) => Err(ErrorView::Unsupported { key, why: deferred_table()[j].1@ }),
        Resolution::Unknown => Err(ErrorView::UnknownKey(key)),
    }
}

/// The setting a key names, with a useful answer for the ones deliberately not offered.
pub fn resolve(key: &str) -> (r: Result<Setting, Error>)
    ensures
        match spec_resolve_result(key@) {
            Ok(s) => r matches Ok(x) && x == s,
            Err(e) => r matches Err(x) && x@ == e,
        },
{
    if let Some(i) = lookup_index(key) {
        return Ok(setting_at(i));
    }
    let all_deferred = deferred();
    let mut i: usize = 0;
    proof {
        reveal_strlit(".");
    }
    while i < all_deferred.len()
        invariant
            all_deferred@ == deferred_table(),
            i <= DEFERRED_COUNT,
            first_deferral(key@, 0) == first_deferral(key@, i as int),
            spec_lookup(key@) is None,
            "."@ == seq!['.'],
        decreases DEFERRED_COUNT - i,
    {
        let (prefix, why) = all_deferred[i];
        let mut dotted = owned(prefix);
        dotted.append(".");
        if str_eq(key, prefix) || starts_with(key, dotted.as_str()) {
            return Err(Error::Unsupported { key: owned(key), why });
        }
        i = i + 1;
    }
    Err(Error::UnknownKey(owned(key)))
}

/// The first group, at or after `from`, whose key is `key`.
pub open spec fn find_group(key: Seq<char>, from: int) -> Option<int>
    decreases group_table().len() - from,
{
    if from < 0 || from >= group_table().len() {
        None
    } else if group_table()[from].key@ == key {
        Some(from)
    } else {
        find_group(key, from + 1)
    }
}

/// What [`find_group`] answers: the first match at or after `from`, or nothing.
pub proof fn lemma_find_group(key: Seq<char>, from: int)
    requires
        0 <= from <= group_table().len(),
    ensures
        match find_group(key, from) {
            Some(i) => from <= i < group_table().len() && group_table()[i].key@ == key && forall|
                j: int,
            | from <= j < i ==> group_table()[j].key@ != key,
            None => forall|j: int| from <= j < group_table().len() ==> group_table()[j].key@ != key,
        },
    decreases group_table().len() - from,
{
    if from < group_table().len() && group_table()[from].key@ != key {
        lemma_find_group(key, from + 1);
    }
}

/// The settings a key stands for: a group's members, in order, or the one setting it names.
pub open spec fn spec_targets(key: Seq<char>) -> Result<Seq<Setting>, ErrorView> {
    match find_group(key, 0) {
        Some(g) => Ok(resolve_members(group_table()[g].members@)),
        None => match spec_resolve_result(key) {
            Ok(setting) => Ok(seq![setting]),
            Err(e) => Err(e),
        },
    }
}

/// The settings a key stands for. A fan-out key such as `appearance.palette` expands to its
/// members before anything else happens, and then travels the ordinary path.
pub fn targets(key: &str) -> (r: Result<Vec<Setting>, Error>)
    ensures
        match spec_targets(key@) {
            Ok(list) => r matches Ok(x) && x@ == list,
            Err(e) => r matches Err(x) && x@ == e,
        },
{
    proof {
        lemma_find_group(key@, 0);
    }
    match lookup_group(key) {
        Some(group) => {
            proof {
                let i = choose|i: int|
                    0 <= i < group_table().len() && group_table()[i] == group && group.key@ == key@
                        && forall|j: int| 0 <= j < i ==> group_table()[j].key@ != key@;
                assert(find_group(key@, 0) == Some(i));
            }
            Ok(group.settings())
        },
        None => match resolve(key) {
            Ok(setting) => {
                let mut list: Vec<Setting> = Vec::new();
                list.push(setting);
                assert(list@ =~= seq![setting]);
                Ok(list)
            },
            Err(e) => Err(e),
        },
    }
}

/// Whether a string is one of an enum's choices.
pub open spec fn is_choice(choices: Seq<Choice>, value: Seq<char>) -> bool {
    exists|i: int| 0 <= i < choices.len() && #[trigger] choices[i].value@ == value
}

/// The values of an enum's choices, in order.
pub open spec fn choice_values(choices: Seq<Choice>) -> Seq<Seq<char>> {
    choices.map_values(|c: Choice| c.value@)
}

/// What checking a double against a declared range answers: the double, or the error that
/// names the range. Neither NaN nor an infinity is ever in range: one reaching a TOML file would
/// be written `inf` or `nan`, which the owner's parser refuses.
pub open spec fn check_double(key: Seq<char>, bits: u64, min: FloatLit, max: FloatLit) -> Result<
    ValueView,
    ErrorView,
> {
    if !is_finite(bits) || (!is_nan(min.bits) && order_key(bits) < order_key(min.bits)) || (
    !is_nan(max.bits) && order_key(max.bits) < order_key(bits)) {
        Err(
            ErrorView::OutOfRange {
                key,
                value: double_display(bits),
                min: min.text@,
                max: max.text@,
            },
        )
    } else {
        Ok(ValueView::Float(bits))
    }
}

/// Whether a setting's declared default, as [`default_value`] gives it, is a value the setting
/// itself accepts: a number within its range, or one of its own choices.
pub open spec fn default_accepted(setting: Setting) -> bool {
    spec_default_value(setting) matches Some(v) ==> spec_coerce(setting, v) == Ok::<
        ValueView,
        ErrorView,
    >(v)
}

/// What the bits of the decimal defaults and bounds in the table say: each is a finite,
/// positive double, whose place on the number line is its bits.
proof fn lemma_declared_doubles() by (bit_vector)
    ensures
        0x3FD0000000000000u64 & 0x7FF0000000000000u64 != 0x7FF0000000000000u64,
        0x3FD0000000000000u64 >> 63u64 == 0u64,
        0x3FD0000000000000u64 & 0x7FFFFFFFFFFFFFFFu64 == 0x3FD0000000000000u64,
        0x3F947AE147AE147Bu64 & 0x7FF0000000000000u64 != 0x7FF0000000000000u64,
        0x3F947AE147AE147Bu64 >> 63u64 == 0u64,
        0x3F947AE147AE147Bu64 & 0x7FFFFFFFFFFFFFFFu64 == 0x3F947AE147AE147Bu64,
        0x3FECCCCCCCCCCCCDu64 & 0x7FF0000000000000u64 != 0x7FF0000000000000u64,
        0x3FECCCCCCCCCCCCDu64 >> 63u64 == 0u64,
        0x3FECCCCCCCCCCCCDu64 & 0x7FFFFFFFFFFFFFFFu64 == 0x3FECCCCCCCCCCCCDu64,
        0x3FE199999999999Au64 & 0x7FF0000000000000u64 != 0x7FF0000000000000u64,
        0x3FE199999999999Au64 >> 63u64 == 0u64,
        0x3FE199999999999Au64 & 0x7FFFFFFFFFFFFFFFu64 == 0x3FE199999999999Au64,
        0x0000000000000000u64 & 0x7FF0000000000000u64 != 0x7FF0000000000000u64,
        0x0000000000000000u64 >> 63u64 == 0u64,
        0x0000000000000000u64 & 0x7FFFFFFFFFFFFFFFu64 == 0x0000000000000000u64,
        0x3FF0000000000000u64 & 0x7FF0000000000000u64 != 0x7FF0000000000000u64,
        0x3FF0000000000000u64 >> 63u64 == 0u64,
        0x3FF0000000000000u64 & 0x7FFFFFFFFFFFFFFFu64 == 0x3FF0000000000000u64,
{
}

/// Every declared default is a value its own setting accepts: within its range, or among its
/// choices. A default the setting refused would be one no client could set back after a reset.
pub proof fn law_defaults_are_accepted()
    ensures
        forall|i: int| 0 <= i < table().len() ==> default_accepted(#[trigger] table()[i]),
{
    lemma_declared_doubles();
    let t = table();
    assert forall|i: int| 0 <= i < t.len() implies default_accepted(#[trigger] t[i]) by {
        // An enum's default is its first choice.
        if let Kind::Enum { default: Some(d), choices } = t[i].kind {
            assert(choices@[0].value@ == d@);
        }
    }
}

/// Whether a value has the shape a setting's kind declares and lies where it allows: a number
/// finite and within its range, a string of an enum among its choices.
pub open spec fn within_kind(kind: Kind, value: ValueView) -> bool {
    match (kind, value) {
        (Kind::Bool { .. }, ValueView::Bool(_)) => true,
        (Kind::Int { min, max, .. }, ValueView::Int(v)) => min <= v <= max,
        (Kind::Float { min, max, .. }, ValueView::Float(bits)) => {
            &&& is_finite(bits)
            &&& !is_nan(min.bits) ==> order_key(min.bits) <= order_key(bits)
            &&& !is_nan(max.bits) ==> order_key(bits) <= order_key(max.bits)
        },
        (Kind::Str { .. }, ValueView::Str(_)) => true,
        (Kind::Enum { choices, .. }, ValueView::Str(v)) => is_choice(choices@, v),
        (Kind::StrList { .. }, ValueView::StrList(_)) => true,
        _ => false,
    }
}

/// What a setting accepts is of its kind and within its range, and accepting it again changes
/// nothing: a value that was written reads back as one the setting accepts as it is.
pub proof fn law_accepted_values_are_in_range(setting: Setting, value: ValueView)
    requires
        spec_coerce(setting, value) is Ok,
    ensures
        within_kind(setting.kind, spec_coerce(setting, value)->Ok_0),
        spec_coerce(setting, spec_coerce(setting, value)->Ok_0) == spec_coerce(setting, value),
{
}

/// A value of a setting's own kind that lies where the setting allows is accepted as it is:
/// a switch as sent, a number within its range unchanged, a choice among its choices, and a list
/// of strings as exactly that list, every item kept and in its order.
pub proof fn law_values_within_kind_are_kept(setting: Setting, value: ValueView)
    requires
        within_kind(setting.kind, value),
    ensures
        spec_coerce(setting, value) == Ok::<ValueView, ErrorView>(value),
{
}

/// A value checked against what the schema declares for a setting, and coerced where that is
/// safe.
///
/// A whole number is accepted where a fraction is wanted -- it is what a client sends when
/// someone types `0` into a box for a fraction -- and converted to the nearest double, because
/// TOML itself is stricter: `deadzone = 0` is a parse error for a field declared `f32`.
pub open spec fn spec_coerce(setting: Setting, value: ValueView) -> Result<ValueView, ErrorView> {
    let key = setting.key@;
    match (setting.kind, value) {
        (Kind::Bool { .. }, ValueView::Bool(_)) => Ok(value),
        (Kind::Int { min, max, .. }, ValueView::Int(v)) => if v < min || v > max {
            Err(
                ErrorView::OutOfRange {
                    key,
                    value: spec_int_text(v as int),
                    min: spec_int_text(min as int),
                    max: spec_int_text(max as int),
                },
            )
        } else {
            Ok(value)
        },
        (Kind::Float { min, max, .. }, ValueView::Float(bits)) => check_double(key, bits, min, max),
        (Kind::Float { min, max, .. }, ValueView::Int(v)) => check_double(
            key,
            int_as_double(v),
            min,
            max,
        ),
        (Kind::Str { .. }, ValueView::Str(_)) => Ok(value),
        (Kind::Enum { choices, .. }, ValueView::Str(v)) => if is_choice(choices@, v) {
            Ok(value)
        } else {
            Err(ErrorView::InvalidValue { key, value: v, choices: choice_values(choices@) })
        },
        (Kind::StrList { .. }, ValueView::StrList(_)) => Ok(value),
        _ => Err(
            ErrorView::WrongType {
                key,
                wanted: spec_kind_name(setting.kind),
                got: spec_value_kind_name(value),
            },
        ),
    }
}

/// A double checked against a declared range.
fn check_double_exec(key: &str, value: Double, min: FloatLit, max: FloatLit) -> (r: Result<
    Value,
    Error,
>)
    ensures
        match check_double(key@, value.spec_bits(), min, max) {
            Ok(v) => r matches Ok(x) && x@ == v,
            Err(e) => r matches Err(x) && x@ == e,
        },
{
    let bits = value.bits();
    if !finite(bits) || double_less(bits, min.bits) || double_less(max.bits, bits) {
        return Err(
            Error::OutOfRange {
                key: owned(key),
                value: value.text(),
                min: owned(min.text),
                max: owned(max.text),
            },
        );
    }
    Ok(Value::Float(value))
}

/// Whether a string is one of an enum's choices.
fn choice_listed(choices: &[Choice], value: &str) -> (r: bool)
    ensures
        r == is_choice(choices@, value@),
{
    let mut i: usize = 0;
    while i < choices.len()
        invariant
            i <= choices@.len(),
            forall|j: int| 0 <= j < i ==> choices@[j].value@ != value@,
        decreases choices@.len() - i,
    {
        if str_eq(choices[i].value, value) {
            return true;
        }
        i = i + 1;
    }
    false
}

/// The values of an enum's choices, in order.
fn listed_choices(choices: &[Choice]) -> (r: Vec<&'static str>)
    ensures
        names_view(r@) == choice_values(choices@),
{
    let mut out: Vec<&'static str> = Vec::new();
    let mut i: usize = 0;
    while i < choices.len()
        invariant
            i <= choices@.len(),
            out@.len() == i,
            forall|j: int| 0 <= j < i ==> out@[j]@ == choices@[j].value@,
        decreases choices@.len() - i,
    {
        out.push(choices[i].value);
        i = i + 1;
    }
    assert(names_view(out@) =~= choice_values(choices@));
    out
}

/// Check a value against what the schema declares, and coerce where it is safe to.
pub fn coerce(setting: &Setting, value: Value) -> (r: Result<Value, Error>)
    ensures
        match spec_coerce(*setting, value@) {
            Ok(v) => r matches Ok(x) && x@ == v,
            Err(e) => r matches Err(x) && x@ == e,
        },
{
    let ghost v = value@;
    match (setting.kind, value) {
        (Kind::Bool { .. }, Value::Bool(b)) => Ok(Value::Bool(b)),
        (Kind::Int { min, max, .. }, Value::Int(i)) => {
            if i < min || i > max {
                return Err(
                    Error::OutOfRange {
                        key: owned(setting.key),
                        value: int_text(i),
                        min: int_text(min),
                        max: int_text(max),
                    },
                );
            }
            Ok(Value::Int(i))
        },
        (Kind::Float { min, max, .. }, Value::Float(d)) => check_double_exec(setting.key, d, min, max),
        (Kind::Float { min, max, .. }, Value::Int(i)) => check_double_exec(
            setting.key,
            Double::from_int(i),
            min,
            max,
        ),
        (Kind::Str { .. }, Value::Str(text)) => Ok(Value::Str(text)),
        (Kind::Enum { choices, .. }, Value::Str(text)) => {
            if choice_listed(choices, text.as_str()) {
                return Ok(Value::Str(text));
            }
            Err(
                Error::InvalidValue {
                    key: owned(setting.key),
                    value: text,
                    choices: listed_choices(choices),
                },
            )
        },
        (Kind::StrList { .. }, Value::StrList(items)) => Ok(Value::StrList(items)),
        (kind, other) => Err(
            Error::WrongType { key: owned(setting.key), wanted: kind.name(), got: other.kind_name() },
        ),
    }
}

/// What a file's keys say a setting is, as the setting's kind, or `None` if they do not say.
///
/// A whole number where a fraction is declared reads as the fraction it is: somebody
/// hand-writing `deadzone = 1` has written something the owner will refuse, but reporting it
/// as unset would hide that from a panel showing the file's contents. Any other value of the
/// wrong shape reads as unset: the owner's parser will reject the whole file for the same
/// reason, and guessing would be inventing a value nothing is actually using.
pub open spec fn spec_value_of(entries: Map<Seq<char>, edit::Entry>, setting: Setting) -> Option<
    ValueView,
> {
    match spec_get(entries, path_view(setting.path@)) {
        None => None,
        Some(raw) => match (setting.kind, raw) {
            (Kind::Bool { .. }, ValueView::Bool(_)) => Some(raw),
            (Kind::Int { .. }, ValueView::Int(_)) => Some(raw),
            (Kind::Float { .. }, ValueView::Int(v)) => Some(ValueView::Float(int_as_double(v))),
            (Kind::Float { .. }, ValueView::Float(_)) => Some(raw),
            (Kind::Str { .. }, ValueView::Str(_)) => Some(raw),
            (Kind::Enum { .. }, ValueView::Str(_)) => Some(raw),
            (Kind::StrList { .. }, ValueView::StrList(_)) => Some(raw),
            _ => None,
        },
    }
}

/// What the file says a setting is, as its declared kind, or `None` if it does not say.
pub fn value_of(document: &Document, setting: &Setting) -> (r: Option<Value>)
    ensures
        edit::option_view(r) == spec_value_of(document@.entries, *setting),
{
    let raw = match document.get(setting.path) {
        Some(raw) => raw,
        None => return None,
    };
    match (setting.kind, raw) {
        (Kind::Bool { .. }, Value::Bool(b)) => Some(Value::Bool(b)),
        (Kind::Int { .. }, Value::Int(i)) => Some(Value::Int(i)),
        (Kind::Float { .. }, Value::Int(i)) => Some(Value::Float(Double::from_int(i))),
        (Kind::Float { .. }, Value::Float(d)) => Some(Value::Float(d)),
        (Kind::Str { .. }, Value::Str(text)) => Some(Value::Str(text)),
        (Kind::Enum { .. }, Value::Str(text)) => Some(Value::Str(text)),
        (Kind::StrList { .. }, Value::StrList(items)) => Some(Value::StrList(items)),
        _ => None,
    }
}

/// A setting's declared default, if it has one.
///
/// A decimal default is the double its text reads as, when that is the double it is declared
/// as -- the bits its range is checked in -- and no default otherwise. A list's default is
/// always there: the empty list is a value, unlike an unset layout.
pub open spec fn spec_default_value(setting: Setting) -> Option<ValueView> {
    match setting.kind {
        Kind::Bool { default } => match default {
            Some(b) => Some(ValueView::Bool(b)),
            None => None,
        },
        Kind::Int { default, .. } => match default {
            Some(i) => Some(ValueView::Int(i)),
            None => None,
        },
        Kind::Float { default, .. } => match default {
            Some(lit) => match parse_double(lit.text@) {
                Some(bits) => if bits == lit.bits {
                    Some(ValueView::Float(bits))
                } else {
                    None
                },
                None => None,
            },
            None => None,
        },
        Kind::Str { default } => match default {
            Some(text) => Some(ValueView::Str(text@)),
            None => None,
        },
        Kind::Enum { default, .. } => match default {
            Some(text) => Some(ValueView::Str(text@)),
            None => None,
        },
        Kind::StrList { default } => Some(ValueView::StrList(names_view(default@))),
    }
}

/// The default a setting falls back to is the one its own entry declares: a switch's, a
/// number's, a text's or a choice's declared default as it stands, a list's declared items, and
/// for a decimal its declared double or none at all -- never another value, and never one
/// where none is declared.
pub proof fn law_default_is_declared(setting: Setting)
    ensures
        setting.kind matches Kind::Bool { default: Some(b) } ==> spec_default_value(setting)
            == Some(ValueView::Bool(b)),
        setting.kind matches Kind::Int { default: Some(i), .. } ==> spec_default_value(setting)
            == Some(ValueView::Int(i)),
        setting.kind matches Kind::Str { default: Some(t) } ==> spec_default_value(setting)
            == Some(ValueView::Str(t@)),
        setting.kind matches Kind::Enum { default: Some(t), .. } ==> spec_default_value(setting)
            == Some(ValueView::Str(t@)),
        setting.kind matches Kind::StrList { default } ==> spec_default_value(setting) == Some(
            ValueView::StrList(names_view(default@)),
        ),
        setting.kind matches Kind::Float { default: Some(lit), .. } ==> (spec_default_value(
            setting,
        ) is None || spec_default_value(setting) == Some(ValueView::Float(lit.bits))),
        ({
            ||| setting.kind matches Kind::Bool { default: None }
            ||| setting.kind matches Kind::Int { default: None, .. }
            ||| setting.kind matches Kind::Float { default: None, .. }
            ||| setting.kind matches Kind::Str { default: None }
            ||| setting.kind matches Kind::Enum { default: None, .. }
        }) ==> spec_default_value(setting) is None,
{
}

/// The declared default, for a setting that has one.
pub fn default_value(setting: &Setting) -> (r: Option<Value>)
    ensures
        edit::option_view(r) == spec_default_value(*setting),
{
    match setting.kind {
        Kind::Bool { default } => match default {
            Some(b) => Some(Value::Bool(b)),
            None => None,
        },
        Kind::Int { default, .. } => match default {
            Some(i) => Some(Value::Int(i)),
            None => None,
        },
        Kind::Float { default, .. } => match default {
            Some(lit) => match Double::from_decimal(lit.text) {
                Some(d) => if d.bits() == lit.bits {
                    Some(Value::Float(d))
                } else {
                    None
                },
                None => None,
            },
            None => None,
        },
        Kind::Str { default } => match default {
            Some(text) => Some(Value::Str(owned(text))),
            None => None,
        },
        Kind::Enum { default, .. } => match default {
            Some(text) => Some(Value::Str(owned(text))),
            None => None,
        },
        Kind::StrList { default } => {
            let mut items: Vec<String> = Vec::new();
            let mut i: usize = 0;
            while i < default.len()
                invariant
                    i <= default@.len(),
                    items@.len() == i,
                    forall|j: int| 0 <= j < i ==> items@[j]@ == default@[j]@,
                decreases default@.len() - i,
            {
                items.push(owned(default[i]));
                i = i + 1;
            }
            assert(strings_view(items@) =~= names_view(default@));
            Some(Value::StrList(items))
        },
    }
}

// ---------------------------------------------------------------------------------------------
// The state
// ---------------------------------------------------------------------------------------------

/// What every setting currently is, and what is known about the files that decide it.
pub struct Store {
    roots: Roots,
    /// The effective value of each setting in the table, by position. A setting with no value
    /// in its file and no declared default -- `keyboard.layout`, where absent means "let
    /// libxkbcommon decide" -- has none.
    values: Vec<Option<Value>>,
    sources: Vec<Source>,
    /// By file: where a file that will not parse is, and the parser's own message.
    invalid: Vec<Option<(String, String)>>,
    /// By file: the exact bytes of the daemon's last write to it, until they come back.
    last_written: Vec<Option<Vec<u8>>>,
}

/// A [`Store`] as the contracts see it.
pub struct StoreView {
    pub roots: Roots,
    pub values: Seq<Option<ValueView>>,
    pub sources: Seq<Source>,
    pub invalid: Seq<Option<(Seq<char>, Seq<char>)>>,
    pub last_written: Seq<Option<Seq<u8>>>,
}

/// Where a broken file is and why, as the contracts see it.
pub open spec fn broken_view(entry: Option<(String, String)>) -> Option<(Seq<char>, Seq<char>)> {
    match entry {
        Some((path, message)) => Some((path@, message@)),
        None => None,
    }
}

/// Bytes kept, as the contracts see them.
pub open spec fn bytes_view(entry: Option<Vec<u8>>) -> Option<Seq<u8>> {
    match entry {
        Some(bytes) => Some(bytes@),
        None => None,
    }
}

impl View for Store {
    type V = StoreView;

    closed spec fn view(&self) -> StoreView {
        StoreView {
            roots: self.roots,
            values: self.values@.map_values(|v: Option<Value>| edit::option_view(v)),
            sources: self.sources@,
            invalid: self.invalid@.map_values(|e: Option<(String, String)>| broken_view(e)),
            last_written: self.last_written@.map_values(|b: Option<Vec<u8>>| bytes_view(b)),
        }
    }
}

/// The position of a file in the per-file records.
pub open spec fn fi(file: File) -> int {
    crate::paths::spec_index(file) as int
}

/// A store that has read nothing yet: no values, every source the default, no file known to be
/// broken, no write outstanding.
pub open spec fn spec_fresh(roots: Roots) -> StoreView {
    StoreView {
        roots,
        values: Seq::new(SETTING_COUNT as nat, |i: int| None),
        sources: Seq::new(SETTING_COUNT as nat, |i: int| Source::Default),
        invalid: Seq::new(crate::paths::FILE_COUNT as nat, |i: int| None),
        last_written: Seq::new(crate::paths::FILE_COUNT as nat, |i: int| None),
    }
}

impl Store {
    /// Whether the view has one record per setting and one per file.
    pub open spec fn view_shaped(v: StoreView) -> bool {
        &&& v.values.len() == SETTING_COUNT
        &&& v.sources.len() == SETTING_COUNT
        &&& v.invalid.len() == crate::paths::FILE_COUNT
        &&& v.last_written.len() == crate::paths::FILE_COUNT
    }

    /// A store that has read nothing yet: no values, every source the default, no file known
    /// to be broken, no write outstanding.
    pub fn new(roots: Roots) -> (r: Store)
        ensures
            Store::view_shaped(r@),
            r@.roots == roots,
            forall|i: int| 0 <= i < SETTING_COUNT ==> r@.values[i] is None && r@.sources[i]
                == Source::Default,
            forall|i: int| 0 <= i < crate::paths::FILE_COUNT ==> r@.invalid[i] is None
                && r@.last_written[i] is None,
    {
        let mut values: Vec<Option<Value>> = Vec::new();
        let mut sources: Vec<Source> = Vec::new();
        let mut i: usize = 0;
        while i < SETTING_COUNT
            invariant
                i <= SETTING_COUNT,
                values@.len() == i,
                sources@.len() == i,
                forall|j: int| 0 <= j < i ==> values@[j] is None && sources@[j] == Source::Default,
            decreases SETTING_COUNT - i,
        {
            values.push(None);
            sources.push(Source::Default);
            i = i + 1;
        }
        let mut invalid: Vec<Option<(String, String)>> = Vec::new();
        let mut last_written: Vec<Option<Vec<u8>>> = Vec::new();
        let mut k: usize = 0;
        while k < crate::paths::FILE_COUNT
            invariant
                k <= crate::paths::FILE_COUNT,
                invalid@.len() == k,
                last_written@.len() == k,
                forall|j: int| 0 <= j < k ==> invalid@[j] is None && last_written@[j] is None,
            decreases crate::paths::FILE_COUNT - k,
        {
            invalid.push(None);
            last_written.push(None);
            k = k + 1;
        }
        let r = Store { roots, values, sources, invalid, last_written };
        r
    }

    /// The directories this store reads from and writes to.
    pub fn roots(&self) -> (r: &Roots)
        ensures
            *r == self@.roots,
    {
        &self.roots
    }
}

// ---------------------------------------------------------------------------------------------
// Reading a file
// ---------------------------------------------------------------------------------------------

/// What the program found when it went to read a file.
pub enum Observed {
    /// Neither the user's nor the system's file exists.
    Absent,
    /// The file in force, whether it is the user's own, and its text -- or why it could not
    /// be read.
    Read { path: String, from_user: bool, text: Result<String, String> },
}

/// What reading a file amounts to: the keys that decide its settings (none when there is no
/// file) and whether they are the user's, or where the file is and why it will not do.
pub enum Reading {
    Decides(Option<Map<Seq<char>, edit::Entry>>, bool),
    Broken(Seq<char>, Seq<char>),
}

/// What reading a file amounts to.
pub open spec fn spec_reading(observed: Observed) -> Reading {
    match observed {
        Observed::Absent => Reading::Decides(None, false),
        Observed::Read { path, from_user, text } => match text {
            Err(message) => Reading::Broken(path@, message@),
            Ok(text) => match edit::toml_parsed(text@) {
                Ok(top) => Reading::Decides(Some(top), from_user),
                Err(message) => Reading::Broken(path@, message),
            },
        },
    }
}

/// What a file's keys make a setting, and where that comes from: the file's value if it has
/// one, from the user or the system; else the declared default.
pub open spec fn read_setting(
    entries: Option<Map<Seq<char>, edit::Entry>>,
    from_user: bool,
    setting: Setting,
) -> (Option<ValueView>, Source) {
    let from_file = match entries {
        Some(entries) => spec_value_of(entries, setting),
        None => None,
    };
    match from_file {
        Some(value) => (
            Some(value),
            if from_user {
                Source::User
            } else {
                Source::System
            },
        ),
        None => (spec_default_value(setting), Source::Default),
    }
}

/// The store after reading `file`.
///
/// A broken file is recorded as broken, and nothing else changes: the last-good values keep
/// being served, which is far more use to a panel than nothing or the defaults. A file that
/// reads decides every one of its settings and is no longer broken.
pub open spec fn spec_after_read(s: StoreView, file: File, reading: Reading) -> StoreView {
    match reading {
        Reading::Broken(path, message) => StoreView {
            roots: s.roots,
            values: s.values,
            sources: s.sources,
            invalid: s.invalid.update(fi(file), Some((path, message))),
            last_written: s.last_written,
        },
        Reading::Decides(entries, from_user) => StoreView {
            roots: s.roots,
            values: Seq::new(
                SETTING_COUNT as nat,
                |i: int|
                    if table()[i].file == file {
                        read_setting(entries, from_user, table()[i]).0
                    } else {
                        s.values[i]
                    },
            ),
            sources: Seq::new(
                SETTING_COUNT as nat,
                |i: int|
                    if table()[i].file == file {
                        read_setting(entries, from_user, table()[i]).1
                    } else {
                        s.sources[i]
                    },
            ),
            invalid: s.invalid.update(fi(file), None),
            last_written: s.last_written,
        },
    }
}

/// Two maybe-values the same, doubles compared as IEEE-754 compares them.
pub open spec fn opt_value_eq(a: Option<ValueView>, b: Option<ValueView>) -> bool {
    match (a, b) {
        (None, None) => true,
        (Some(x), Some(y)) => edit::value_eq(x, y),
        _ => false,
    }
}

/// The settings of `file`, among the first `n` of the table, whose value is not what it was
/// and which have one now, with what it is now, in table order.
///
/// A key that lost its value -- reset, with no default to fall back to -- is left out: a
/// client is told the value it should now display, never a hole.
pub open spec fn spec_moved(
    before: Seq<Option<ValueView>>,
    after: Seq<Option<ValueView>>,
    file: File,
    n: int,
) -> Seq<(Seq<char>, ValueView)>
    decreases n,
{
    if n <= 0 {
        Seq::empty()
    } else {
        let rest = spec_moved(before, after, file, n - 1);
        let i = n - 1;
        if table()[i].file == file && !opt_value_eq(before[i], after[i]) && after[i] is Some {
            rest.push((table()[i].key@, after[i]->0))
        } else {
            rest
        }
    }
}

/// Every setting of the file whose value moved, and which has one now, is announced with what it
/// is now, and nothing else is: a client told of the change sees each key that moved, whatever
/// its kind.
pub proof fn law_moved_is_every_change(
    before: Seq<Option<ValueView>>,
    after: Seq<Option<ValueView>>,
    file: File,
)
    ensures
        forall|i: int|
            0 <= i < SETTING_COUNT && #[trigger] table()[i].file == file && !opt_value_eq(
                before[i],
                after[i],
            ) && after[i] is Some ==> spec_moved(before, after, file, SETTING_COUNT as int).contains(
                (table()[i].key@, after[i]->0),
            ),
        forall|pair: (Seq<char>, ValueView)|
            #[trigger] spec_moved(before, after, file, SETTING_COUNT as int).contains(pair) ==> exists|
                i: int,
            |
                0 <= i < SETTING_COUNT && #[trigger] table()[i].file == file && !opt_value_eq(
                    before[i],
                    after[i],
                ) && after[i] is Some && pair == (table()[i].key@, after[i]->0),
{
    lemma_moved_members(before, after, file, SETTING_COUNT as int);
}

/// What [`spec_moved`] holds among the first `n` settings, element by element.
proof fn lemma_moved_members(
    before: Seq<Option<ValueView>>,
    after: Seq<Option<ValueView>>,
    file: File,
    n: int,
)
    ensures
        forall|i: int|
            0 <= i < n && #[trigger] table()[i].file == file && !opt_value_eq(before[i], after[i])
                && after[i] is Some ==> spec_moved(before, after, file, n).contains(
                (table()[i].key@, after[i]->0),
            ),
        forall|pair: (Seq<char>, ValueView)|
            #[trigger] spec_moved(before, after, file, n).contains(pair) ==> exists|i: int|
                0 <= i < n && #[trigger] table()[i].file == file && !opt_value_eq(
                    before[i],
                    after[i],
                ) && after[i] is Some && pair == (table()[i].key@, after[i]->0),
    decreases n,
{
    if n > 0 {
        lemma_moved_members(before, after, file, n - 1);
        let rest = spec_moved(before, after, file, n - 1);
        let all = spec_moved(before, after, file, n);
        let j = n - 1;
        assert forall|i: int|
            0 <= i < n && #[trigger] table()[i].file == file && !opt_value_eq(before[i], after[i])
                && after[i] is Some implies all.contains((table()[i].key@, after[i]->0)) by {
            if i < j {
                let k = choose|k: int| 0 <= k < rest.len() && rest[k] == (table()[i].key@, after[i]->0);
                if table()[j].file == file && !opt_value_eq(before[j], after[j]) && after[j] is Some {
                    assert(all[k] == rest[k]);
                }
            } else {
                assert(all[all.len() - 1] == (table()[i].key@, after[i]->0));
            }
        }
        assert forall|pair: (Seq<char>, ValueView)| #[trigger] all.contains(pair) implies exists|i: int|
            0 <= i < n && #[trigger] table()[i].file == file && !opt_value_eq(before[i], after[i])
                && after[i] is Some && pair == (table()[i].key@, after[i]->0) by {
            let k = choose|k: int| 0 <= k < all.len() && all[k] == pair;
            if k < rest.len() {
                assert(rest[k] == pair);
                assert(rest.contains(pair));
            } else {
                assert(table()[j].file == file);
            }
        }
    }
}

/// The keys of a document, if there is one.
pub open spec fn doc_entries(document: Option<Document>) -> Option<Map<Seq<char>, edit::Entry>> {
    match document {
        Some(d) => Some(d@.entries),
        None => None,
    }
}

/// Keyed values as the contracts see them.
pub open spec fn pairs_view(pairs: Seq<(&'static str, Value)>) -> Seq<(Seq<char>, ValueView)> {
    pairs.map_values(|p: (&'static str, Value)| (p.0@, p.1@))
}

/// Whether two maybe-values are the same, doubles compared as numbers.
pub fn same_option(a: &Option<Value>, b: &Option<Value>) -> (r: bool)
    ensures
        r == opt_value_eq(edit::option_view(*a), edit::option_view(*b)),
{
    match (a, b) {
        (None, None) => true,
        (Some(x), Some(y)) => x.same_as(y),
        _ => false,
    }
}

impl Store {
    /// Re-read one file, given what reading it found, and answer which of its settings moved
    /// and what they are now.
    pub fn reread(&mut self, file: File, observed: Observed) -> (moved: Vec<(&'static str, Value)>)
        requires
            Store::view_shaped(old(self)@),
        ensures
            Store::view_shaped(final(self)@),
            final(self)@ == spec_after_read(old(self)@, file, spec_reading(observed)),
            match spec_reading(observed) {
                Reading::Broken(_, _) => moved@.len() == 0,
                Reading::Decides(_, _) => pairs_view(moved@) == spec_moved(
                    old(self)@.values,
                    final(self)@.values,
                    file,
                    SETTING_COUNT as int,
                ),
            },
    {
        proof {
            crate::paths::lemma_files();
        }
        let ghost before = self@;
        let ghost reading = spec_reading(observed);
        let idx = file.index();
        let (document, from_user) = match observed {
            Observed::Absent => (None, false),
            Observed::Read { path, from_user, text } => match edit::read_document(
                path.as_str(),
                text,
            ) {
                Ok(document) => (Some(document), from_user),
                Err(edit::Error::Parse { path, message }) => {
                    self.invalid.set(idx, Some((path, message)));
                    proof {
                        assert(self@.invalid =~= before.invalid.update(fi(file), Some((path@, message@))));
                        assert(self@ =~= spec_after_read(before, file, reading));
                    }
                    return Vec::new();
                },
                Err(edit::Error::Read { path, message }) => {
                    self.invalid.set(idx, Some((path, message)));
                    proof {
                        assert(self@.invalid =~= before.invalid.update(fi(file), Some((path@, message@))));
                        assert(self@ =~= spec_after_read(before, file, reading));
                    }
                    return Vec::new();
                },
                Err(_) => {
                    proof {
                        assert(false);
                    }
                    return Vec::new();
                },
            },
        };
        let ghost entries = doc_entries(document);
        assert(reading == Reading::Decides(entries, from_user));
        let ghost target = spec_after_read(before, file, reading);
        self.invalid.set(idx, None);
        let all_settings = settings();
        let mut moved: Vec<(&'static str, Value)> = Vec::new();
        let mut i: usize = 0;
        while i < SETTING_COUNT
            invariant
                all_settings@ == table(),
                i <= SETTING_COUNT,
                self.values@.len() == SETTING_COUNT,
                self.sources@.len() == SETTING_COUNT,
                self@.roots == before.roots,
                self@.invalid == target.invalid,
                self@.last_written == before.last_written,
                target == spec_after_read(before, file, Reading::Decides(entries, from_user)),
                entries == doc_entries(document),
                before.values.len() == SETTING_COUNT,
                before.sources.len() == SETTING_COUNT,
                forall|j: int| 0 <= j < i ==> self@.values[j] == target.values[j] && self@.sources[j]
                    == target.sources[j],
                forall|j: int| i <= j < SETTING_COUNT ==> self@.values[j] == before.values[j]
                    && self@.sources[j] == before.sources[j],
                pairs_view(moved@) == spec_moved(before.values, target.values, file, i as int),
            decreases SETTING_COUNT - i,
        {
            let setting = all_settings[i];
            if setting.file == file {
                let from_file = match &document {
                    Some(d) => value_of(d, &setting),
                    None => None,
                };
                let (value, source) = match from_file {
                    Some(v) => (Some(v), if from_user {
                        Source::User
                    } else {
                        Source::System
                    }),
                    None => (default_value(&setting), Source::Default),
                };
                let changed = !same_option(&self.values[i], &value);
                if changed {
                    match &value {
                        Some(v) => {
                            let copy = v.clone();
                            moved.push((setting.key, copy));
                        },
                        None => {},
                    }
                }
                proof {
                    assert(pairs_view(moved@) =~= spec_moved(
                        before.values,
                        target.values,
                        file,
                        i + 1,
                    ));
                }
                self.values.set(i, value);
                self.sources.set(i, source);
            } else {
                proof {
                    assert(spec_moved(before.values, target.values, file, i + 1) == spec_moved(
                        before.values,
                        target.values,
                        file,
                        i as int,
                    ));
                }
            }
            i = i + 1;
        }
        proof {
            assert(self@.values =~= target.values);
            assert(self@.sources =~= target.sources);
            assert(self@ =~= target);
        }
        moved
    }
}

// ---------------------------------------------------------------------------------------------
// Answering
// ---------------------------------------------------------------------------------------------

/// What `get` answers for a key: the value of the setting it names -- for a fan-out key, of
/// its first member -- or `None` where nothing sets it and there is no default.
pub open spec fn spec_get_key(s: StoreView, key: Seq<char>) -> Result<Option<ValueView>, ErrorView> {
    match spec_targets(key) {
        Err(e) => Err(e),
        Ok(list) => if list.len() == 0 {
            Ok(None)
        } else {
            match spec_lookup(list[0].key@) {
                Some(i) => Ok(s.values[i]),
                None => Ok(None),
            }
        },
    }
}

/// The settings of a namespace, among the first `n` of the table, that have a value, with it.
pub open spec fn spec_get_all(s: StoreView, namespace: Seq<char>, n: int) -> Seq<
    (Seq<char>, ValueView),
>
    decreases n,
{
    if n <= 0 {
        Seq::empty()
    } else {
        let rest = spec_get_all(s, namespace, n - 1);
        let i = n - 1;
        if spec_namespace(table()[i].file) == namespace && s.values[i] is Some {
            rest.push((table()[i].key@, s.values[i]->0))
        } else {
            rest
        }
    }
}

/// Every setting of a namespace with a value is in the answer, with that value, and nothing
/// else is: a panel drawn from it shows each key that has a value, whatever its kind.
pub proof fn law_get_all_is_every_value(s: StoreView, namespace: Seq<char>)
    ensures
        forall|i: int|
            0 <= i < SETTING_COUNT && spec_namespace(#[trigger] table()[i].file) == namespace
                && s.values[i] is Some ==> spec_get_all(s, namespace, SETTING_COUNT as int).contains(
                (table()[i].key@, s.values[i]->0),
            ),
        forall|pair: (Seq<char>, ValueView)|
            #[trigger] spec_get_all(s, namespace, SETTING_COUNT as int).contains(pair) ==> exists|
                i: int,
            |
                0 <= i < SETTING_COUNT && spec_namespace(#[trigger] table()[i].file) == namespace
                    && s.values[i] is Some && pair == (table()[i].key@, s.values[i]->0),
{
    lemma_get_all_members(s, namespace, SETTING_COUNT as int);
}

/// What [`spec_get_all`] holds among the first `n` settings, element by element.
proof fn lemma_get_all_members(s: StoreView, namespace: Seq<char>, n: int)
    ensures
        forall|i: int|
            0 <= i < n && spec_namespace(#[trigger] table()[i].file) == namespace
                && s.values[i] is Some ==> spec_get_all(s, namespace, n).contains(
                (table()[i].key@, s.values[i]->0),
            ),
        forall|pair: (Seq<char>, ValueView)|
            #[trigger] spec_get_all(s, namespace, n).contains(pair) ==> exists|i: int|
                0 <= i < n && spec_namespace(#[trigger] table()[i].file) == namespace
                    && s.values[i] is Some && pair == (table()[i].key@, s.values[i]->0),
    decreases n,
{
    if n > 0 {
        lemma_get_all_members(s, namespace, n - 1);
        let rest = spec_get_all(s, namespace, n - 1);
        let all = spec_get_all(s, namespace, n);
        let j = n - 1;
        assert forall|i: int|
            0 <= i < n && spec_namespace(#[trigger] table()[i].file) == namespace
                && s.values[i] is Some implies all.contains((table()[i].key@, s.values[i]->0)) by {
            if i < j {
                let k = choose|k: int| 0 <= k < rest.len() && rest[k] == (table()[i].key@, s.values[i]->0);
                if spec_namespace(table()[j].file) == namespace && s.values[j] is Some {
                    assert(all[k] == rest[k]);
                }
            } else {
                assert(all[all.len() - 1] == (table()[i].key@, s.values[i]->0));
            }
        }
        assert forall|pair: (Seq<char>, ValueView)| #[trigger] all.contains(pair) implies exists|i: int|
            0 <= i < n && spec_namespace(#[trigger] table()[i].file) == namespace
                && s.values[i] is Some && pair == (table()[i].key@, s.values[i]->0) by {
            let k = choose|k: int| 0 <= k < all.len() && all[k] == pair;
            if k < rest.len() {
                assert(rest[k] == pair);
                assert(rest.contains(pair));
            } else {
                assert(spec_namespace(table()[j].file) == namespace);
            }
        }
    }
}

/// The settings of a namespace, among the first `n` of the table, with where each one's value
/// comes from.
pub open spec fn spec_sources(s: StoreView, namespace: Seq<char>, n: int) -> Seq<
    (Seq<char>, Source),
>
    decreases n,
{
    if n <= 0 {
        Seq::empty()
    } else {
        let rest = spec_sources(s, namespace, n - 1);
        let i = n - 1;
        if spec_namespace(table()[i].file) == namespace {
            rest.push((table()[i].key@, s.sources[i]))
        } else {
            rest
        }
    }
}

/// The files, among the first `n`, that will not parse: namespace, path and message.
pub open spec fn spec_invalid(s: StoreView, n: int) -> Seq<(Seq<char>, Seq<char>, Seq<char>)>
    decreases n,
{
    if n <= 0 {
        Seq::empty()
    } else {
        let rest = spec_invalid(s, n - 1);
        match s.invalid[n - 1] {
            Some((path, message)) => rest.push(
                (spec_namespace(crate::paths::spec_all()[n - 1]), path, message),
            ),
            None => rest,
        }
    }
}

/// A copy of a maybe-value.
pub fn copy_option(v: &Option<Value>) -> (r: Option<Value>)
    ensures
        edit::option_view(r) == edit::option_view(*v),
{
    match v {
        Some(v) => Some(v.clone()),
        None => None,
    }
}

/// Whether two byte strings are the same.
pub fn same_bytes(a: &[u8], b: &[u8]) -> (r: bool)
    ensures
        r == (a@ == b@),
{
    if a.len() != b.len() {
        return false;
    }
    let mut i: usize = 0;
    while i < a.len()
        invariant
            a@.len() == b@.len(),
            i <= a@.len(),
            forall|j: int| 0 <= j < i ==> a@[j] == b@[j],
        decreases a@.len() - i,
    {
        if a[i] != b[i] {
            return false;
        }
        i = i + 1;
    }
    assert(a@ =~= b@);
    true
}

/// Whether what is on disk at the user's path is, byte for byte, what the daemon last wrote
/// there.
pub open spec fn spec_own_write(s: StoreView, file: File, actual: Option<Seq<u8>>) -> bool {
    &&& s.roots.spec_user_path(file) is Some
    &&& s.last_written[fi(file)] is Some
    &&& actual == s.last_written[fi(file)]
}

/// The path a reading was of, or nothing.
pub open spec fn observed_path(observed: Observed) -> Seq<char> {
    match observed {
        Observed::Read { path, .. } => path@,
        Observed::Absent => Seq::empty(),
    }
}

/// Something a watch noticed that subscribers should hear about.
#[derive(Debug)]
pub enum Notice {
    Changed(Changed),
    /// A file was hand-edited into something that will not parse.
    Invalid { namespace: &'static str, path: String, message: String },
    /// ...and then fixed.
    Recovered { namespace: &'static str, path: String },
}

/// What a write, or a change seen on disk, amounts to.
#[derive(Debug)]
pub struct Changed {
    /// The keys whose effective value is now different, and what it is now.
    pub values: Vec<(&'static str, Value)>,
    /// What became of the change, per owning program.
    pub outcomes: Vec<(&'static str, Outcome)>,
}

/// What re-reading one file after a watch noticed it amounts to.
#[derive(Debug)]
pub struct Refresh {
    /// That it broke, or that it was fixed.
    pub notice: Option<Notice>,
    /// Which of its settings moved, and what they are now.
    pub moved: Vec<(&'static str, Value)>,
}

impl Store {
    /// The effective value of one key: the file's, else its declared default. For a fan-out
    /// key, its first member's.
    pub fn get(&self, key: &str) -> (r: Result<Option<Value>, Error>)
        requires
            Store::view_shaped(self@),
        ensures
            match spec_get_key(self@, key@) {
                Ok(v) => r matches Ok(x) && edit::option_view(x) == v,
                Err(e) => r matches Err(x) && x@ == e,
            },
    {
        let list = match targets(key) {
            Ok(list) => list,
            Err(e) => return Err(e),
        };
        if list.len() == 0 {
            return Ok(None);
        }
        match lookup_index(list[0].key) {
            Some(i) => Ok(copy_option(&self.values[i])),
            None => Ok(None),
        }
    }

    /// Every setting in a namespace that has a value, with its effective value, in table
    /// order.
    pub fn get_all(&self, namespace: &str) -> (r: Vec<(&'static str, Value)>)
        requires
            Store::view_shaped(self@),
        ensures
            pairs_view(r@) == spec_get_all(self@, namespace@, SETTING_COUNT as int),
    {
        let all_settings = settings();
        let mut out: Vec<(&'static str, Value)> = Vec::new();
        let mut i: usize = 0;
        while i < SETTING_COUNT
            invariant
                all_settings@ == table(),
                i <= SETTING_COUNT,
                Store::view_shaped(self@),
                pairs_view(out@) == spec_get_all(self@, namespace@, i as int),
            decreases SETTING_COUNT - i,
        {
            let setting = all_settings[i];
            if str_eq(setting.file.namespace(), namespace) {
                match &self.values[i] {
                    Some(v) => out.push((setting.key, v.clone())),
                    None => {},
                }
            }
            proof {
                assert(pairs_view(out@) =~= spec_get_all(self@, namespace@, i + 1));
            }
            i = i + 1;
        }
        out
    }

    /// Where each setting in a namespace gets its value from, in table order.
    pub fn sources(&self, namespace: &str) -> (r: Vec<(&'static str, Source)>)
        requires
            Store::view_shaped(self@),
        ensures
            r@.map_values(|p: (&'static str, Source)| (p.0@, p.1)) == spec_sources(
                self@,
                namespace@,
                SETTING_COUNT as int,
            ),
    {
        let all_settings = settings();
        let mut out: Vec<(&'static str, Source)> = Vec::new();
        let mut i: usize = 0;
        while i < SETTING_COUNT
            invariant
                all_settings@ == table(),
                i <= SETTING_COUNT,
                Store::view_shaped(self@),
                out@.map_values(|p: (&'static str, Source)| (p.0@, p.1)) == spec_sources(
                    self@,
                    namespace@,
                    i as int,
                ),
            decreases SETTING_COUNT - i,
        {
            let setting = all_settings[i];
            if str_eq(setting.file.namespace(), namespace) {
                out.push((setting.key, self.sources[i]));
            }
            proof {
                assert(out@.map_values(|p: (&'static str, Source)| (p.0@, p.1)) =~= spec_sources(
                    self@,
                    namespace@,
                    i + 1,
                ));
            }
            i = i + 1;
        }
        out
    }

    /// The files that will not currently parse: namespace, path, and the parser's message.
    pub fn invalid(&self) -> (r: Vec<(&'static str, String, String)>)
        requires
            Store::view_shaped(self@),
        ensures
            r@.map_values(|e: (&'static str, String, String)| (e.0@, e.1@, e.2@)) == spec_invalid(
                self@,
                crate::paths::FILE_COUNT as int,
            ),
    {
        let files = crate::paths::all();
        proof {
            crate::paths::lemma_files();
        }
        let mut out: Vec<(&'static str, String, String)> = Vec::new();
        let mut k: usize = 0;
        while k < files.len()
            invariant
                files@ == crate::paths::spec_all(),
                files@.len() == crate::paths::FILE_COUNT,
                k <= crate::paths::FILE_COUNT,
                Store::view_shaped(self@),
                out@.map_values(|e: (&'static str, String, String)| (e.0@, e.1@, e.2@))
                    == spec_invalid(self@, k as int),
            decreases crate::paths::FILE_COUNT - k,
        {
            match &self.invalid[k] {
                Some((path, message)) => {
                    out.push((files[k].namespace(), owned(path.as_str()), owned(message.as_str())));
                },
                None => {},
            }
            proof {
                assert(out@.map_values(|e: (&'static str, String, String)| (e.0@, e.1@, e.2@))
                    =~= spec_invalid(self@, k + 1));
            }
            k = k + 1;
        }
        out
    }

    /// Keep the bytes just written to `file`'s user path, to recognize them when they come
    /// back.
    pub fn record_write(&mut self, file: File, bytes: Vec<u8>)
        requires
            Store::view_shaped(old(self)@),
        ensures
            Store::view_shaped(final(self)@),
            final(self)@ == (StoreView {
                last_written: old(self)@.last_written.update(fi(file), Some(bytes@)),
                ..old(self)@
            }),
    {
        proof {
            crate::paths::lemma_files();
        }
        let ghost before = self@;
        self.last_written.set(file.index(), Some(bytes));
        proof {
            assert(self@.last_written =~= before.last_written.update(fi(file), Some(bytes@)));
        }
    }

    /// Whether what is at `file`'s user path -- `actual`, or `None` when it could not be
    /// read -- is byte for byte what the daemon last wrote there.
    ///
    /// Consumes the record as it matches: the write has been accounted for, and holding on to
    /// the bytes would only mean a later hand-edit that happened to undo itself exactly was
    /// also mistaken for ours.
    pub fn is_our_own_write(&mut self, file: File, actual: Option<&[u8]>) -> (r: bool)
        requires
            Store::view_shaped(old(self)@),
        ensures
            Store::view_shaped(final(self)@),
            r == spec_own_write(
                old(self)@,
                file,
                match actual {
                    Some(bytes) => Some(bytes@),
                    None => None,
                },
            ),
            final(self)@ == (if r {
                StoreView {
                    last_written: old(self)@.last_written.update(fi(file), None),
                    ..old(self)@
                }
            } else {
                old(self)@
            }),
    {
        proof {
            crate::paths::lemma_files();
        }
        let ghost before = self@;
        let idx = file.index();
        if self.roots.user_path(file).is_none() {
            return false;
        }
        let same = match (&self.last_written[idx], actual) {
            (Some(expected), Some(bytes)) => same_bytes(expected.as_slice(), bytes),
            _ => false,
        };
        if same {
            self.last_written.set(idx, None);
            proof {
                assert(self@.last_written =~= before.last_written.update(fi(file), None));
            }
        }
        same
    }

    /// Re-read a file a watch says changed, given what is at its user path now (`actual`) and
    /// what reading the file in force found.
    ///
    /// The daemon's own write coming back is consumed and announces nothing. A file that
    /// breaks is reported once, keeps its last-good values, and moves nothing: its owner must
    /// not be told. A broken file that reads again is reported as recovered, and whatever
    /// moved comes with it.
    pub fn refresh_file(&mut self, file: File, actual: Option<&[u8]>, observed: Observed) -> (r:
        Refresh)
        requires
            Store::view_shaped(old(self)@),
        ensures
            Store::view_shaped(final(self)@),
            ({
                let own = spec_own_write(
                    old(self)@,
                    file,
                    match actual {
                        Some(bytes) => Some(bytes@),
                        None => None,
                    },
                );
                let reading = spec_reading(observed);
                let was_invalid = old(self)@.invalid[fi(file)] is Some;
                if own {
                    &&& final(self)@ == (StoreView {
                        last_written: old(self)@.last_written.update(fi(file), None),
                        ..old(self)@
                    })
                    &&& r.notice is None
                    &&& r.moved@.len() == 0
                } else {
                    &&& final(self)@ == spec_after_read(old(self)@, file, reading)
                    &&& match reading {
                        Reading::Broken(path, message) => {
                            &&& r.moved@.len() == 0
                            &&& if was_invalid {
                                r.notice is None
                            } else {
                                r.notice matches Some(Notice::Invalid { namespace, path: p, message: m })
                                    && namespace@ == spec_namespace(file) && p@ == path && m@
                                    == message
                            }
                        },
                        Reading::Decides(_, _) => {
                            &&& pairs_view(r.moved@) == spec_moved(
                                old(self)@.values,
                                final(self)@.values,
                                file,
                                SETTING_COUNT as int,
                            )
                            &&& if was_invalid {
                                r.notice matches Some(Notice::Recovered { namespace, path })
                                    && namespace@ == spec_namespace(file) && path@
                                    == observed_path(observed)
                            } else {
                                r.notice is None
                            }
                        },
                    }
                }
            }),
    {
        proof {
            crate::paths::lemma_files();
        }
        if self.is_our_own_write(file, actual) {
            return Refresh { notice: None, moved: Vec::new() };
        }
        let idx = file.index();
        let was_invalid = self.invalid[idx].is_some();
        let ghost reading = spec_reading(observed);
        let ghost before = self@;
        let path = match &observed {
            Observed::Read { path, .. } => owned(path.as_str()),
            Observed::Absent => String::new(),
        };
        assert(path@ == observed_path(observed));
        let moved = self.reread(file, observed);
        proof {
            match reading {
                Reading::Broken(p, m) => {
                    assert(self@.invalid[fi(file)] == Some((p, m)));
                },
                Reading::Decides(_, _) => {
                    assert(self@.invalid[fi(file)] is None);
                },
            }
        }
        match &self.invalid[idx] {
            Some((broken, message)) => {
                if was_invalid {
                    Refresh { notice: None, moved: Vec::new() }
                } else {
                    Refresh {
                        notice: Some(
                            Notice::Invalid {
                                namespace: file.namespace(),
                                path: owned(broken.as_str()),
                                message: owned(message.as_str()),
                            },
                        ),
                        moved: Vec::new(),
                    }
                }
            },
            None => {
                if was_invalid {
                    Refresh {
                        notice: Some(Notice::Recovered { namespace: file.namespace(), path }),
                        moved,
                    }
                } else {
                    Refresh { notice: None, moved }
                }
            },
        }
    }
}

// ---------------------------------------------------------------------------------------------
// Changing settings
// ---------------------------------------------------------------------------------------------

/// One edit of a file: a setting, and the value to set it to, or `None` to remove it so it
/// falls back to its default.
#[derive(Debug)]
pub struct Edit {
    pub setting: Setting,
    pub value: Option<Value>,
}

/// An edit as the contracts see it.
pub open spec fn edit_view(e: Edit) -> (Setting, Option<ValueView>) {
    (e.setting, edit::option_view(e.value))
}

/// Edits as the contracts see them.
pub open spec fn edits_view(edits: Seq<Edit>) -> Seq<(Setting, Option<ValueView>)> {
    edits.map_values(|e: Edit| edit_view(e))
}

/// Every edit bound for one file, in the order they were asked for.
#[derive(Debug)]
pub struct FileEdits {
    pub file: File,
    pub edits: Vec<Edit>,
}

/// A request, validated and resolved: the edits of each file that has any, in file order.
#[derive(Debug)]
pub struct Plan {
    pub files: Vec<FileEdits>,
}

/// A plan as the contracts see it.
pub open spec fn plan_view(plan: Plan) -> Seq<(File, Seq<(Setting, Option<ValueView>)>)> {
    plan.files@.map_values(|f: FileEdits| (f.file, edits_view(f.edits@)))
}

/// One value checked against each of the settings it is for, in order; the first refusal.
pub open spec fn spec_coerce_all(list: Seq<Setting>, value: ValueView) -> Result<
    Seq<(Setting, Option<ValueView>)>,
    ErrorView,
>
    decreases list.len(),
{
    if list.len() == 0 {
        Ok(Seq::empty())
    } else {
        match spec_coerce_all(list.drop_last(), value) {
            Err(e) => Err(e),
            Ok(done) => match spec_coerce(list.last(), value) {
                Err(e) => Err(e),
                Ok(v) => Ok(done.push((list.last(), Some(v)))),
            },
        }
    }
}

/// The edits a batch of `(key, value)` asks for, in order, or the first thing wrong with it.
pub open spec fn spec_set_edits(requested: Seq<(Seq<char>, ValueView)>) -> Result<
    Seq<(Setting, Option<ValueView>)>,
    ErrorView,
>
    decreases requested.len(),
{
    if requested.len() == 0 {
        Ok(Seq::empty())
    } else {
        match spec_set_edits(requested.drop_last()) {
            Err(e) => Err(e),
            Ok(done) => match spec_targets(requested.last().0) {
                Err(e) => Err(e),
                Ok(list) => match spec_coerce_all(list, requested.last().1) {
                    Err(e) => Err(e),
                    Ok(more) => Ok(done + more),
                },
            },
        }
    }
}

/// The removals a batch of keys asks for, in order, or the first key that names nothing.
pub open spec fn spec_reset_edits(keys: Seq<Seq<char>>) -> Result<
    Seq<(Setting, Option<ValueView>)>,
    ErrorView,
>
    decreases keys.len(),
{
    if keys.len() == 0 {
        Ok(Seq::empty())
    } else {
        match spec_reset_edits(keys.drop_last()) {
            Err(e) => Err(e),
            Ok(done) => match spec_targets(keys.last()) {
                Err(e) => Err(e),
                Ok(list) => Ok(
                    done + list.map_values(|s: Setting| (s, None::<ValueView>)),
                ),
            },
        }
    }
}

/// Whether an edit is bound for `file`.
pub open spec fn bound_for(file: File) -> spec_fn((Setting, Option<ValueView>)) -> bool {
    |e: (Setting, Option<ValueView>)| e.0.file == file
}

/// The edits grouped by file, for the first `k` files in file order, leaving out files with
/// none. Within a file the edits keep the order they were asked for.
pub open spec fn spec_group(edits: Seq<(Setting, Option<ValueView>)>, k: int) -> Seq<
    (File, Seq<(Setting, Option<ValueView>)>),
>
    decreases k,
{
    if k <= 0 {
        Seq::empty()
    } else {
        let rest = spec_group(edits, k - 1);
        let file = crate::paths::spec_all()[k - 1];
        let mine = edits.filter(bound_for(file));
        if mine.len() > 0 {
            rest.push((file, mine))
        } else {
            rest
        }
    }
}

/// A plan from its edits, or the error that stops it.
pub open spec fn spec_plan(edits: Result<Seq<(Setting, Option<ValueView>)>, ErrorView>) -> Result<
    Seq<(File, Seq<(Setting, Option<ValueView>)>)>,
    ErrorView,
> {
    match edits {
        Ok(edits) => Ok(spec_group(edits, crate::paths::FILE_COUNT as int)),
        Err(e) => Err(e),
    }
}

/// Whether a plan is what the spec says.
pub open spec fn plan_is(r: Result<Plan, Error>, want: Result<
    Seq<(File, Seq<(Setting, Option<ValueView>)>)>,
    ErrorView,
>) -> bool {
    match want {
        Ok(files) => r matches Ok(plan) && plan_view(plan) == files,
        Err(e) => r matches Err(x) && x@ == e,
    }
}

/// Group edits by file, in file order.
fn group_edits(edits: Vec<Edit>) -> (r: Plan)
    ensures
        plan_view(r) == spec_group(edits_view(edits@), crate::paths::FILE_COUNT as int),
{
    let files = crate::paths::all();
    proof {
        crate::paths::lemma_files();
    }
    let ghost all_edits = edits_view(edits@);
    let mut out: Vec<FileEdits> = Vec::new();
    let mut k: usize = 0;
    while k < files.len()
        invariant
            files@ == crate::paths::spec_all(),
            files@.len() == crate::paths::FILE_COUNT,
            k <= files@.len(),
            all_edits == edits_view(edits@),
            plan_view(Plan { files: out }) == spec_group(all_edits, k as int),
        decreases files@.len() - k,
    {
        let file = files[k];
        let mut mine: Vec<Edit> = Vec::new();
        proof {
            reveal(Seq::filter);
            assert(all_edits.subrange(0, 0) =~= Seq::<(Setting, Option<ValueView>)>::empty());
        }
        let mut j: usize = 0;
        while j < edits.len()
            invariant
                all_edits == edits_view(edits@),
                j <= edits@.len(),
                edits_view(mine@) == all_edits.subrange(0, j as int).filter(bound_for(file)),
            decreases edits@.len() - j,
        {
            let edit = &edits[j];
            proof {
                crate::schema::lemma_filter_push(
                    all_edits.subrange(0, j as int),
                    bound_for(file),
                    edit_view(*edit),
                );
                assert(all_edits.subrange(0, j as int).push(edit_view(*edit)) =~= all_edits.subrange(
                    0,
                    j + 1,
                ));
            }
            if edit.setting.file == file {
                let copy = Edit { setting: edit.setting, value: copy_option(&edit.value) };
                mine.push(copy);
            }
            proof {
                assert(edits_view(mine@) =~= all_edits.subrange(0, j + 1).filter(bound_for(file)));
            }
            j = j + 1;
        }
        proof {
            assert(all_edits.subrange(0, edits@.len() as int) =~= all_edits);
        }
        if mine.len() > 0 {
            out.push(FileEdits { file, edits: mine });
        }
        proof {
            assert(plan_view(Plan { files: out }) =~= spec_group(all_edits, k + 1));
        }
        k = k + 1;
    }
    Plan { files: out }
}

/// An error in a shorter prefix of a batch is the error of the whole batch.
proof fn lemma_coerce_all_settled(list: Seq<Setting>, value: ValueView, j: int)
    requires
        0 <= j <= list.len(),
        spec_coerce_all(list.subrange(0, j), value) is Err,
    ensures
        spec_coerce_all(list, value) == spec_coerce_all(list.subrange(0, j), value),
    decreases list.len() - j,
{
    if j < list.len() {
        assert(list.subrange(0, j + 1).drop_last() =~= list.subrange(0, j));
        lemma_coerce_all_settled(list, value, j + 1);
    } else {
        assert(list.subrange(0, j) =~= list);
    }
}

/// An error in a shorter prefix of a batch is the error of the whole batch.
proof fn lemma_set_edits_settled(requested: Seq<(Seq<char>, ValueView)>, i: int)
    requires
        0 <= i <= requested.len(),
        spec_set_edits(requested.subrange(0, i)) is Err,
    ensures
        spec_set_edits(requested) == spec_set_edits(requested.subrange(0, i)),
    decreases requested.len() - i,
{
    if i < requested.len() {
        assert(requested.subrange(0, i + 1).drop_last() =~= requested.subrange(0, i));
        lemma_set_edits_settled(requested, i + 1);
    } else {
        assert(requested.subrange(0, i) =~= requested);
    }
}

/// An error in a shorter prefix of a batch is the error of the whole batch.
proof fn lemma_reset_edits_settled(keys: Seq<Seq<char>>, i: int)
    requires
        0 <= i <= keys.len(),
        spec_reset_edits(keys.subrange(0, i)) is Err,
    ensures
        spec_reset_edits(keys) == spec_reset_edits(keys.subrange(0, i)),
    decreases keys.len() - i,
{
    if i < keys.len() {
        assert(keys.subrange(0, i + 1).drop_last() =~= keys.subrange(0, i));
        lemma_reset_edits_settled(keys, i + 1);
    } else {
        assert(keys.subrange(0, i) =~= keys);
    }
}

/// A batch of `(key, value)` requests as the contracts see it.
pub open spec fn requests_view(requested: Seq<(String, Value)>) -> Seq<(Seq<char>, ValueView)> {
    requested.map_values(|p: (String, Value)| (p.0@, p.1@))
}

/// Keys as the contracts see them.
pub open spec fn keys_view(keys: Seq<String>) -> Seq<Seq<char>> {
    keys.map_values(|k: String| k@)
}

/// Validate and resolve a batch of writes: every key resolved, every value checked, before
/// any file is touched, so a batch with one bad value leaves nothing half-applied. A fan-out
/// key stands for each of its members.
pub fn plan_set_many(requested: &[(String, Value)]) -> (r: Result<Plan, Error>)
    ensures
        plan_is(r, spec_plan(spec_set_edits(requests_view(requested@)))),
{
    let ghost req = requests_view(requested@);
    let mut edits: Vec<Edit> = Vec::new();
    let mut i: usize = 0;
    proof {
        assert(req.subrange(0, 0) =~= Seq::<(Seq<char>, ValueView)>::empty());
        assert(edits_view(edits@) =~= Seq::<(Setting, Option<ValueView>)>::empty());
    }
    while i < requested.len()
        invariant
            req == requests_view(requested@),
            i <= requested@.len(),
            spec_set_edits(req.subrange(0, i as int)) == Ok::<
                Seq<(Setting, Option<ValueView>)>,
                ErrorView,
            >(edits_view(edits@)),
        decreases requested@.len() - i,
    {
        let (key, value) = &requested[i];
        proof {
            assert(req.subrange(0, i + 1).drop_last() =~= req.subrange(0, i as int));
            assert(req.subrange(0, i + 1).last() == (key@, value@));
        }
        let list = match targets(key.as_str()) {
            Ok(list) => list,
            Err(e) => {
                proof {
                    lemma_set_edits_settled(req, i + 1);
                }
                return Err(e);
            },
        };
        let ghost done = edits_view(edits@);
        let mut j: usize = 0;
        proof {
            assert(list@.subrange(0, 0) =~= Seq::<Setting>::empty());
            assert(done + Seq::<(Setting, Option<ValueView>)>::empty() =~= done);
            assert(req[i as int] == (key@, value@));
        }
        while j < list.len()
            invariant
                req == requests_view(requested@),
                i < requested@.len(),
                req[i as int] == (key@, value@),
                spec_set_edits(req.subrange(0, i as int)) == Ok::<
                    Seq<(Setting, Option<ValueView>)>,
                    ErrorView,
                >(done),
                spec_targets(key@) == Ok::<Seq<Setting>, ErrorView>(list@),
                j <= list@.len(),
                spec_coerce_all(list@.subrange(0, j as int), value@) matches Ok(more) && edits_view(
                    edits@,
                ) == done + more,
            decreases list@.len() - j,
        {
            proof {
                assert(list@.subrange(0, j + 1).drop_last() =~= list@.subrange(0, j as int));
            }
            match coerce(&list[j], value.clone()) {
                Ok(v) => {
                    let ghost before_push = edits_view(edits@);
                    let edit = Edit { setting: list[j], value: Some(v) };
                    let ghost pushed = edit_view(edit);
                    edits.push(edit);
                    proof {
                        let more = spec_coerce_all(list@.subrange(0, j as int), value@)->Ok_0;
                        assert(edits_view(edits@) =~= before_push.push(pushed));
                        assert(done + more.push(pushed) =~= (done + more).push(pushed));
                    }
                },
                Err(e) => {
                    proof {
                        assert(list@.subrange(0, j + 1).last() == list@[j as int]);
                        assert(spec_coerce_all(list@.subrange(0, j + 1), value@) is Err);
                        lemma_coerce_all_settled(list@, value@, j + 1);
                        assert(req.subrange(0, i + 1).drop_last() =~= req.subrange(0, i as int));
                        assert(req.subrange(0, i + 1).last() == (key@, value@));
                        assert(spec_set_edits(req.subrange(0, i + 1)) == Err::<
                            Seq<(Setting, Option<ValueView>)>,
                            ErrorView,
                        >(e@));
                        lemma_set_edits_settled(req, i + 1);
                    }
                    return Err(e);
                },
            }
            j = j + 1;
        }
        proof {
            assert(list@.subrange(0, list@.len() as int) =~= list@);
        }
        i = i + 1;
    }
    proof {
        assert(req.subrange(0, requested@.len() as int) =~= req);
    }
    Ok(group_edits(edits))
}

/// Validate and resolve a batch of removals. A fan-out key stands for each of its members.
///
/// Removing rather than writing the default: with `Option` fields throughout wlRIX, an absent
/// key *is* the default, and writing today's default literally would pin it, so a later
/// change to what the default means would never reach anyone who had pressed Reset.
pub fn plan_reset(keys: &[String]) -> (r: Result<Plan, Error>)
    ensures
        plan_is(r, spec_plan(spec_reset_edits(keys_view(keys@)))),
{
    let ghost ks = keys_view(keys@);
    let mut edits: Vec<Edit> = Vec::new();
    let mut i: usize = 0;
    proof {
        assert(ks.subrange(0, 0) =~= Seq::<Seq<char>>::empty());
        assert(edits_view(edits@) =~= Seq::<(Setting, Option<ValueView>)>::empty());
    }
    while i < keys.len()
        invariant
            ks == keys_view(keys@),
            i <= keys@.len(),
            spec_reset_edits(ks.subrange(0, i as int)) == Ok::<
                Seq<(Setting, Option<ValueView>)>,
                ErrorView,
            >(edits_view(edits@)),
        decreases keys@.len() - i,
    {
        proof {
            assert(ks.subrange(0, i + 1).drop_last() =~= ks.subrange(0, i as int));
        }
        let list = match targets(keys[i].as_str()) {
            Ok(list) => list,
            Err(e) => {
                proof {
                    lemma_reset_edits_settled(ks, i + 1);
                }
                return Err(e);
            },
        };
        let ghost done = edits_view(edits@);
        let mut j: usize = 0;
        proof {
            assert(done + list@.subrange(0, 0).map_values(|s: Setting| (s, None::<ValueView>))
                =~= done);
        }
        while j < list.len()
            invariant
                ks == keys_view(keys@),
                i < keys@.len(),
                spec_reset_edits(ks.subrange(0, i as int)) == Ok::<
                    Seq<(Setting, Option<ValueView>)>,
                    ErrorView,
                >(done),
                spec_targets(ks[i as int]) == Ok::<Seq<Setting>, ErrorView>(list@),
                j <= list@.len(),
                edits_view(edits@) == done + list@.subrange(0, j as int).map_values(
                    |s: Setting| (s, None::<ValueView>),
                ),
            decreases list@.len() - j,
        {
            let ghost before_push = edits_view(edits@);
            let edit = Edit { setting: list[j], value: None };
            let ghost pushed = edit_view(edit);
            edits.push(edit);
            proof {
                assert(edits_view(edits@) =~= before_push.push(pushed));
                assert(list@.subrange(0, j + 1).map_values(|s: Setting| (s, None::<ValueView>))
                    =~= list@.subrange(0, j as int).map_values(
                    |s: Setting| (s, None::<ValueView>),
                ).push(pushed));
                assert(edits_view(edits@) =~= done + list@.subrange(0, j + 1).map_values(
                    |s: Setting| (s, None::<ValueView>),
                ));
            }
            j = j + 1;
        }
        proof {
            assert(list@.subrange(0, list@.len() as int) =~= list@);
        }
        i = i + 1;
    }
    proof {
        assert(ks.subrange(0, keys@.len() as int) =~= ks);
    }
    Ok(group_edits(edits))
}

/// The removals resetting a whole namespace asks for: every setting in it, or an unknown key
/// when the namespace names no file.
pub open spec fn spec_reset_namespace_edits(namespace: Seq<char>) -> Result<
    Seq<(Setting, Option<ValueView>)>,
    ErrorView,
> {
    if exists|f: File| spec_namespace(f) == namespace {
        Ok(
            crate::schema::spec_in_namespace(namespace).map_values(
                |s: Setting| (s, None::<ValueView>),
            ),
        )
    } else {
        Err(ErrorView::UnknownKey(namespace))
    }
}

/// Validate a reset of a whole namespace.
pub fn plan_reset_namespace(namespace: &str) -> (r: Result<Plan, Error>)
    ensures
        plan_is(r, spec_plan(spec_reset_namespace_edits(namespace@))),
{
    if File::from_namespace(namespace).is_none() {
        return Err(Error::UnknownKey(owned(namespace)));
    }
    let list = crate::schema::in_namespace(namespace);
    let mut edits: Vec<Edit> = Vec::new();
    let mut j: usize = 0;
    proof {
        assert(edits_view(edits@) =~= list@.subrange(0, 0).map_values(
            |s: Setting| (s, None::<ValueView>),
        ));
    }
    while j < list.len()
        invariant
            j <= list@.len(),
            edits_view(edits@) == list@.subrange(0, j as int).map_values(
                |s: Setting| (s, None::<ValueView>),
            ),
        decreases list@.len() - j,
    {
        let ghost before_push = edits_view(edits@);
        let edit = Edit { setting: list[j], value: None };
        let ghost pushed = edit_view(edit);
        edits.push(edit);
        proof {
            assert(edits_view(edits@) =~= before_push.push(pushed));
            assert(edits_view(edits@) =~= list@.subrange(0, j + 1).map_values(
                |s: Setting| (s, None::<ValueView>),
            ));
        }
        j = j + 1;
    }
    proof {
        assert(list@.subrange(0, list@.len() as int) =~= list@);
    }
    Ok(group_edits(edits))
}

/// What applying edits in order does to a document's keys: the keys afterwards, and whether
/// any edit changed anything -- or the key of the first setting whose path is blocked by
/// something that is not a value.
pub open spec fn spec_apply(
    entries: Map<Seq<char>, edit::Entry>,
    edits: Seq<(Setting, Option<ValueView>)>,
) -> Result<(Map<Seq<char>, edit::Entry>, bool), Seq<char>>
    decreases edits.len(),
{
    if edits.len() == 0 {
        Ok((entries, false))
    } else {
        match spec_apply(entries, edits.drop_last()) {
            Err(key) => Err(key),
            Ok((now, any)) => {
                let (setting, value) = edits.last();
                let path = path_view(setting.path@);
                match value {
                    Some(v) => match edit::spec_set(now, path, v) {
                        Some(next) => Ok((next, true)),
                        None => Err(setting.key@),
                    },
                    None => {
                        let (found, next) = edit::spec_remove(now, path);
                        Ok((next, any || found))
                    },
                }
            },
        }
    }
}

/// Whether applying `edits` in order, to a document whose keys were `entries`, takes its
/// layout from `before` to `after`: each edit leaves it as [`edit::layout_after_set`] or
/// [`edit::layout_after_remove`] says, from the layout the edits before it left, and a removal
/// that finds nothing leaves it as it was. So every value the edits do not touch keeps its
/// place and its decor, and a rewritten value keeps both.
pub open spec fn layouts_follow(
    entries: Map<Seq<char>, edit::Entry>,
    edits: Seq<(Setting, Option<ValueView>)>,
    before: edit::Layout,
    after: edit::Layout,
) -> bool {
    exists|layouts: Seq<edit::Layout>|
        #[trigger] layouts_chain(entries, edits, layouts) && layouts[0] == before && layouts.last()
            == after
}

/// Whether `layouts` are the layouts a document passes through as `edits` are applied in order:
/// one before each edit and one after the last, each edit taking one to the next.
pub open spec fn layouts_chain(
    entries: Map<Seq<char>, edit::Entry>,
    edits: Seq<(Setting, Option<ValueView>)>,
    layouts: Seq<edit::Layout>,
) -> bool {
    &&& layouts.len() == edits.len() + 1
    &&& forall|k: int|
        0 <= k < edits.len() ==> last_edit_follows(
            entries,
            #[trigger] edits.subrange(0, k + 1),
            layouts[k],
            layouts[k + 1],
        )
}

/// Whether the last of `edits` takes the layout from `mid` to `after`, applied to the keys the
/// edits before it left.
pub open spec fn last_edit_follows(
    entries: Map<Seq<char>, edit::Entry>,
    edits: Seq<(Setting, Option<ValueView>)>,
    mid: edit::Layout,
    after: edit::Layout,
) -> bool {
    match spec_apply(entries, edits.drop_last()) {
        Ok((now, _)) => {
            let (setting, value) = edits.last();
            let path = path_view(setting.path@);
            match value {
                Some(_) => edit::layout_after_set(now, mid, after, path),
                None => if edit::spec_remove(now, path).0 {
                    edit::layout_after_remove(mid, after, path)
                } else {
                    after == mid
                },
            }
        },
        Err(_) => false,
    }
}

/// The program whose own parser checks a file before it is installed: the owner of the first
/// edit's setting. Every setting in one file has the same owner.
pub open spec fn check_of(edits: Seq<(Setting, Option<ValueView>)>) -> Option<Seq<char>> {
    if edits.len() == 0 {
        None
    } else {
        crate::schema::spec_program(edits[0].0.owner)
    }
}

/// A file ready to be written: where, the edited document, and which program checks it first.
pub struct Write {
    pub file: File,
    pub path: String,
    pub document: Document,
    pub check: Option<&'static str>,
}

/// A maybe-name as the contracts see it.
pub open spec fn name_view(name: Option<&'static str>) -> Option<Seq<char>> {
    match name {
        Some(n) => Some(n@),
        None => None,
    }
}

/// Whether applying a prefix of the edits already failed makes the whole fail the same way.
proof fn lemma_apply_settled(
    entries: Map<Seq<char>, edit::Entry>,
    edits: Seq<(Setting, Option<ValueView>)>,
    j: int,
)
    requires
        0 <= j <= edits.len(),
        spec_apply(entries, edits.subrange(0, j)) is Err,
    ensures
        spec_apply(entries, edits) == spec_apply(entries, edits.subrange(0, j)),
    decreases edits.len() - j,
{
    if j < edits.len() {
        assert(edits.subrange(0, j + 1).drop_last() =~= edits.subrange(0, j));
        lemma_apply_settled(entries, edits, j + 1);
    } else {
        assert(edits.subrange(0, j) =~= edits);
    }
}

/// Apply edits to a document in order, answering whether any of them changed anything.
pub fn apply_edits(document: &mut Document, edits: &Vec<Edit>) -> (r: Result<bool, edit::Error>)
    ensures
        final(document)@.crlf == old(document)@.crlf,
        match spec_apply(old(document)@.entries, edits_view(edits@)) {
            Err(key) => r matches Err(e) && e@ == edit::ErrorView::NotAValue { key },
            Ok((entries, any)) => r == Ok::<bool, edit::Error>(any) && final(document)@.entries
                == entries && layouts_follow(
                old(document)@.entries,
                edits_view(edits@),
                old(document)@.layout,
                final(document)@.layout,
            ),
        },
{
    let ghost start = document@;
    let ghost all = edits_view(edits@);
    let ghost mut layouts: Seq<edit::Layout> = seq![document@.layout];
    let mut any = false;
    let mut j: usize = 0;
    proof {
        assert(all.subrange(0, 0) =~= Seq::<(Setting, Option<ValueView>)>::empty());
    }
    while j < edits.len()
        invariant
            all == edits_view(edits@),
            j <= all.len(),
            start == old(document)@,
            document@.crlf == start.crlf,
            spec_apply(start.entries, all.subrange(0, j as int)) == Ok::<
                (Map<Seq<char>, edit::Entry>, bool),
                Seq<char>,
            >((document@.entries, any)),
            layouts_chain(start.entries, all.subrange(0, j as int), layouts),
            layouts[0] == start.layout,
            layouts.last() == document@.layout,
        decreases all.len() - j,
    {
        proof {
            assert(all.subrange(0, j + 1).drop_last() =~= all.subrange(0, j as int));
            assert(all.subrange(0, j + 1).last() == all[j as int]);
        }
        let ghost mid = document@.layout;
        let ghost now = document@.entries;
        let edit = &edits[j];
        match &edit.value {
            Some(value) => {
                match document.set(edit.setting.key, edit.setting.path, value.clone()) {
                    Ok(()) => {
                        any = true;
                    },
                    Err(e) => {
                        proof {
                            assert(all[j as int] == (edit.setting, Some(value@)));
                            assert(spec_apply(start.entries, all.subrange(0, j + 1)) == Err::<
                                (Map<Seq<char>, edit::Entry>, bool),
                                Seq<char>,
                            >(edit.setting.key@));
                            lemma_apply_settled(start.entries, all, j + 1);
                        }
                        return Err(e);
                    },
                }
            },
            None => {
                let found = document.remove(edit.setting.path);
                any = any || found;
            },
        }
        proof {
            let upto = all.subrange(0, j + 1);
            assert(upto.drop_last() == all.subrange(0, j as int));
            assert(upto.last() == edit_view(edits@[j as int]));
            assert(spec_apply(start.entries, upto.drop_last()) matches Ok((e, _)) && e == now);
            let path = path_view(edits@[j as int].setting.path@);
            if edits@[j as int].value is Some {
                assert(edit::layout_after_set(now, mid, document@.layout, path));
            } else if edit::spec_remove(now, path).0 {
                assert(edit::layout_after_remove(mid, document@.layout, path));
            } else {
                assert(document@.layout == mid);
            }
            assert(last_edit_follows(start.entries, upto, mid, document@.layout));
            let next = layouts.push(document@.layout);
            assert forall|k: int| 0 <= k < upto.len() implies last_edit_follows(
                start.entries,
                #[trigger] upto.subrange(0, k + 1),
                next[k],
                next[k + 1],
            ) by {
                if k < j {
                    assert(upto.subrange(0, k + 1) =~= all.subrange(0, j as int).subrange(0, k + 1));
                } else {
                    assert(upto.subrange(0, k + 1) =~= upto);
                }
            }
            layouts = next;
        }
        j = j + 1;
    }
    proof {
        assert(all.subrange(0, all.len() as int) =~= all);
        assert(layouts_chain(start.entries, all, layouts));
    }
    Ok(any)
}

impl Store {
    /// Apply one file's edits to the document it starts from -- `document`, or why it could
    /// not be had -- and say what to write, if anything.
    ///
    /// A batch that changes nothing, such as a Reset of keys that were not set, writes
    /// nothing: the file would otherwise be created to shadow the system one purely to hold
    /// nothing, and shadowing is total. The write always goes to the user's file, laid out as
    /// the document it starts from with each edit made in place ([`layouts_follow`]): the
    /// user's comments, key order and spacing stay as they were.
    pub fn prepare_write(&self, edits: &FileEdits, document: Result<Document, edit::Error>) -> (r:
        Result<Option<Write>, Error>)
        ensures
            match document {
                Err(e) => r matches Err(x) && x@ == ErrorView::File(e@),
                Ok(doc) => match spec_apply(doc@.entries, edits_view(edits.edits@)) {
                    Err(key) => r matches Err(x) && x@ == ErrorView::File(
                        edit::ErrorView::NotAValue { key },
                    ),
                    Ok((entries, any)) => if !any {
                        r matches Ok(None)
                    } else {
                        match self@.roots.spec_user_path(edits.file) {
                            None => r matches Err(x) && x@ == ErrorView::File(
                                edit::ErrorView::NoConfigHome,
                            ),
                            Some(path) => r matches Ok(Some(w)) && w.file == edits.file && w.path@
                                == path && w.document@.entries == entries && w.document@.crlf
                                == doc@.crlf && name_view(w.check) == check_of(
                                edits_view(edits.edits@),
                            ) && layouts_follow(
                                doc@.entries,
                                edits_view(edits.edits@),
                                doc@.layout,
                                w.document@.layout,
                            ),
                        }
                    },
                },
            },
    {
        let mut document = match document {
            Ok(document) => document,
            Err(e) => return Err(Error::File(e)),
        };
        let any = match apply_edits(&mut document, &edits.edits) {
            Ok(any) => any,
            Err(e) => return Err(Error::File(e)),
        };
        if !any {
            return Ok(None);
        }
        let path = match self.roots.user_path(edits.file) {
            Some(path) => path,
            None => return Err(Error::File(edit::Error::NoConfigHome)),
        };
        let check = if edits.edits.len() > 0 {
            edits.edits[0].setting.owner.program()
        } else {
            None
        };
        Ok(Some(Write { file: edits.file, path, document, check }))
    }
}

/// The program a setting's owner runs as, or the empty name for a setting nobody reads while
/// running.
pub open spec fn program_name(setting: Setting) -> Seq<char> {
    match crate::schema::spec_program(setting.owner) {
        Some(p) => p,
        None => Seq::empty(),
    }
}

/// Whom to tell, for the first `n` settings: one entry per program, from the first of its
/// settings in the list, leaving out programs in `already`.
pub open spec fn spec_to_tell(settings: Seq<Setting>, already: Seq<Seq<char>>, n: int) -> Seq<
    (Seq<char>, crate::schema::Owner, crate::schema::Reload),
>
    decreases n,
{
    if n <= 0 {
        Seq::empty()
    } else {
        let rest = spec_to_tell(settings, already, n - 1);
        let setting = settings[n - 1];
        let program = program_name(setting);
        if already.contains(program) || rest.map_values(
            |t: (Seq<char>, crate::schema::Owner, crate::schema::Reload)| t.0,
        ).contains(program) {
            rest
        } else {
            rest.push((program, setting.owner, setting.reload))
        }
    }
}

/// Who has to be told about changes to these settings: each owning program once, the first
/// time one of its settings appears, and not those in `already`.
pub fn to_tell(settings: &[Setting], already: &[&'static str]) -> (r: Vec<
    (&'static str, crate::schema::Owner, crate::schema::Reload),
>)
    ensures
        r@.map_values(
            |t: (&'static str, crate::schema::Owner, crate::schema::Reload)| (t.0@, t.1, t.2),
        ) == spec_to_tell(settings@, names_view(already@), settings@.len() as int),
{
    let ghost told = |t: (&'static str, crate::schema::Owner, crate::schema::Reload)|
        (t.0@, t.1, t.2);
    let mut out: Vec<(&'static str, crate::schema::Owner, crate::schema::Reload)> = Vec::new();
    let mut i: usize = 0;
    while i < settings.len()
        invariant
            i <= settings@.len(),
            out@.map_values(told) == spec_to_tell(settings@, names_view(already@), i as int),
            told == (|t: (&'static str, crate::schema::Owner, crate::schema::Reload)|
                (t.0@, t.1, t.2)),
        decreases settings@.len() - i,
    {
        let setting = settings[i];
        let program = match setting.owner.program() {
            Some(p) => p,
            None => "",
        };
        proof {
            reveal_strlit("");
        }
        let known = crate::schema::group::list_contains(already, program);
        let mut seen = false;
        let mut k: usize = 0;
        while k < out.len()
            invariant
                k <= out@.len(),
                seen == exists|m: int| 0 <= m < k && out@[m].0@ == program@,
            decreases out@.len() - k,
        {
            if str_eq(out[k].0, program) {
                seen = true;
            }
            k = k + 1;
        }
        let ghost names = spec_to_tell(settings@, names_view(already@), i as int).map_values(
            |t: (Seq<char>, crate::schema::Owner, crate::schema::Reload)| t.0,
        );
        proof {
            assert(program@ == program_name(setting));
            assert(known == names_view(already@).contains(program@)) by {
                if known {
                    let m = choose|m: int| 0 <= m < already@.len() && already@[m]@ == program@;
                    assert(names_view(already@)[m] == program@);
                }
                if names_view(already@).contains(program@) {
                    let m = choose|m: int|
                        0 <= m < names_view(already@).len() && names_view(already@)[m] == program@;
                    assert(already@[m]@ == program@);
                }
            }
            assert(seen == names.contains(program@)) by {
                if seen {
                    let m = choose|m: int| 0 <= m < out@.len() && out@[m].0@ == program@;
                    assert(names[m] == out@.map_values(told)[m].0);
                }
                if names.contains(program@) {
                    let m = choose|m: int| 0 <= m < names.len() && names[m] == program@;
                    assert(out@.map_values(told)[m].0 == out@[m].0@);
                }
            }
        }
        if !known && !seen {
            out.push((program, setting.owner, setting.reload));
        }
        proof {
            assert(out@.map_values(told) =~= spec_to_tell(
                settings@,
                names_view(already@),
                i + 1,
            ));
        }
        i = i + 1;
    }
    out
}

/// The settings of the plan bound for `touched` files, in plan order.
pub open spec fn spec_touched_settings(
    plan: Seq<(File, Seq<(Setting, Option<ValueView>)>)>,
    touched: Seq<File>,
    n: int,
) -> Seq<Setting>
    decreases n,
{
    if n <= 0 {
        Seq::empty()
    } else {
        let rest = spec_touched_settings(plan, touched, n - 1);
        let (file, edits) = plan[n - 1];
        if touched.contains(file) {
            rest + edits.map_values(|e: (Setting, Option<ValueView>)| e.0)
        } else {
            rest
        }
    }
}

impl Plan {
    /// The settings bound for files that were written, in plan order.
    pub fn touched_settings(&self, touched: &[File]) -> (r: Vec<Setting>)
        ensures
            r@ == spec_touched_settings(plan_view(*self), touched@, self.files@.len() as int),
    {
        let ghost pv = plan_view(*self);
        let mut out: Vec<Setting> = Vec::new();
        let mut i: usize = 0;
        while i < self.files.len()
            invariant
                pv == plan_view(*self),
                i <= self.files@.len(),
                out@ == spec_touched_settings(pv, touched@, i as int),
            decreases self.files@.len() - i,
        {
            let file_edits = &self.files[i];
            let mut hit = false;
            let mut k: usize = 0;
            while k < touched.len()
                invariant
                    k <= touched@.len(),
                    hit == exists|m: int| 0 <= m < k && touched@[m] == file_edits.file,
                decreases touched@.len() - k,
            {
                if touched[k] == file_edits.file {
                    hit = true;
                }
                k = k + 1;
            }
            proof {
                assert(pv[i as int] == (file_edits.file, edits_view(file_edits.edits@)));
                if hit {
                    let m = choose|m: int| 0 <= m < touched@.len() && touched@[m] == file_edits.file;
                    assert(touched@.contains(file_edits.file));
                }
            }
            if hit {
                let ghost before = out@;
                let mut j: usize = 0;
                while j < file_edits.edits.len()
                    invariant
                        j <= file_edits.edits@.len(),
                        out@ == before + file_edits.edits@.subrange(0, j as int).map_values(
                            |e: Edit| e.setting,
                        ),
                    decreases file_edits.edits@.len() - j,
                {
                    out.push(file_edits.edits[j].setting);
                    proof {
                        assert(out@ =~= before + file_edits.edits@.subrange(0, j + 1).map_values(
                            |e: Edit| e.setting,
                        ));
                    }
                    j = j + 1;
                }
                proof {
                    assert(file_edits.edits@.subrange(0, file_edits.edits@.len() as int)
                        =~= file_edits.edits@);
                    assert(file_edits.edits@.map_values(|e: Edit| e.setting) =~= edits_view(
                        file_edits.edits@,
                    ).map_values(|e: (Setting, Option<ValueView>)| e.0));
                }
            }
            i = i + 1;
        }
        out
    }
}

/// Whether any of a group's members is among the keys of `values`.
pub open spec fn group_moved(values: Seq<(Seq<char>, ValueView)>, group: Group) -> bool {
    exists|k: int|
        0 <= k < values.len() && crate::schema::group::names_member(group.members@, #[trigger] values[k].0)
}

/// Whether a key is among the keys of `values`.
pub open spec fn has_key(values: Seq<(Seq<char>, ValueView)>, key: Seq<char>) -> bool {
    exists|k: int| 0 <= k < values.len() && #[trigger] values[k].0 == key
}

/// `values`, with the key of each of the first `n` groups added after them when one of its
/// members moved and the group has a value: what `get` answers for it, its first member's.
pub open spec fn spec_with_groups(s: StoreView, values: Seq<(Seq<char>, ValueView)>, n: int) -> Seq<
    (Seq<char>, ValueView),
>
    decreases n,
{
    if n <= 0 {
        values
    } else {
        let rest = spec_with_groups(s, values, n - 1);
        let group = group_table()[n - 1];
        if group_moved(values, group) && !has_key(rest, group.key@) {
            match spec_get_key(s, group.key@) {
                Ok(Some(v)) => rest.push((group.key@, v)),
                _ => rest,
            }
        } else {
            rest
        }
    }
}

/// Whether one of the keys of `values` is `key`.
fn listed_key(values: &Vec<(&'static str, Value)>, key: &str) -> (r: bool)
    ensures
        r == has_key(pairs_view(values@), key@),
{
    let mut k: usize = 0;
    while k < values.len()
        invariant
            k <= values@.len(),
            forall|m: int| 0 <= m < k ==> values@[m].0@ != key@,
        decreases values@.len() - k,
    {
        if str_eq(values[k].0, key) {
            proof {
                assert(pairs_view(values@)[k as int].0 == key@);
            }
            return true;
        }
        k = k + 1;
    }
    proof {
        assert forall|m: int| 0 <= m < values@.len() implies #[trigger] pairs_view(values@)[m].0
            != key@ by {
            assert(pairs_view(values@)[m].0 == values@[m].0@);
        }
    }
    false
}

/// Whether one of a group's members is among the keys of `values`.
fn member_listed(values: &Vec<(&'static str, Value)>, group: &Group) -> (r: bool)
    ensures
        r == group_moved(pairs_view(values@), *group),
{
    let mut k: usize = 0;
    while k < values.len()
        invariant
            k <= values@.len(),
            forall|m: int|
                0 <= m < k ==> !crate::schema::group::names_member(group.members@, values@[m].0@),
        decreases values@.len() - k,
    {
        if crate::schema::group::list_contains(group.members, values[k].0) {
            proof {
                assert(pairs_view(values@)[k as int].0 == values@[k as int].0@);
            }
            return true;
        }
        k = k + 1;
    }
    proof {
        assert forall|m: int| 0 <= m < values@.len() implies !crate::schema::group::names_member(
            group.members@,
            #[trigger] pairs_view(values@)[m].0,
        ) by {
            assert(pairs_view(values@)[m].0 == values@[m].0@);
        }
    }
    false
}

impl Store {
    /// What moved, with the key of every group one of whose members moved, so a client can
    /// watch just the group key -- including for a hand-edit.
    pub fn with_group_keys(&self, values: Vec<(&'static str, Value)>) -> (r: Vec<
        (&'static str, Value),
    >)
        requires
            Store::view_shaped(self@),
        ensures
            pairs_view(r@) == spec_with_groups(
                self@,
                pairs_view(values@),
                group_table().len() as int,
            ),
    {
        let all_groups = crate::schema::groups();
        let ghost original = pairs_view(values@);
        let mut flags: Vec<bool> = Vec::new();
        let mut g: usize = 0;
        while g < all_groups.len()
            invariant
                all_groups@ == group_table(),
                g <= all_groups@.len(),
                original == pairs_view(values@),
                flags@.len() == g,
                forall|m: int| 0 <= m < g ==> flags@[m] == group_moved(original, group_table()[m]),
            decreases all_groups@.len() - g,
        {
            flags.push(member_listed(&values, &all_groups[g]));
            g = g + 1;
        }
        let mut out = values;
        let mut i: usize = 0;
        while i < all_groups.len()
            invariant
                all_groups@ == group_table(),
                i <= all_groups@.len(),
                flags@.len() == all_groups@.len(),
                forall|m: int| 0 <= m < flags@.len() ==> flags@[m] == group_moved(original, group_table()[m]),
                Store::view_shaped(self@),
                pairs_view(out@) == spec_with_groups(self@, original, i as int),
            decreases all_groups@.len() - i,
        {
            let group = all_groups[i];
            if flags[i] && !listed_key(&out, group.key) {
                match self.get(group.key) {
                    Ok(Some(v)) => {
                        let ghost before = pairs_view(out@);
                        out.push((group.key, v));
                        proof {
                            assert(pairs_view(out@) =~= before.push((group.key@, v@)));
                        }
                    },
                    _ => {},
                }
            }
            i = i + 1;
        }
        out
    }
}

// ---------------------------------------------------------------------------------------------
// What a burst of hand edits amounts to
// ---------------------------------------------------------------------------------------------

/// What the program found for one file a watch named: the bytes at its user path now, when
/// they could be read, and what reading the file in force found.
pub struct Found {
    pub file: File,
    pub actual: Option<Vec<u8>>,
    pub observed: Observed,
}

/// The bytes found at the user path, as the contracts see them.
pub open spec fn actual_view(found: Found) -> Option<Seq<u8>> {
    match found.actual {
        Some(bytes) => Some(bytes@),
        None => None,
    }
}

/// A [`Notice`] as the contracts see it.
pub enum NoticeView {
    /// What moved, and what became of telling each program.
    Changed(Seq<(Seq<char>, ValueView)>, Seq<(Seq<char>, Outcome)>),
    /// The namespace, the path, and the parser's message.
    Invalid(Seq<char>, Seq<char>, Seq<char>),
    /// The namespace, and the path.
    Recovered(Seq<char>, Seq<char>),
}

/// Outcomes per program, as the contracts see them.
pub open spec fn outcomes_view(outcomes: Seq<(&'static str, Outcome)>) -> Seq<(Seq<char>, Outcome)> {
    outcomes.map_values(|p: (&'static str, Outcome)| (p.0@, p.1))
}

impl View for Notice {
    type V = NoticeView;

    open spec fn view(&self) -> NoticeView {
        match self {
            Notice::Changed(c) => NoticeView::Changed(pairs_view(c.values@), outcomes_view(c.outcomes@)),
            Notice::Invalid { namespace, path, message } => NoticeView::Invalid(
                namespace@,
                path@,
                message@,
            ),
            Notice::Recovered { namespace, path } => NoticeView::Recovered(namespace@, path@),
        }
    }
}

/// The store after re-reading one file a watch named: the daemon's own write coming back is
/// consumed; anything else is read.
pub open spec fn spec_refresh_state(s: StoreView, found: Found) -> StoreView {
    if spec_own_write(s, found.file, actual_view(found)) {
        StoreView { last_written: s.last_written.update(fi(found.file), None), ..s }
    } else {
        spec_after_read(s, found.file, spec_reading(found.observed))
    }
}

/// What re-reading one file reports: that it broke, once, or that it was fixed.
pub open spec fn spec_refresh_notice(s: StoreView, found: Found) -> Option<NoticeView> {
    if spec_own_write(s, found.file, actual_view(found)) {
        None
    } else {
        let was_invalid = s.invalid[fi(found.file)] is Some;
        match spec_reading(found.observed) {
            Reading::Broken(path, message) => if was_invalid {
                None
            } else {
                Some(NoticeView::Invalid(spec_namespace(found.file), path, message))
            },
            Reading::Decides(_, _) => if was_invalid {
                Some(NoticeView::Recovered(spec_namespace(found.file), observed_path(found.observed)))
            } else {
                None
            },
        }
    }
}

/// Which of its settings re-reading one file moved, and what they are now.
pub open spec fn spec_refresh_moved(s: StoreView, found: Found) -> Seq<(Seq<char>, ValueView)> {
    if spec_own_write(s, found.file, actual_view(found)) {
        Seq::empty()
    } else {
        match spec_reading(found.observed) {
            Reading::Broken(_, _) => Seq::empty(),
            Reading::Decides(_, _) => spec_moved(
                s.values,
                spec_refresh_state(s, found).values,
                found.file,
                SETTING_COUNT as int,
            ),
        }
    }
}

/// The store after re-reading the first `n` files found, one after the other.
pub open spec fn spec_refreshed(s: StoreView, found: Seq<Found>, n: int) -> StoreView
    decreases n,
{
    if n <= 0 {
        s
    } else {
        spec_refresh_state(spec_refreshed(s, found, n - 1), found[n - 1])
    }
}

/// What re-reading the first `n` files reports, in order.
pub open spec fn spec_refresh_notices(s: StoreView, found: Seq<Found>, n: int) -> Seq<NoticeView>
    decreases n,
{
    if n <= 0 {
        Seq::empty()
    } else {
        let rest = spec_refresh_notices(s, found, n - 1);
        match spec_refresh_notice(spec_refreshed(s, found, n - 1), found[n - 1]) {
            Some(notice) => rest.push(notice),
            None => rest,
        }
    }
}

/// Everything re-reading the first `n` files moved, in order.
pub open spec fn spec_refresh_moved_all(s: StoreView, found: Seq<Found>, n: int) -> Seq<
    (Seq<char>, ValueView),
>
    decreases n,
{
    if n <= 0 {
        Seq::empty()
    } else {
        spec_refresh_moved_all(s, found, n - 1) + spec_refresh_moved(
            spec_refreshed(s, found, n - 1),
            found[n - 1],
        )
    }
}

/// Who is told after re-reading the first `n` files: for each file of which something moved,
/// the programs owning its settings, each program once over the whole burst.
pub open spec fn spec_refresh_told(s: StoreView, found: Seq<Found>, n: int) -> Seq<
    (Seq<char>, crate::schema::Owner, crate::schema::Reload),
>
    decreases n,
{
    if n <= 0 {
        Seq::empty()
    } else {
        let rest = spec_refresh_told(s, found, n - 1);
        if spec_refresh_moved(spec_refreshed(s, found, n - 1), found[n - 1]).len() > 0 {
            let settings = crate::schema::spec_in_namespace(spec_namespace(found[n - 1].file));
            rest + spec_to_tell(
                settings,
                rest.map_values(
                    |t: (Seq<char>, crate::schema::Owner, crate::schema::Reload)| t.0,
                ),
                settings.len() as int,
            )
        } else {
            rest
        }
    }
}

/// Whether `outcome` is what telling `owner` about a change with this reload behavior can
/// come to, when signaling through a pidfile is done by `signal_pidfile`.
pub open spec fn notified<F: Fn(&'static str) -> Outcome>(
    signal_pidfile: F,
    owner: crate::schema::Owner,
    reload: crate::schema::Reload,
    outcome: Outcome,
) -> bool {
    match reload {
        crate::schema::Reload::NextLogin => outcome == Outcome::NextLogin,
        crate::schema::Reload::Never | crate::schema::Reload::Restart => outcome
            == Outcome::RestartRequired,
        crate::schema::Reload::Live => match crate::schema::spec_pidfile(owner) {
            Some(name) => exists|p: &'static str|
                p@ == name && #[trigger] signal_pidfile.ensures((p,), outcome),
            None => outcome == Outcome::RestartRequired,
        },
    }
}

/// Tell each program in `tell`, in order, through `signal_pidfile`, and say what became of it.
fn tell_all<F: Fn(&'static str) -> Outcome>(
    tell: &Vec<(&'static str, crate::schema::Owner, crate::schema::Reload)>,
    signal_pidfile: &F,
) -> (r: Vec<(&'static str, Outcome)>)
    requires
        forall|name: &'static str| signal_pidfile.requires((name,)),
    ensures
        r@.len() == tell@.len(),
        forall|j: int|
            0 <= j < tell@.len() ==> (#[trigger] r@[j]).0 == tell@[j].0 && notified(
                *signal_pidfile,
                tell@[j].1,
                tell@[j].2,
                r@[j].1,
            ),
{
    let mut out: Vec<(&'static str, Outcome)> = Vec::new();
    let mut j: usize = 0;
    while j < tell.len()
        invariant
            j <= tell@.len(),
            out@.len() == j,
            forall|name: &'static str| signal_pidfile.requires((name,)),
            forall|i: int|
                0 <= i < j ==> (#[trigger] out@[i]).0 == tell@[i].0 && notified(
                    *signal_pidfile,
                    tell@[i].1,
                    tell@[i].2,
                    out@[i].1,
                ),
        decreases tell@.len() - j,
    {
        let (program, owner, reload) = tell[j];
        let ask = |name: &'static str| -> (o: Outcome)
            requires
                signal_pidfile.requires((name,)),
            ensures
                signal_pidfile.ensures((name,), o),
            { signal_pidfile(name) };
        let outcome = crate::apply::notify(owner, reload, ask);
        proof {
            if reload == crate::schema::Reload::Live {
                if let Some(name) = crate::schema::spec_pidfile(owner) {
                    let p = choose|p: &'static str| p@ == name && ask.ensures((p,), outcome);
                    assert(signal_pidfile.ensures((p,), outcome));
                }
            }
        }
        out.push((program, outcome));
        j = j + 1;
    }
    out
}

impl Store {
    /// Re-read the files a watch named, in the order given, and work out what to announce:
    /// each file that broke or was fixed, and then, when anything moved, one change with
    /// everything that moved -- group keys included -- and what became of telling each
    /// owning program, each told once however many of its files moved.
    ///
    /// The daemon's own writes coming back announce nothing. A file that broke moves nothing
    /// and tells nobody: its owner would fall back to its defaults.
    pub fn refresh<F: Fn(&'static str) -> Outcome>(&mut self, found: Vec<Found>, signal_pidfile: F) -> (r:
        Vec<Notice>)
        requires
            Store::view_shaped(old(self)@),
            forall|name: &'static str| signal_pidfile.requires((name,)),
        ensures
            Store::view_shaped(final(self)@),
            final(self)@ == spec_refreshed(old(self)@, found@, found@.len() as int),
            ({
                let notices = spec_refresh_notices(old(self)@, found@, found@.len() as int);
                let moved = spec_refresh_moved_all(old(self)@, found@, found@.len() as int);
                let told = spec_refresh_told(old(self)@, found@, found@.len() as int);
                &&& r@.len() == notices.len() + (if moved.len() > 0 {
                    1int
                } else {
                    0int
                })
                &&& forall|i: int| 0 <= i < notices.len() ==> #[trigger] r@[i]@ == notices[i]
                &&& moved.len() > 0 ==> (r@.last() matches Notice::Changed(c) && pairs_view(
                    c.values@,
                ) == spec_with_groups(final(self)@, moved, group_table().len() as int)
                    && c.outcomes@.len() == told.len() && forall|j: int|
                    0 <= j < told.len() ==> (#[trigger] c.outcomes@[j]).0@ == told[j].0
                        && notified(signal_pidfile, told[j].1, told[j].2, c.outcomes@[j].1))
            }),
    {
        let ghost all = found@;
        let ghost start = self@;
        let mut found = found;
        let total = found.len();
        let mut notices: Vec<Notice> = Vec::new();
        let mut values: Vec<(&'static str, Value)> = Vec::new();
        let mut outcomes: Vec<(&'static str, Outcome)> = Vec::new();
        let mut already: Vec<&'static str> = Vec::new();
        let mut k: usize = 0;
        while found.len() > 0
            invariant
                k + found@.len() == all.len(),
                all.len() == total,
                found@ == all.subrange(k as int, all.len() as int),
                forall|name: &'static str| signal_pidfile.requires((name,)),
                Store::view_shaped(self@),
                self@ == spec_refreshed(start, all, k as int),
                notices@.len() == spec_refresh_notices(start, all, k as int).len(),
                forall|i: int|
                    0 <= i < notices@.len() ==> #[trigger] notices@[i]@ == spec_refresh_notices(
                        start,
                        all,
                        k as int,
                    )[i],
                pairs_view(values@) == spec_refresh_moved_all(start, all, k as int),
                names_view(already@) == spec_refresh_told(start, all, k as int).map_values(
                    |t: (Seq<char>, crate::schema::Owner, crate::schema::Reload)| t.0,
                ),
                outcomes@.len() == spec_refresh_told(start, all, k as int).len(),
                forall|j: int|
                    0 <= j < outcomes@.len() ==> (#[trigger] outcomes@[j]).0@ == spec_refresh_told(
                        start,
                        all,
                        k as int,
                    )[j].0 && notified(
                        signal_pidfile,
                        spec_refresh_told(start, all, k as int)[j].1,
                        spec_refresh_told(start, all, k as int)[j].2,
                        outcomes@[j].1,
                    ),
            decreases found@.len(),
        {
            let ghost before = self@;
            let ghost item = all[k as int];
            assert(found@[0] == item);
            let Found { file, actual, observed } = found.remove(0);
            let actual_slice: Option<&[u8]> = match &actual {
                Some(bytes) => Some(bytes.as_slice()),
                None => None,
            };
            assert(match actual_slice {
                Some(bytes) => Some(bytes@),
                None => None::<Seq<u8>>,
            } == actual_view(item));
            let refresh = self.refresh_file(file, actual_slice, observed);
            proof {
                assert(self@ == spec_refresh_state(before, item));
                assert(pairs_view(refresh.moved@) == spec_refresh_moved(before, item));
                assert(all.subrange(k + 1, all.len() as int) =~= found@);
            }
            let ghost told_before = spec_refresh_told(start, all, k as int);
            let ghost told_after = spec_refresh_told(start, all, k + 1);
            match refresh.notice {
                Some(notice) => {
                    assert(spec_refresh_notice(before, item) == Some(notice@));
                    notices.push(notice);
                },
                None => {
                    assert(spec_refresh_notice(before, item) is None);
                },
            }
            proof {
                let want = spec_refresh_notices(start, all, k + 1);
                assert forall|i: int| 0 <= i < notices@.len() implies #[trigger] notices@[i]@
                    == want[i] by {}
            }
            let mut moved = refresh.moved;
            let any_moved = moved.len() > 0;
            values.append(&mut moved);
            proof {
                assert(pairs_view(values@) =~= spec_refresh_moved_all(start, all, k + 1));
            }
            if any_moved {
                let settings = crate::schema::in_namespace(file.namespace());
                let tell = to_tell(&settings, &already);
                let ghost told_fn = |t: (&'static str, crate::schema::Owner, crate::schema::Reload)|
                    (t.0@, t.1, t.2);
                proof {
                    assert(told_after =~= told_before + tell@.map_values(told_fn));
                }
                let base = outcomes.len();
                let mut told_now = tell_all(&tell, &signal_pidfile);
                let ghost outcomes_before = outcomes@;
                let ghost already_before = already@;
                outcomes.append(&mut told_now);
                let mut j: usize = 0;
                while j < tell.len()
                    invariant
                        j <= tell@.len(),
                        already@ == already_before + tell@.subrange(0, j as int).map_values(
                            |t: (&'static str, crate::schema::Owner, crate::schema::Reload)| t.0,
                        ),
                    decreases tell@.len() - j,
                {
                    already.push(tell[j].0);
                    proof {
                        assert(tell@.subrange(0, j + 1).map_values(
                            |t: (&'static str, crate::schema::Owner, crate::schema::Reload)| t.0,
                        ) =~= tell@.subrange(0, j as int).map_values(
                            |t: (&'static str, crate::schema::Owner, crate::schema::Reload)| t.0,
                        ).push(tell@[j as int].0));
                    }
                    j = j + 1;
                }
                proof {
                    assert(tell@.subrange(0, j as int) =~= tell@);
                    assert forall|i: int| 0 <= i < outcomes@.len() implies (#[trigger] outcomes@[i]).0@
                        == told_after[i].0 && notified(
                        signal_pidfile,
                        told_after[i].1,
                        told_after[i].2,
                        outcomes@[i].1,
                    ) by {
                        if i >= base {
                            assert(told_after[i] == told_fn(tell@[i - base]));
                        }
                    }
                    assert(told_before.len() == base);
                    assert(names_view(already_before).len() == told_before.map_values(
                        |t: (Seq<char>, crate::schema::Owner, crate::schema::Reload)| t.0,
                    ).len());
                    assert(already@.len() == base + tell@.len());
                    assert forall|i: int| 0 <= i < told_after.len() implies #[trigger] names_view(
                        already@,
                    )[i] == told_after[i].0 by {
                        if i >= base {
                            assert(told_after[i] == told_fn(tell@[i - base]));
                            assert(already@[i] == tell@[i - base].0);
                        } else {
                            assert(already@[i] == already_before[i]);
                            assert(names_view(already_before)[i] == told_before.map_values(
                                |t: (Seq<char>, crate::schema::Owner, crate::schema::Reload)| t.0,
                            )[i]);
                        }
                    }
                    assert(names_view(already@) =~= told_after.map_values(
                        |t: (Seq<char>, crate::schema::Owner, crate::schema::Reload)| t.0,
                    ));
                }
            } else {
                proof {
                    assert(told_after == told_before);
                }
            }
            k = k + 1;
        }
        proof {
            assert(k == all.len());
        }
        if values.len() > 0 {
            let values = self.with_group_keys(values);
            notices.push(Notice::Changed(Changed { values, outcomes }));
        }
        notices
    }
}

/// The store after re-reading, one after the other, the first `n` files just written.
pub open spec fn spec_reread_all(s: StoreView, written: Seq<(File, Observed)>, n: int) -> StoreView
    decreases n,
{
    if n <= 0 {
        s
    } else {
        spec_after_read(
            spec_reread_all(s, written, n - 1),
            written[n - 1].0,
            spec_reading(written[n - 1].1),
        )
    }
}

/// Everything re-reading the first `n` files just written moved, in order.
pub open spec fn spec_reread_moved(s: StoreView, written: Seq<(File, Observed)>, n: int) -> Seq<
    (Seq<char>, ValueView),
>
    decreases n,
{
    if n <= 0 {
        Seq::empty()
    } else {
        let rest = spec_reread_moved(s, written, n - 1);
        match spec_reading(written[n - 1].1) {
            Reading::Broken(_, _) => rest,
            Reading::Decides(_, _) => rest + spec_moved(
                spec_reread_all(s, written, n - 1).values,
                spec_reread_all(s, written, n).values,
                written[n - 1].0,
                SETTING_COUNT as int,
            ),
        }
    }
}

/// The files of what was written, in order.
pub open spec fn written_files(written: Seq<(File, Observed)>) -> Seq<File> {
    written.map_values(|w: (File, Observed)| w.0)
}

impl Store {
    /// What a change amounts to once its files are on disk, given what reading each of them
    /// found: every file re-read in turn -- what a key is now depends on the file as a whole,
    /// and a reset falls back to whatever is underneath rather than to what was removed --
    /// everything that moved, group keys included, and what became of telling each program
    /// owning one of the plan's settings in a written file, each told once, only now that
    /// every file is written.
    pub fn settle<F: Fn(&'static str) -> Outcome>(
        &mut self,
        plan: &Plan,
        written: Vec<(File, Observed)>,
        signal_pidfile: F,
    ) -> (r: Changed)
        requires
            Store::view_shaped(old(self)@),
            forall|name: &'static str| signal_pidfile.requires((name,)),
        ensures
            Store::view_shaped(final(self)@),
            final(self)@ == spec_reread_all(old(self)@, written@, written@.len() as int),
            pairs_view(r.values@) == spec_with_groups(
                final(self)@,
                spec_reread_moved(old(self)@, written@, written@.len() as int),
                group_table().len() as int,
            ),
            ({
                let settings = spec_touched_settings(
                    plan_view(*plan),
                    written_files(written@),
                    plan.files@.len() as int,
                );
                let told = spec_to_tell(settings, Seq::empty(), settings.len() as int);
                &&& r.outcomes@.len() == told.len()
                &&& forall|j: int|
                    0 <= j < told.len() ==> (#[trigger] r.outcomes@[j]).0@ == told[j].0 && notified(
                        signal_pidfile,
                        told[j].1,
                        told[j].2,
                        r.outcomes@[j].1,
                    )
            }),
    {
        let ghost all = written@;
        let ghost start = self@;
        let mut written = written;
        let total = written.len();
        let mut touched: Vec<File> = Vec::new();
        let mut values: Vec<(&'static str, Value)> = Vec::new();
        let mut k: usize = 0;
        while written.len() > 0
            invariant
                k + written@.len() == all.len(),
                all.len() == total,
                written@ == all.subrange(k as int, all.len() as int),
                Store::view_shaped(self@),
                self@ == spec_reread_all(start, all, k as int),
                pairs_view(values@) == spec_reread_moved(start, all, k as int),
                touched@ == written_files(all.subrange(0, k as int)),
            decreases written@.len(),
        {
            assert(written@[0] == all[k as int]);
            let (file, observed) = written.remove(0);
            touched.push(file);
            let mut moved = self.reread(file, observed);
            values.append(&mut moved);
            proof {
                assert(all.subrange(k + 1, all.len() as int) =~= written@);
                assert(pairs_view(values@) =~= spec_reread_moved(start, all, k + 1));
                assert(touched@ =~= written_files(all.subrange(0, k + 1)));
            }
            k = k + 1;
        }
        proof {
            assert(all.subrange(0, k as int) =~= all);
        }
        let values = self.with_group_keys(values);
        let settings = plan.touched_settings(&touched);
        let none: Vec<&'static str> = Vec::new();
        let tell = to_tell(&settings, &none);
        proof {
            assert(names_view(none@) =~= Seq::<Seq<char>>::empty());
        }
        let outcomes = tell_all(&tell, &signal_pidfile);
        proof {
            let told_fn = |t: (&'static str, crate::schema::Owner, crate::schema::Reload)|
                (t.0@, t.1, t.2);
            assert forall|j: int| 0 <= j < tell@.len() implies tell@.map_values(told_fn)[j]
                == told_fn(tell@[j]) by {}
        }
        Changed { values, outcomes }
    }
}

impl Store {
    /// Read every config file, given what reading each of them found, in turn, and work out
    /// what everything currently is.
    pub fn load(roots: Roots, read: Vec<(File, Observed)>) -> (r: Store)
        ensures
            Store::view_shaped(r@),
            r@ == spec_reread_all(spec_fresh(roots), read@, read@.len() as int),
    {
        let ghost all = read@;
        let mut store = Store::new(roots);
        proof {
            let fresh = spec_fresh(roots);
            assert forall|i: int| 0 <= i < store@.values.len() implies #[trigger] store@.values[i]
                == fresh.values[i] by {
                assert(store@.sources[i] == Source::Default);
                assert(store@.values[i] is None);
            }
            assert(store@.values =~= fresh.values);
            assert(store@.sources =~= fresh.sources);
            assert(store@.invalid =~= fresh.invalid);
            assert(store@.last_written =~= fresh.last_written);
        }
        let mut read = read;
        let total = read.len();
        let mut k: usize = 0;
        while read.len() > 0
            invariant
                k + read@.len() == all.len(),
                all.len() == total,
                read@ == all.subrange(k as int, all.len() as int),
                Store::view_shaped(store@),
                store@ == spec_reread_all(spec_fresh(roots), all, k as int),
            decreases read@.len(),
        {
            assert(read@[0] == all[k as int]);
            let (file, observed) = read.remove(0);
            let _ = store.reread(file, observed);
            proof {
                assert(all.subrange(k + 1, all.len() as int) =~= read@);
            }
            k = k + 1;
        }
        store
    }
}

// ---------------------------------------------------------------------------------------------
// What holds of every change
// ---------------------------------------------------------------------------------------------

/// Whether one request of a batch cannot be carried out: its key names nothing settable, or
/// its value does not fit one of the settings the key stands for.
pub open spec fn request_refused(request: (Seq<char>, ValueView)) -> bool {
    match spec_targets(request.0) {
        Err(_) => true,
        Ok(list) => spec_coerce_all(list, request.1) is Err,
    }
}

/// A batch is refused as a whole exactly when one of its requests is: validation covers every
/// key before any file is touched, so a batch with one bad value leaves nothing half-applied.
pub proof fn law_batch_refused_whole(requested: Seq<(Seq<char>, ValueView)>)
    ensures
        spec_set_edits(requested) is Err <==> exists|i: int|
            0 <= i < requested.len() && #[trigger] request_refused(requested[i]),
    decreases requested.len(),
{
    if requested.len() > 0 {
        let prefix = requested.drop_last();
        law_batch_refused_whole(prefix);
        let last = requested.last();
        let n = requested.len() - 1;
        assert(requested[n] == last);
        assert(spec_set_edits(requested) is Err <==> (spec_set_edits(prefix) is Err
            || request_refused(last)));
        if spec_set_edits(requested) is Err {
            if spec_set_edits(prefix) is Err {
                let i = choose|i: int| 0 <= i < prefix.len() && #[trigger] request_refused(prefix[i]);
                assert(requested[i] == prefix[i]);
                assert(request_refused(requested[i]));
            } else {
                assert(request_refused(requested[n]));
            }
        }
        if exists|i: int| 0 <= i < requested.len() && #[trigger] request_refused(requested[i]) {
            let i = choose|i: int|
                0 <= i < requested.len() && #[trigger] request_refused(requested[i]);
            if i < n {
                assert(prefix[i] == requested[i]);
                assert(request_refused(prefix[i]));
            }
        }
    }
}

/// The files of a plan, in order.
pub open spec fn plan_files(plan: Seq<(File, Seq<(Setting, Option<ValueView>)>)>) -> Seq<File> {
    plan.map_values(|e: (File, Seq<(Setting, Option<ValueView>)>)| e.0)
}

/// Grouping the edits of the first `k` files lists each of those files at most once, in file
/// order, with exactly the edits bound for it, in the order they were asked for.
proof fn lemma_group(edits: Seq<(Setting, Option<ValueView>)>, k: int)
    requires
        0 <= k <= crate::paths::FILE_COUNT,
    ensures
        forall|a: int, b: int|
            0 <= a < b < spec_group(edits, k).len() ==> crate::paths::spec_index(
                #[trigger] spec_group(edits, k)[a].0,
            ) < crate::paths::spec_index(#[trigger] spec_group(edits, k)[b].0),
        forall|a: int|
            0 <= a < spec_group(edits, k).len() ==> crate::paths::spec_index(
                #[trigger] spec_group(edits, k)[a].0,
            ) < k && spec_group(edits, k)[a].1 == edits.filter(bound_for(spec_group(edits, k)[a].0)),
    decreases k,
{
    crate::paths::lemma_files();
    if k > 0 {
        lemma_group(edits, k - 1);
        let rest = spec_group(edits, k - 1);
        let file = crate::paths::spec_all()[k - 1];
        assert(crate::paths::spec_index(file) == k - 1);
        let mine = edits.filter(bound_for(file));
        if mine.len() > 0 {
            let now = rest.push((file, mine));
            assert(spec_group(edits, k) == now);
            assert forall|a: int| 0 <= a < now.len() implies crate::paths::spec_index(
                #[trigger] now[a].0,
            ) < k && now[a].1 == edits.filter(bound_for(now[a].0)) by {
                if a < rest.len() {
                    assert(now[a] == rest[a]);
                }
            }
            assert forall|a: int, b: int| 0 <= a < b < now.len() implies crate::paths::spec_index(
                #[trigger] now[a].0,
            ) < crate::paths::spec_index(#[trigger] now[b].0) by {
                assert(now[a] == rest[a]);
                if b < rest.len() {
                    assert(now[b] == rest[b]);
                }
            }
        }
    }
}

/// One write per file: a plan names each file once, and hands it exactly the edits bound for
/// it, in the order they were asked for.
pub proof fn law_one_write_per_file(edits: Seq<(Setting, Option<ValueView>)>)
    ensures
        plan_files(spec_group(edits, crate::paths::FILE_COUNT as int)).no_duplicates(),
        forall|a: int|
            0 <= a < spec_group(edits, crate::paths::FILE_COUNT as int).len() ==> (#[trigger] spec_group(
                edits,
                crate::paths::FILE_COUNT as int,
            )[a]).1 == edits.filter(
                bound_for(spec_group(edits, crate::paths::FILE_COUNT as int)[a].0),
            ),
{
    lemma_group(edits, crate::paths::FILE_COUNT as int);
    let plan = spec_group(edits, crate::paths::FILE_COUNT as int);
    assert forall|a: int, b: int|
        0 <= a < plan_files(plan).len() && 0 <= b < plan_files(plan).len() && a != b implies plan_files(
        plan,
    )[a] != plan_files(plan)[b] by {
        if a < b {
            assert(crate::paths::spec_index(plan[a].0) < crate::paths::spec_index(plan[b].0));
        } else {
            assert(crate::paths::spec_index(plan[b].0) < crate::paths::spec_index(plan[a].0));
        }
    }
}

/// The programs of a list of whom to tell.
pub open spec fn told_programs(told: Seq<(Seq<char>, crate::schema::Owner, crate::schema::Reload)>) -> Seq<
    Seq<char>,
> {
    told.map_values(|t: (Seq<char>, crate::schema::Owner, crate::schema::Reload)| t.0)
}

/// One signal per owner: whom to tell names each program once, never one already told, and
/// every program among the settings that was not already told.
pub proof fn law_one_signal_per_owner(settings: Seq<Setting>, already: Seq<Seq<char>>, n: int)
    requires
        0 <= n <= settings.len(),
    ensures
        told_programs(spec_to_tell(settings, already, n)).no_duplicates(),
        forall|p: Seq<char>|
            #[trigger] told_programs(spec_to_tell(settings, already, n)).contains(p)
                ==> !already.contains(p),
        forall|i: int|
            0 <= i < n && !already.contains(program_name(#[trigger] settings[i]))
                ==> told_programs(spec_to_tell(settings, already, n)).contains(
                program_name(settings[i]),
            ),
    decreases n,
{
    if n > 0 {
        law_one_signal_per_owner(settings, already, n - 1);
        let rest = spec_to_tell(settings, already, n - 1);
        let setting = settings[n - 1];
        let program = program_name(setting);
        let now = spec_to_tell(settings, already, n);
        assert(told_programs(rest) == rest.map_values(
            |t: (Seq<char>, crate::schema::Owner, crate::schema::Reload)| t.0,
        ));
        if !(already.contains(program) || told_programs(rest).contains(program)) {
            assert(told_programs(now) =~= told_programs(rest).push(program));
            assert forall|p: Seq<char>| #[trigger] told_programs(now).contains(p) implies !already.contains(
                p,
            ) by {
                if told_programs(rest).contains(p) {
                } else {
                    let k = choose|k: int| 0 <= k < told_programs(now).len() && told_programs(now)[k] == p;
                    if k < told_programs(rest).len() {
                        assert(told_programs(rest)[k] == p);
                    }
                }
            }
            assert forall|i: int|
                0 <= i < n && !already.contains(program_name(#[trigger] settings[i])) implies told_programs(
                now,
            ).contains(program_name(settings[i])) by {
                if i < n - 1 {
                    let k = choose|k: int|
                        0 <= k < told_programs(rest).len() && told_programs(rest)[k] == program_name(
                            settings[i],
                        );
                    assert(told_programs(now)[k] == program_name(settings[i]));
                } else {
                    assert(told_programs(now)[told_programs(rest).len() as int] == program);
                }
            }
        }
    }
}

/// One signal per owner across a burst of hand edits too: however many files a program owns
/// moved in one burst, it is told once.
pub proof fn law_burst_tells_each_owner_once(s: StoreView, found: Seq<Found>, n: int)
    ensures
        told_programs(spec_refresh_told(s, found, n)).no_duplicates(),
    decreases n,
{
    if n > 0 {
        law_burst_tells_each_owner_once(s, found, n - 1);
        let rest = spec_refresh_told(s, found, n - 1);
        if spec_refresh_moved(spec_refreshed(s, found, n - 1), found[n - 1]).len() > 0 {
            let settings = crate::schema::spec_in_namespace(spec_namespace(found[n - 1].file));
            let already = rest.map_values(
                |t: (Seq<char>, crate::schema::Owner, crate::schema::Reload)| t.0,
            );
            assert(already =~= told_programs(rest));
            law_one_signal_per_owner(settings, already, settings.len() as int);
            let added = spec_to_tell(settings, already, settings.len() as int);
            let all = told_programs(spec_refresh_told(s, found, n));
            assert(all =~= told_programs(rest) + told_programs(added));
            assert forall|i: int, j: int|
                0 <= i < all.len() && 0 <= j < all.len() && i != j implies all[i] != all[j] by {
                let r = told_programs(rest).len() as int;
                if i < r && j >= r {
                    assert(already[i] == all[i]);
                    assert(told_programs(added).contains(all[j])) by {
                        assert(told_programs(added)[j - r] == all[j]);
                    }
                } else if j < r && i >= r {
                    assert(already[j] == all[j]);
                    assert(told_programs(added).contains(all[i])) by {
                        assert(told_programs(added)[i - r] == all[i]);
                    }
                } else if i >= r && j >= r {
                    assert(told_programs(added)[i - r] == all[i]);
                    assert(told_programs(added)[j - r] == all[j]);
                } else {
                    assert(told_programs(rest)[i] == all[i]);
                    assert(told_programs(rest)[j] == all[j]);
                }
            }
        }
    }
}

/// The daemon's own write coming back through the watch announces nothing: no notice, nothing
/// moved, so nobody is told, and every value and source stays as it was.
pub proof fn law_own_write_announces_nothing(s: StoreView, found: Found)
    requires
        spec_own_write(s, found.file, actual_view(found)),
    ensures
        spec_refresh_notice(s, found) is None,
        spec_refresh_moved(s, found).len() == 0,
        spec_refresh_state(s, found).values == s.values,
        spec_refresh_state(s, found).sources == s.sources,
{
}

/// A file edited into something that will not parse tells nobody: nothing moves, so no owner
/// is signaled -- it would fall back to its built-in defaults -- and the last-good values and
/// sources are kept. The break itself is reported once.
pub proof fn law_broken_file_tells_nobody(s: StoreView, found: Found)
    requires
        !spec_own_write(s, found.file, actual_view(found)),
        spec_reading(found.observed) is Broken,
    ensures
        spec_refresh_moved(s, found).len() == 0,
        spec_refresh_state(s, found).values == s.values,
        spec_refresh_state(s, found).sources == s.sources,
        spec_refresh_notice(s, found) is Some <==> s.invalid[fi(found.file)] is None,
{
}

/// Resetting a setting removes its key rather than writing its default, so it then reads as
/// its declared default, from nowhere.
pub proof fn law_reset_reads_as_default(
    entries: Map<Seq<char>, edit::Entry>,
    setting: Setting,
    from_user: bool,
)
    ensures
        ({
            let path = path_view(setting.path@);
            let (found, after) = edit::spec_remove(entries, path);
            &&& spec_apply(entries, seq![(setting, None::<ValueView>)]) == Ok::<
                (Map<Seq<char>, edit::Entry>, bool),
                Seq<char>,
            >((after, found))
            &&& spec_get(after, path) is None
            &&& read_setting(Some(after), from_user, setting) == (
                spec_default_value(setting),
                Source::Default,
            )
        }),
{
    let edits = seq![(setting, None::<ValueView>)];
    assert(edits.drop_last() =~= Seq::<(Setting, Option<ValueView>)>::empty());
    assert(edits.last() == (setting, None::<ValueView>));
    assert(spec_apply(entries, Seq::<(Setting, Option<ValueView>)>::empty()) == Ok::<
        (Map<Seq<char>, edit::Entry>, bool),
        Seq<char>,
    >((entries, false)));
    edit::law_get_after_remove(entries, path_view(setting.path@));
}

/// A value accepted for a setting, once written, reads back as that value, from the file the
/// write went to.
pub proof fn law_written_value_reads_back(
    entries: Map<Seq<char>, edit::Entry>,
    setting: Setting,
    requested: ValueView,
    from_user: bool,
)
    requires
        spec_coerce(setting, requested) is Ok,
        edit::spec_set(entries, path_view(setting.path@), spec_coerce(setting, requested)->Ok_0) is Some,
    ensures
        ({
            let accepted = spec_coerce(setting, requested)->Ok_0;
            let after = edit::spec_set(entries, path_view(setting.path@), accepted)->0;
            &&& spec_apply(entries, seq![(setting, Some(accepted))]) == Ok::<
                (Map<Seq<char>, edit::Entry>, bool),
                Seq<char>,
            >((after, true))
            &&& read_setting(Some(after), from_user, setting) == (
                Some(accepted),
                if from_user {
                    Source::User
                } else {
                    Source::System
                },
            )
        }),
{
    let accepted = spec_coerce(setting, requested)->Ok_0;
    let edits = seq![(setting, Some(accepted))];
    assert(edits.drop_last() =~= Seq::<(Setting, Option<ValueView>)>::empty());
    assert(edits.last() == (setting, Some(accepted)));
    assert(spec_apply(entries, Seq::<(Setting, Option<ValueView>)>::empty()) == Ok::<
        (Map<Seq<char>, edit::Entry>, bool),
        Seq<char>,
    >((entries, false)));
    edit::law_get_after_set(entries, path_view(setting.path@), accepted);
}

/// The daemon's own write is recognized once, by its bytes: recorded and then seen on disk,
/// it is ours; recognized, it is consumed, and the same bytes seen again are a hand-edit.
pub proof fn law_own_write_recognized_once(s: StoreView, file: File, bytes: Seq<u8>)
    requires
        Store::view_shaped(s),
        s.roots.spec_user_path(file) is Some,
    ensures
        ({
            let recorded = StoreView {
                last_written: s.last_written.update(fi(file), Some(bytes)),
                ..s
            };
            let consumed = StoreView {
                last_written: recorded.last_written.update(fi(file), None),
                ..recorded
            };
            spec_own_write(recorded, file, Some(bytes)) && !spec_own_write(consumed, file, Some(bytes))
        }),
{
    crate::paths::lemma_files();
}

/// A file that will not parse changes no value and no source: the last-good values keep
/// being served.
pub proof fn law_broken_file_keeps_values(s: StoreView, file: File, path: Seq<char>, message: Seq<char>)
    ensures
        spec_after_read(s, file, Reading::Broken(path, message)).values == s.values,
        spec_after_read(s, file, Reading::Broken(path, message)).sources == s.sources,
{
}

/// Whether no value is NaN, the one value not equal to itself.
pub open spec fn no_nan(values: Seq<Option<ValueView>>) -> bool {
    forall|i: int| 0 <= i < values.len() ==> !(#[trigger] values[i] matches Some(ValueView::Float(bits)) && is_nan(bits))
}

/// Reading the same file the same way twice moves nothing the second time: what is announced
/// is what changed in value, not that the file was written.
pub proof fn law_same_read_moves_nothing(
    s: StoreView,
    file: File,
    entries: Option<Map<Seq<char>, edit::Entry>>,
    from_user: bool,
)
    requires
        Store::view_shaped(s),
        no_nan(spec_after_read(s, file, Reading::Decides(entries, from_user)).values),
    ensures
        ({
            let once = spec_after_read(s, file, Reading::Decides(entries, from_user));
            let twice = spec_after_read(once, file, Reading::Decides(entries, from_user));
            spec_moved(once.values, twice.values, file, SETTING_COUNT as int).len() == 0
        }),
{
    let once = spec_after_read(s, file, Reading::Decides(entries, from_user));
    let twice = spec_after_read(once, file, Reading::Decides(entries, from_user));
    assert(twice.values =~= once.values);
    lemma_moved_reflexive(once.values, file, SETTING_COUNT as int);
}

/// Nothing moves between a list of values and itself, when none of them is NaN.
proof fn lemma_moved_reflexive(values: Seq<Option<ValueView>>, file: File, n: int)
    requires
        no_nan(values),
        n <= values.len(),
    ensures
        spec_moved(values, values, file, n).len() == 0,
    decreases n,
{
    if n > 0 {
        lemma_moved_reflexive(values, file, n - 1);
        let i = n - 1;
        assert(!(values[i] matches Some(ValueView::Float(bits)) && is_nan(bits)));
        match values[i] {
            Some(v) => {
                assert(edit::value_eq(v, v));
            },
            None => {},
        }
    }
}

} // verus!
