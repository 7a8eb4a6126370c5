//! What the `com.wlrix.Settings1` interface answers, apart from the bus itself.
//!
//! A key is `<namespace>.<toml path>`, so a key greps like the file it is in. `Describe`
//! hands out the schema -- type, range, choices, unit, default, prose -- as named fields
//! rather than a fixed struct, because adding a field to a struct breaks every client and
//! adding an entry breaks none. The `has_default` entry is the one worth not losing:
//! `compositor.keyboard.layout` genuinely has no default, while `repeat_delay` defaults to
//! 200, and a UI has to show "system default" and "200" as different things.
//!
//! Errors are named so a client can tell "no such setting" from "out of range" from "the file
//! on disk is broken" without parsing English.
use vstd::prelude::*;

use crate::edit::{self, Double, Value, ValueView};
use crate::paths::{spec_namespace, File, Roots};
use crate::schema::table::table;
use crate::schema::{
    group_table, lookup, lookup_group, spec_has_default, spec_kind_name, spec_lookup,
    spec_program, spec_reload_name, spec_signature, spec_unit_name, Group, Kind, Reload, Setting,
};
use crate::store::{self, names_view, Changed, ErrorView, Store};
use crate::text::{owned, str_eq};

verus! {

/// The interface's version: 2 added fan-out keys.
pub const VERSION: u32 = 2;

/// The errors the interface answers with, each carrying its message.
#[derive(Debug)]
pub enum BusError {
    /// No such setting.
    UnknownKey(String),
    /// A real setting, deliberately not offered here yet, with what to do instead.
    Unsupported(String),
    /// The right key, the wrong shape.
    WrongType(String),
    /// A string that is not one of an enum's choices.
    InvalidValue(String),
    /// A number outside the range the schema declares.
    OutOfRange(String),
    /// The file on disk will not parse, so its values cannot be trusted or written over.
    FileInvalid(String),
    /// The owning program's own parser refused the file, so it was not installed. The change
    /// was understood and rejected; nothing was changed.
    Refused(String),
    /// The file could not be written.
    WriteFailed(String),
}

/// Which named error a store error is answered with, by position, and its message.
pub open spec fn spec_bus_error(err: ErrorView) -> (int, Seq<char>) {
    let message = store::spec_store_error_text(err);
    match err {
        ErrorView::UnknownKey(_) => (0, message),
        ErrorView::Unsupported { .. } => (1, message),
        ErrorView::WrongType { .. } => (2, message),
        ErrorView::InvalidValue { .. } => (3, message),
        ErrorView::OutOfRange { .. } => (4, message),
        ErrorView::File(edit::ErrorView::Parse { .. }) => (5, message),
        ErrorView::File(edit::ErrorView::Refused { .. }) => (6, message),
        ErrorView::File(_) => (7, message),
    }
}

/// A bus error's name, by position, and its message.
pub open spec fn bus_error_view(err: BusError) -> (int, Seq<char>) {
    match err {
        BusError::UnknownKey(m) => (0, m@),
        BusError::Unsupported(m) => (1, m@),
        BusError::WrongType(m) => (2, m@),
        BusError::InvalidValue(m) => (3, m@),
        BusError::OutOfRange(m) => (4, m@),
        BusError::FileInvalid(m) => (5, m@),
        BusError::Refused(m) => (6, m@),
        BusError::WriteFailed(m) => (7, m@),
    }
}

/// The bus error a store error is answered with, carrying its message.
pub fn bus_error(err: &store::Error) -> (r: BusError)
    ensures
        bus_error_view(r) == spec_bus_error(err@),
{
    let message = err.message();
    match err {
        store::Error::UnknownKey(_) => BusError::UnknownKey(message),
        store::Error::Unsupported { .. } => BusError::Unsupported(message),
        store::Error::WrongType { .. } => BusError::WrongType(message),
        store::Error::InvalidValue { .. } => BusError::InvalidValue(message),
        store::Error::OutOfRange { .. } => BusError::OutOfRange(message),
        store::Error::File(edit::Error::Parse { .. }) => BusError::FileInvalid(message),
        store::Error::File(edit::Error::Refused { .. }) => BusError::Refused(message),
        store::Error::File(_) => BusError::WriteFailed(message),
    }
}

/// The file a namespace names, or the error that refuses it before any work is done.
pub fn known(namespace: &str) -> (r: Result<File, BusError>)
    ensures
        match r {
            Ok(file) => spec_namespace(file) == namespace@,
            Err(e) => bus_error_view(e) == (0int, "no such namespace: "@ + namespace@) && forall|
                f: File,
            | spec_namespace(f) != namespace@,
        },
{
    match File::from_namespace(namespace) {
        Some(file) => Ok(file),
        None => {
            let mut message = owned("no such namespace: ");
            message.append(namespace);
            Err(BusError::UnknownKey(message))
        },
    }
}

/// The part of a key before its first dot, or the whole key when it has none.
pub open spec fn spec_category(key: Seq<char>) -> Seq<char> {
    if exists|i: int| 0 <= i < key.len() && key[i] == '.' {
        key.subrange(0, first_dot(key))
    } else {
        key
    }
}

/// The part of a group key before the first dot. Not a namespace: there is no file behind it.
pub fn category(key: &str) -> (r: &str)
    ensures
        r@ == spec_category(key@),
{
    let n = key.unicode_len();
    let mut i: usize = 0;
    while i < n
        invariant
            n == key@.len(),
            i <= n,
            forall|j: int| 0 <= j < i ==> key@[j] != '.',
        decreases n - i,
    {
        if key.get_char(i) == '.' {
            proof {
                lemma_first_dot(key@, i as int);
            }
            return key.substring_char(0, i);
        }
        i = i + 1;
    }
    key
}

/// Where the first dot of a key is.
pub open spec fn first_dot(key: Seq<char>) -> int {
    choose|i: int| 0 <= i < key.len() && key[i] == '.' && forall|j: int| 0 <= j < i ==> key[j] != '.'
}

/// The first dot is the one with no dot before it.
proof fn lemma_first_dot(key: Seq<char>, i: int)
    requires
        0 <= i < key.len(),
        key[i] == '.',
        forall|j: int| 0 <= j < i ==> key[j] != '.',
    ensures
        first_dot(key) == i,
{
    let k = first_dot(key);
    assert(0 <= k < key.len() && key[k] == '.' && forall|j: int| 0 <= j < k ==> key[j] != '.');
    if k < i {
        assert(key[k] != '.');
    }
    if i < k {
        assert(key[i] != '.');
    }
}

/// How little a reload behavior is live: live, then restart, then next login, then never.
pub open spec fn liveness_rank(reload: Reload) -> int {
    match reload {
        Reload::Live => 0,
        Reload::Restart => 1,
        Reload::NextLogin => 2,
        Reload::Never => 3,
    }
}

/// The least live of a list of settings' reload behaviors, the first of the least live ones;
/// `Never` for none.
pub open spec fn spec_worst(settings: Seq<Setting>) -> Reload
    decreases settings.len(),
{
    if settings.len() == 0 {
        Reload::Never
    } else if settings.len() == 1 {
        settings[0].reload
    } else {
        let rest = spec_worst(settings.drop_last());
        if liveness_rank(settings.last().reload) >= liveness_rank(rest) {
            settings.last().reload
        } else {
            rest
        }
    }
}

/// How live a group is: as live as its least live member. Saying otherwise would have a panel
/// report `applied` while one component still needed restarting.
pub fn worst_reload(group: &Group) -> (r: Reload)
    ensures
        r == spec_worst(crate::schema::resolve_members(group.members@)),
        forall|i: int|
            0 <= i < crate::schema::resolve_members(group.members@).len() ==> liveness_rank(
                #[trigger] crate::schema::resolve_members(group.members@)[i].reload,
            ) <= liveness_rank(r),
{
    let members = group.settings();
    let mut worst = Reload::Never;
    let mut i: usize = 0;
    proof {
        assert(members@.subrange(0, 0) =~= Seq::<Setting>::empty());
    }
    while i < members.len()
        invariant
            i <= members@.len(),
            worst == spec_worst(members@.subrange(0, i as int)),
            forall|j: int| 0 <= j < i ==> liveness_rank(#[trigger] members@[j].reload) <= liveness_rank(
                worst,
            ),
        decreases members@.len() - i,
    {
        proof {
            assert(members@.subrange(0, i + 1).drop_last() =~= members@.subrange(0, i as int));
            assert(members@.subrange(0, i + 1).last() == members@[i as int]);
        }
        let reload = members[i].reload;
        if i == 0 || rank(reload) >= rank(worst) {
            worst = reload;
        }
        i = i + 1;
    }
    proof {
        assert(members@.subrange(0, members@.len() as int) =~= members@);
        if members@.len() == 0 {
            assert(worst == Reload::Never);
        }
    }
    worst
}

/// [`liveness_rank`], computed.
fn rank(reload: Reload) -> (r: u8)
    ensures
        r == liveness_rank(reload),
{
    match reload {
        Reload::Live => 0,
        Reload::Restart => 1,
        Reload::NextLogin => 2,
        Reload::Never => 3,
    }
}

/// A value of the right type carrying nothing, for a setting that is not set.
pub open spec fn spec_empty_of(kind: Kind) -> ValueView {
    match kind {
        Kind::Bool { .. } => ValueView::Bool(false),
        Kind::Int { .. } => ValueView::Int(0),
        Kind::Float { .. } => ValueView::Float(0),
        Kind::Str { .. } => ValueView::Str(Seq::empty()),
        Kind::Enum { .. } => ValueView::Str(Seq::empty()),
        Kind::StrList { .. } => ValueView::StrList(Seq::empty()),
    }
}

/// A value of the right type carrying nothing: what `Get` answers for a setting that is not
/// set, since there is nothing wrong with the request.
pub fn empty_of(kind: &Kind) -> (r: Value)
    ensures
        r@ == spec_empty_of(*kind),
{
    match kind {
        Kind::Bool { .. } => Value::Bool(false),
        Kind::Int { .. } => Value::Int(0),
        Kind::Float { .. } => Value::Float(Double::from_int(0)),
        Kind::Str { .. } => Value::Str(String::new()),
        Kind::Enum { .. } => Value::Str(String::new()),
        Kind::StrList { .. } => {
            let items: Vec<String> = Vec::new();
            proof {
                assert(edit::strings_view(items@) =~= Seq::<Seq<char>>::empty());
            }
            Value::StrList(items)
        },
    }
}

/// A maybe-name, or the empty string.
pub open spec fn or_empty(name: Option<Seq<char>>) -> Seq<char> {
    match name {
        Some(n) => n,
        None => Seq::empty(),
    }
}

/// The range and choices a setting's kind carries: `min` and `max` for a number, `choices`
/// and `choice_labels` for an enum, nothing for the rest. A decimal bound is described when its text
/// reads as the bits it is declared with, the bits a value is checked against: the range shown
/// is the range enforced.
pub open spec fn spec_range_fields(kind: Kind) -> Seq<(Seq<char>, ValueView)> {
    match kind {
        Kind::Int { min, max, .. } => seq![("min"@, ValueView::Int(min)), ("max"@, ValueView::Int(max))],
        Kind::Float { min, max, .. } => {
            let low = if edit::parse_double(min.text@) == Some(min.bits) {
                seq![("min"@, ValueView::Float(min.bits))]
            } else {
                Seq::empty()
            };
            let high = if edit::parse_double(max.text@) == Some(max.bits) {
                seq![("max"@, ValueView::Float(max.bits))]
            } else {
                Seq::empty()
            };
            low + high
        },
        Kind::Enum { choices, .. } => seq![
            ("choices"@, ValueView::StrList(store::choice_values(choices@))),
            ("choice_labels"@, ValueView::StrList(choices@.map_values(|c: crate::schema::Choice| c.label@))),
        ],
        _ => Seq::empty(),
    }
}

/// Everything a panel needs to draw one setting: its key, namespace, signature, kind, unit,
/// prose, owner, reload behavior, whether it has a default and what it is -- always present,
/// empty of its type where there is none -- its range or choices, and the file a write lands
/// in.
pub open spec fn spec_describe(setting: Setting, roots: Roots) -> Seq<(Seq<char>, ValueView)> {
    seq![
        ("key"@, ValueView::Str(setting.key@)),
        ("namespace"@, ValueView::Str(spec_namespace(setting.file))),
        ("signature"@, ValueView::Str(spec_signature(setting.kind))),
        ("kind"@, ValueView::Str(spec_kind_name(setting.kind))),
        ("unit"@, ValueView::Str(spec_unit_name(setting.unit))),
        ("summary"@, ValueView::Str(setting.summary@)),
        ("description"@, ValueView::Str(setting.description@)),
        ("owner"@, ValueView::Str(or_empty(spec_program(setting.owner)))),
        ("reload"@, ValueView::Str(spec_reload_name(setting.reload))),
        ("has_default"@, ValueView::Bool(spec_has_default(setting.kind))),
        ("default"@, match store::spec_default_value(setting) {
            Some(v) => v,
            None => spec_empty_of(setting.kind),
        }),
    ] + spec_range_fields(setting.kind) + seq![
        ("file"@, ValueView::Str(or_empty(roots.spec_user_path(setting.file)))),
    ]
}

/// A maybe-string, or the empty string.
fn text_or_empty(text: Option<&'static str>) -> (r: String)
    ensures
        r@ == or_empty(
            match text {
                Some(t) => Some(t@),
                None => None,
            },
        ),
{
    match text {
        Some(t) => owned(t),
        None => String::new(),
    }
}

/// Append one named field.
fn put(fields: &mut Vec<(&'static str, Value)>, name: &'static str, value: Value)
    ensures
        store::pairs_view(final(fields)@) == store::pairs_view(old(fields)@).push((name@, value@)),
{
    let ghost before = store::pairs_view(fields@);
    fields.push((name, value));
    proof {
        assert(store::pairs_view(fields@) =~= before.push((name@, value@)));
    }
}

/// A list of static strings as owned strings.
fn owned_all(items: &Vec<&'static str>) -> (r: Vec<String>)
    ensures
        edit::strings_view(r@) == names_view(items@),
{
    let mut out: Vec<String> = Vec::new();
    let mut i: usize = 0;
    while i < items.len()
        invariant
            i <= items@.len(),
            out@.len() == i,
            forall|j: int| 0 <= j < i ==> out@[j]@ == items@[j]@,
        decreases items@.len() - i,
    {
        out.push(owned(items[i]));
        i = i + 1;
    }
    assert(edit::strings_view(out@) =~= names_view(items@));
    out
}

/// The range and choices a setting's kind carries.
fn range_fields(kind: &Kind, fields: &mut Vec<(&'static str, Value)>)
    ensures
        store::pairs_view(final(fields)@) == store::pairs_view(old(fields)@) + spec_range_fields(*kind),
{
    let ghost before = store::pairs_view(fields@);
    match kind {
        Kind::Int { min, max, .. } => {
            put(fields, "min", Value::Int(*min));
            put(fields, "max", Value::Int(*max));
        },
        Kind::Float { min, max, .. } => {
            match Double::from_decimal(min.text) {
                Some(d) => if d.bits() == min.bits {
                    put(fields, "min", Value::Float(d));
                },
                None => {},
            }
            match Double::from_decimal(max.text) {
                Some(d) => if d.bits() == max.bits {
                    put(fields, "max", Value::Float(d));
                },
                None => {},
            }
        },
        Kind::Enum { choices, .. } => {
            let mut values: Vec<String> = Vec::new();
            let mut labels: Vec<String> = Vec::new();
            let mut i: usize = 0;
            while i < choices.len()
                invariant
                    i <= choices@.len(),
                    values@.len() == i,
                    labels@.len() == i,
                    forall|j: int| 0 <= j < i ==> values@[j]@ == choices@[j].value@ && labels@[j]@
                        == choices@[j].label@,
                decreases choices@.len() - i,
            {
                values.push(owned(choices[i].value));
                labels.push(owned(choices[i].label));
                i = i + 1;
            }
            proof {
                assert(edit::strings_view(values@) =~= store::choice_values(choices@));
                assert(edit::strings_view(labels@) =~= choices@.map_values(
                    |c: crate::schema::Choice| c.label@,
                ));
            }
            put(fields, "choices", Value::StrList(values));
            put(fields, "choice_labels", Value::StrList(labels));
        },
        _ => {},
    }
    proof {
        assert(store::pairs_view(fields@) =~= before + spec_range_fields(*kind));
    }
}

/// The metadata for one setting, as named fields a client renders from.
pub fn describe(setting: &Setting, roots: &Roots) -> (r: Vec<(&'static str, Value)>)
    ensures
        store::pairs_view(r@) == spec_describe(*setting, *roots),
{
    let mut fields: Vec<(&'static str, Value)> = Vec::new();
    put(&mut fields, "key", Value::Str(owned(setting.key)));
    put(&mut fields, "namespace", Value::Str(owned(setting.file.namespace())));
    put(&mut fields, "signature", Value::Str(owned(setting.kind.signature())));
    put(&mut fields, "kind", Value::Str(owned(setting.kind.name())));
    put(&mut fields, "unit", Value::Str(owned(setting.unit.name())));
    put(&mut fields, "summary", Value::Str(owned(setting.summary)));
    put(&mut fields, "description", Value::Str(owned(setting.description)));
    put(&mut fields, "owner", Value::Str(text_or_empty(setting.owner.program())));
    put(&mut fields, "reload", Value::Str(owned(setting.reload.name())));
    put(&mut fields, "has_default", Value::Bool(setting.kind.has_default()));
    let default = match store::default_value(setting) {
        Some(v) => v,
        None => empty_of(&setting.kind),
    };
    put(&mut fields, "default", default);
    let ghost head = store::pairs_view(fields@);
    range_fields(&setting.kind, &mut fields);
    let file = match roots.user_path(setting.file) {
        Some(path) => path,
        None => String::new(),
    };
    put(&mut fields, "file", Value::Str(file));
    proof {
        assert(store::pairs_view(fields@) =~= spec_describe(*setting, *roots));
    }
    fields
}

/// The metadata for one fan-out key, in the same shape as [`spec_describe`], with three
/// differences a client can notice: `members` lists what a write expands to, `owner` and
/// `file` are empty because there are several of each, and `reload` is the least live
/// member's.
pub open spec fn spec_describe_group(group: Group) -> Seq<(Seq<char>, ValueView)> {
    seq![
        ("key"@, ValueView::Str(group.key@)),
        ("namespace"@, ValueView::Str(spec_category(group.key@))),
        ("signature"@, ValueView::Str(spec_signature(group.kind))),
        ("kind"@, ValueView::Str(spec_kind_name(group.kind))),
        ("unit"@, ValueView::Str(Seq::empty())),
        ("summary"@, ValueView::Str(group.summary@)),
        ("description"@, ValueView::Str(group.description@)),
        ("owner"@, ValueView::Str(Seq::empty())),
        ("reload"@, ValueView::Str(spec_reload_name(spec_worst(crate::schema::resolve_members(group.members@))))),
        ("has_default"@, ValueView::Bool(spec_has_default(group.kind))),
        ("default"@, spec_empty_of(group.kind)),
        ("file"@, ValueView::Str(Seq::empty())),
        ("members"@, ValueView::StrList(names_view(group.members@))),
    ]
}

/// The metadata for one fan-out key.
pub fn describe_group(group: &Group) -> (r: Vec<(&'static str, Value)>)
    ensures
        store::pairs_view(r@) == spec_describe_group(*group),
{
    let mut fields: Vec<(&'static str, Value)> = Vec::new();
    put(&mut fields, "key", Value::Str(owned(group.key)));
    put(&mut fields, "namespace", Value::Str(owned(category(group.key))));
    put(&mut fields, "signature", Value::Str(owned(group.kind.signature())));
    put(&mut fields, "kind", Value::Str(owned(group.kind.name())));
    put(&mut fields, "unit", Value::Str(String::new()));
    put(&mut fields, "summary", Value::Str(owned(group.summary)));
    put(&mut fields, "description", Value::Str(owned(group.description)));
    put(&mut fields, "owner", Value::Str(String::new()));
    put(&mut fields, "reload", Value::Str(owned(worst_reload(group).name())));
    put(&mut fields, "has_default", Value::Bool(group.kind.has_default()));
    put(&mut fields, "default", empty_of(&group.kind));
    put(&mut fields, "file", Value::Str(String::new()));
    let mut members: Vec<&'static str> = Vec::new();
    let mut i: usize = 0;
    while i < group.members.len()
        invariant
            i <= group.members@.len(),
            members@ == group.members@.subrange(0, i as int),
        decreases group.members@.len() - i,
    {
        members.push(group.members[i]);
        proof {
            assert(members@ =~= group.members@.subrange(0, i + 1));
        }
        i = i + 1;
    }
    proof {
        assert(members@ =~= group.members@);
    }
    put(&mut fields, "members", Value::StrList(owned_all(&members)));
    proof {
        assert(store::pairs_view(fields@) =~= spec_describe_group(*group));
    }
    fields
}

/// What `Describe` answers for a key: a fan-out key's description, a setting's, or the error
/// resolving the key gives -- so a deliberately deferred path gets its explanation rather than
/// a bare "no such setting".
pub open spec fn spec_describe_key(key: Seq<char>, roots: Roots) -> Result<
    Seq<(Seq<char>, ValueView)>,
    (int, Seq<char>),
> {
    match store::find_group(key, 0) {
        Some(g) => Ok(spec_describe_group(group_table()[g])),
        None => match store::spec_resolve_result(key) {
            Ok(setting) => Ok(spec_describe(setting, roots)),
            Err(e) => Err(spec_bus_error(e)),
        },
    }
}

/// Whether an answer is what the spec says.
pub open spec fn answer_is(
    r: Result<Vec<(&'static str, Value)>, BusError>,
    want: Result<Seq<(Seq<char>, ValueView)>, (int, Seq<char>)>,
) -> bool {
    match want {
        Ok(fields) => r matches Ok(x) && store::pairs_view(x@) == fields,
        Err(e) => r matches Err(x) && bus_error_view(x) == e,
    }
}

/// What one key is: its type, range, choices, unit, default, owner, and prose.
pub fn describe_key(key: &str, roots: &Roots) -> (r: Result<Vec<(&'static str, Value)>, BusError>)
    ensures
        answer_is(r, spec_describe_key(key@, *roots)),
{
    proof {
        store::lemma_find_group(key@, 0);
    }
    if let Some(group) = lookup_group(key) {
        proof {
            let i = choose|i: int|
                0 <= i < group_table().len() && group_table()[i] == group && group.key@ == key@
                    && forall|j: int| 0 <= j < i ==> group_table()[j].key@ != key@;
            assert(store::find_group(key@, 0) == Some(i));
        }
        return Ok(describe_group(&group));
    }
    match store::resolve(key) {
        Ok(setting) => Ok(describe(&setting, roots)),
        Err(e) => Err(bus_error(&e)),
    }
}

/// What `Get` answers: the effective value -- a fan-out key's first member's -- or an empty
/// value of the setting's type where nothing sets it; or why the key names nothing.
pub open spec fn spec_get_value(s: store::StoreView, key: Seq<char>) -> Result<ValueView, (int, Seq<char>)> {
    let kind = match store::find_group(key, 0) {
        Some(g) => Some(group_table()[g].kind),
        None => match spec_lookup(key) {
            Some(i) => Some(table()[i].kind),
            None => None,
        },
    };
    match kind {
        None => match store::spec_resolve_result(key) {
            Err(e) => Err(spec_bus_error(e)),
            Ok(_) => Err((0, Seq::empty())),
        },
        Some(kind) => match store::spec_get_key(s, key) {
            Err(e) => Err(spec_bus_error(e)),
            Ok(Some(v)) => Ok(v),
            Ok(None) => Ok(spec_empty_of(kind)),
        },
    }
}

/// The effective value of one key, or an empty value of its type when it has none.
pub fn get_value(store: &Store, key: &str) -> (r: Result<Value, BusError>)
    requires
        Store::view_shaped(store@),
    ensures
        match spec_get_value(store@, key@) {
            Ok(v) => r matches Ok(x) && x@ == v,
            Err(e) => r matches Err(x) && bus_error_view(x) == e,
        },
{
    proof {
        store::lemma_find_group(key@, 0);
    }
    let kind = match lookup_group(key) {
        Some(group) => {
            proof {
                let i = choose|i: int|
                    0 <= i < group_table().len() && group_table()[i] == group && group.key@ == key@
                        && forall|j: int| 0 <= j < i ==> group_table()[j].key@ != key@;
                assert(store::find_group(key@, 0) == Some(i));
            }
            group.kind
        },
        None => match lookup(key) {
            Some(setting) => setting.kind,
            None => {
                return match store::resolve(key) {
                    Err(e) => Err(bus_error(&e)),
                    Ok(_) => Err(BusError::UnknownKey(String::new())),
                };
            },
        },
    };
    match store.get(key) {
        Err(e) => Err(bus_error(&e)),
        Ok(Some(v)) => Ok(v),
        Ok(None) => Ok(empty_of(&kind)),
    }
}

/// What `DescribeAll` answers for a namespace: every setting in it, described, in table order.
pub fn describe_all(namespace: &str, roots: &Roots) -> (r: Result<
    Vec<(&'static str, Vec<(&'static str, Value)>)>,
    BusError,
>)
    ensures
        match r {
            Ok(all) => exists|f: File| spec_namespace(f) == namespace@ && all@.len()
                == crate::schema::spec_in_namespace(namespace@).len() && forall|i: int|
                0 <= i < all@.len() ==> (#[trigger] all@[i]).0@ == crate::schema::spec_in_namespace(
                    namespace@,
                )[i].key@ && store::pairs_view(all@[i].1@) == spec_describe(
                    crate::schema::spec_in_namespace(namespace@)[i],
                    *roots,
                ),
            Err(e) => bus_error_view(e) == (0int, "no such namespace: "@ + namespace@) && forall|
                f: File,
            | spec_namespace(f) != namespace@,
        },
{
    let file = match known(namespace) {
        Ok(file) => file,
        Err(e) => return Err(e),
    };
    let list = crate::schema::in_namespace(namespace);
    let mut out: Vec<(&'static str, Vec<(&'static str, Value)>)> = Vec::new();
    let mut i: usize = 0;
    while i < list.len()
        invariant
            list@ == crate::schema::spec_in_namespace(namespace@),
            i <= list@.len(),
            out@.len() == i,
            forall|j: int|
                0 <= j < i ==> (#[trigger] out@[j]).0@ == list@[j].key@ && store::pairs_view(
                    out@[j].1@,
                ) == spec_describe(list@[j], *roots),
        decreases list@.len() - i,
    {
        out.push((list[i].key, describe(&list[i], roots)));
        i = i + 1;
    }
    Ok(out)
}

/// The outcome of a change per owning program, by name, leaving out the empty name that
/// stands for settings nobody reads while running.
pub open spec fn spec_outcomes(outcomes: Seq<(&'static str, crate::apply::Outcome)>, n: int) -> Seq<
    (Seq<char>, Seq<char>),
>
    decreases n,
{
    if n <= 0 {
        Seq::empty()
    } else {
        let rest = spec_outcomes(outcomes, n - 1);
        let (program, outcome) = outcomes[n - 1];
        if program@.len() == 0 {
            rest
        } else {
            rest.push((program@, crate::apply::spec_outcome_name(outcome)))
        }
    }
}

/// What a write answers: each owning program's outcome, by name.
pub fn outcomes(changed: &Changed) -> (r: Vec<(&'static str, &'static str)>)
    ensures
        r@.map_values(|p: (&'static str, &'static str)| (p.0@, p.1@)) == spec_outcomes(
            changed.outcomes@,
            changed.outcomes@.len() as int,
        ),
{
    let mut out: Vec<(&'static str, &'static str)> = Vec::new();
    let mut i: usize = 0;
    while i < changed.outcomes.len()
        invariant
            i <= changed.outcomes@.len(),
            out@.map_values(|p: (&'static str, &'static str)| (p.0@, p.1@)) == spec_outcomes(
                changed.outcomes@,
                i as int,
            ),
        decreases changed.outcomes@.len() - i,
    {
        let (program, outcome) = changed.outcomes[i];
        if program.unicode_len() > 0 {
            out.push((program, outcome.name()));
        }
        proof {
            assert(out@.map_values(|p: (&'static str, &'static str)| (p.0@, p.1@)) =~= spec_outcomes(
                changed.outcomes@,
                i + 1,
            ));
        }
        i = i + 1;
    }
    out
}

/// What the `Invalid` property answers: each broken file's namespace, with where it is and
/// the parser's message, as `<path>: <message>`.
pub fn invalid_entries(store: &Store) -> (r: Vec<(&'static str, String)>)
    requires
        Store::view_shaped(store@),
    ensures
        r@.map_values(|p: (&'static str, String)| (p.0@, p.1@)) == store::spec_invalid(
            store@,
            crate::paths::FILE_COUNT as int,
        ).map_values(
            |e: (Seq<char>, Seq<char>, Seq<char>)| (e.0, e.1 + ": "@ + e.2),
        ),
{
    let broken = store.invalid();
    let ghost want = store::spec_invalid(store@, crate::paths::FILE_COUNT as int);
    let mut out: Vec<(&'static str, String)> = Vec::new();
    let mut i: usize = 0;
    while i < broken.len()
        invariant
            broken@.map_values(|e: (&'static str, String, String)| (e.0@, e.1@, e.2@)) == want,
            i <= broken@.len(),
            out@.len() == i,
            forall|j: int|
                0 <= j < i ==> (#[trigger] out@[j]).0@ == want[j].0 && out@[j].1@ == want[j].1
                    + ": "@ + want[j].2,
        decreases broken@.len() - i,
    {
        let (namespace, path, message) = &broken[i];
        proof {
            assert(want[i as int] == (namespace@, path@, message@));
        }
        let mut text = owned(path.as_str());
        text.append(": ");
        text.append(message.as_str());
        out.push((namespace, text));
        i = i + 1;
    }
    proof {
        assert(out@.map_values(|p: (&'static str, String)| (p.0@, p.1@)) =~= want.map_values(
            |e: (Seq<char>, Seq<char>, Seq<char>)| (e.0, e.1 + ": "@ + e.2),
        ));
    }
    out
}

/// What the `Groups` property answers: every fan-out key.
pub fn group_keys() -> (r: Vec<&'static str>)
    ensures
        names_view(r@) == group_table().map_values(|g: Group| g.key@),
{
    let all = crate::schema::groups();
    let mut out: Vec<&'static str> = Vec::new();
    let mut i: usize = 0;
    while i < all.len()
        invariant
            all@ == group_table(),
            i <= all@.len(),
            out@.len() == i,
            forall|j: int| 0 <= j < i ==> out@[j]@ == all@[j].key@,
        decreases all@.len() - i,
    {
        out.push(all[i].key);
        i = i + 1;
    }
    assert(names_view(out@) =~= group_table().map_values(|g: Group| g.key@));
    out
}

/// A value as it came off the wire, one variant per D-Bus type the interface reads.
#[derive(Debug)]
pub enum Wire {
    /// A variant inside the variant, which several bindings send for `a{sv}`.
    Wrapped(Box<Wire>),
    Bool(bool),
    U8(u8),
    I16(i16),
    U16(u16),
    I32(i32),
    U32(u32),
    I64(i64),
    U64(u64),
    F64(Double),
    Str(String),
    Array(Vec<Wire>),
    /// Any other type: not a value this interface carries.
    Other,
}

/// The value a wire value is read as, accepting every integer width a client might send and
/// unwrapping a variant inside a variant. A `u64` too large for the file is refused rather than
/// wrapped, and a list is read only when every element reads as a string: quietly
/// stringifying anything else would write something nobody asked for.
pub open spec fn spec_from_wire(wire: Wire) -> Option<ValueView>
    decreases wire, 0int,
{
    match wire {
        Wire::Wrapped(inner) => spec_from_wire(*inner),
        Wire::Bool(v) => Some(ValueView::Bool(v)),
        Wire::U8(v) => Some(ValueView::Int(v as i64)),
        Wire::I16(v) => Some(ValueView::Int(v as i64)),
        Wire::U16(v) => Some(ValueView::Int(v as i64)),
        Wire::I32(v) => Some(ValueView::Int(v as i64)),
        Wire::U32(v) => Some(ValueView::Int(v as i64)),
        Wire::I64(v) => Some(ValueView::Int(v)),
        Wire::U64(v) => if v <= i64::MAX {
            Some(ValueView::Int(v as i64))
        } else {
            None
        },
        Wire::F64(d) => Some(ValueView::Float(d.spec_bits())),
        Wire::Str(s) => Some(ValueView::Str(s@)),
        Wire::Array(items) => match spec_wire_strings(items@, items@.len() as int) {
            Some(list) => Some(ValueView::StrList(list)),
            None => None,
        },
        Wire::Other => None,
    }
}

/// The strings the first `n` elements of a wire list read as, if every one of them reads as a
/// string.
pub open spec fn spec_wire_strings(items: Seq<Wire>, n: int) -> Option<Seq<Seq<char>>>
    decreases items, n,
{
    if n <= 0 || n > items.len() {
        if n <= 0 {
            Some(Seq::empty())
        } else {
            None
        }
    } else {
        match spec_wire_strings(items, n - 1) {
            None => None,
            Some(done) => match spec_from_wire(items[n - 1]) {
                Some(ValueView::Str(s)) => Some(done.push(s)),
                _ => None,
            },
        }
    }
}

/// Whether `wire` is the form a value is sent in: a boolean, an `i64`, a double with the same
/// bits, a string, or an array of strings.
pub open spec fn carries(wire: Wire, value: ValueView) -> bool {
    match (wire, value) {
        (Wire::Bool(w), ValueView::Bool(v)) => w == v,
        (Wire::I64(w), ValueView::Int(v)) => w == v,
        (Wire::F64(d), ValueView::Float(bits)) => d.spec_bits() == bits,
        (Wire::Str(w), ValueView::Str(v)) => w@ == v,
        (Wire::Array(items), ValueView::StrList(v)) => items@.len() == v.len() && forall|k: int|
            0 <= k < v.len() ==> (#[trigger] items@[k] matches Wire::Str(w) && w@ == v[k]),
        _ => false,
    }
}

/// A list of strings sent as an array of strings reads back as itself, as far as `n`.
proof fn lemma_strings_read_back(items: Seq<Wire>, strings: Seq<Seq<char>>, n: int)
    requires
        0 <= n <= items.len(),
        items.len() == strings.len(),
        forall|k: int|
            0 <= k < strings.len() ==> (#[trigger] items[k] matches Wire::Str(w) && w@ == strings[k]),
    ensures
        spec_wire_strings(items, n) == Some(strings.subrange(0, n)),
    decreases n,
{
    if n > 0 {
        lemma_strings_read_back(items, strings, n - 1);
        assert(items[n - 1] matches Wire::Str(w) && w@ == strings[n - 1]);
        if let Wire::Str(w) = items[n - 1] {
            assert(spec_from_wire(Wire::Str(w)) == Some(ValueView::Str(w@)));
        }
        assert(spec_from_wire(items[n - 1]) == Some(ValueView::Str(strings[n - 1])));
        assert(strings.subrange(0, n - 1).push(strings[n - 1]) =~= strings.subrange(0, n));
    } else {
        assert(strings.subrange(0, 0) =~= Seq::<Seq<char>>::empty());
    }
}

/// A value sent in its wire form reads back as itself.
pub proof fn law_a_value_round_trips_through_the_wire(wire: Wire, value: ValueView)
    requires
        carries(wire, value),
    ensures
        spec_from_wire(wire) == Some(value),
{
    if let (Wire::Array(items), ValueView::StrList(strings)) = (wire, value) {
        lemma_strings_read_back(items@, strings, strings.len() as int);
        assert(strings.subrange(0, strings.len() as int) =~= strings);
    }
}

/// Read a value off the wire.
pub fn from_wire(wire: &Wire) -> (r: Option<Value>)
    ensures
        edit::option_view(r) == spec_from_wire(*wire),
    decreases *wire,
{
    match wire {
        Wire::Wrapped(inner) => from_wire(inner),
        Wire::Bool(v) => Some(Value::Bool(*v)),
        Wire::U8(v) => Some(Value::Int(*v as i64)),
        Wire::I16(v) => Some(Value::Int(*v as i64)),
        Wire::U16(v) => Some(Value::Int(*v as i64)),
        Wire::I32(v) => Some(Value::Int(*v as i64)),
        Wire::U32(v) => Some(Value::Int(*v as i64)),
        Wire::I64(v) => Some(Value::Int(*v)),
        Wire::U64(v) => if *v <= 0x7FFF_FFFF_FFFF_FFFFu64 {
            Some(Value::Int(*v as i64))
        } else {
            None
        },
        Wire::F64(d) => Some(Value::Float(d.clone())),
        Wire::Str(s) => Some(Value::Str(owned(s.as_str()))),
        Wire::Array(items) => {
            let mut out: Vec<String> = Vec::new();
            let mut i: usize = 0;
            while i < items.len()
                invariant
                    *wire == Wire::Array(*items),
                    i <= items@.len(),
                    out@.len() == i,
                    spec_wire_strings(items@, i as int) == Some(edit::strings_view(out@)),
                decreases items@.len() - i,
            {
                proof {
                    assert(decreases_to!(*wire => *items));
                    assert(decreases_to!(*items => items@));
                    assert(decreases_to!(items@ => items@[i as int]));
                }
                match from_wire(&items[i]) {
                    Some(Value::Str(s)) => {
                        let ghost before = edit::strings_view(out@);
                        let ghost text = s@;
                        out.push(s);
                        proof {
                            assert(edit::strings_view(out@) =~= before.push(text));
                        }
                    },
                    _ => {
                        proof {
                            lemma_wire_strings_settled(items@, i as int + 1);
                        }
                        return None;
                    },
                }
                i = i + 1;
            }
            Some(Value::StrList(out))
        },
        Wire::Other => None,
    }
}

/// Once a prefix of a wire list fails to read as strings, the whole list does.
proof fn lemma_wire_strings_settled(items: Seq<Wire>, n: int)
    requires
        0 < n <= items.len(),
        spec_wire_strings(items, n) is None,
    ensures
        spec_wire_strings(items, items.len() as int) is None,
    decreases items.len() - n,
{
    if n < items.len() {
        lemma_wire_strings_settled(items, n + 1);
    }
}

} // verus!
