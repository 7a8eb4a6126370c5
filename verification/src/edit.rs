//! Reading and writing the config files without spoiling them.
//!
//! Every file the daemon writes is one the user also edits by hand, so a write has to come
//! back looking like the file they wrote, with one value different and nothing else touched --
//! not their comments, not their key order, not the blank line between two sections.
//!
//! `toml_edit` does the parsing and the formatting: it parses to a document that remembers its
//! own layout and lets one key be replaced in place. What this module decides is *which* edit
//! a request amounts to -- where a value goes, what is refused because a table is in the way,
//! what a removal leaves behind -- and that is stated here over a model of the document: the
//! top-level keys, each a value, a table, an inline table, or something else, and for the
//! table-likes their own keys.
//!
//! A first write is not just a write. wlRIX reads the first config file it finds and does not
//! merge, so a user file created to hold one key would shadow everything the administrator put
//! in the system directory. [`write_source`] says which file an edit starts from.
use vstd::prelude::*;

use crate::paths::{
    path_file_name, path_is_file, path_parent, std_path_file_name, std_path_parent, File, Roots,
};
use crate::text::{join, owned, spec_join, spec_trim, str_eq, trim};

verus! {

#[verifier::external_type_specification]
#[verifier::external_body]
pub struct ExDocumentMut(toml_edit::DocumentMut);

#[verifier::external_type_specification]
#[verifier::external_body]
pub struct ExTomlItem(toml_edit::Item);

#[verifier::external_type_specification]
#[verifier::external_body]
pub struct ExDecor(toml_edit::Decor);

// ---------------------------------------------------------------------------------------------
// The model of a document
// ---------------------------------------------------------------------------------------------

/// What one TOML value holds, as far as the daemon reads it.
///
/// A float is its IEEE-754 bits. An array is its elements, each a string or not. An inline
/// table and a date are [`Shape::Other`]: no setting has either shape.
pub enum Shape {
    Bool(bool),
    Int(i64),
    Float(u64),
    Str(Seq<char>),
    Array(Seq<Option<Seq<char>>>),
    Other,
}

/// What a key inside a table holds: a value, or something that is not one (a nested table, an
/// array of tables).
pub enum Leaf {
    Value(Shape),
    NotValue,
}

/// What a top-level key holds.
pub enum Entry {
    /// A value that is not an inline table.
    Value(Shape),
    /// `name = { ... }`: a value, and a table of its own keys.
    Inline(Map<Seq<char>, Leaf>),
    /// `[name]`, or the table a dotted key `name.x = ...` makes.
    Table(Map<Seq<char>, Leaf>),
    /// An array of tables.
    Other,
}

/// The top-level keys of a document and what each holds.
pub uninterp spec fn toml_top(doc: toml_edit::DocumentMut) -> Map<Seq<char>, Entry>;

/// How a document is laid out, beyond what its keys hold: the order its keys are written in,
/// and each value's decor -- the spacing around it and a trailing comment.
pub struct Layout {
    /// The top-level keys, in the order the document's table keeps them -- the order
    /// `toml_edit` iterates and writes its values in. Each key is there once.
    pub order: Seq<Seq<char>>,
    /// The decor of each top-level value.
    pub decor: Map<Seq<char>, toml_edit::Decor>,
    /// For each table-like top-level key: its own keys in the order its table keeps them, and
    /// the decor of each of its values.
    pub children: Map<Seq<char>, (Seq<Seq<char>>, Map<Seq<char>, toml_edit::Decor>)>,
}

/// The layout of a document.
pub uninterp spec fn toml_layout(doc: toml_edit::DocumentMut) -> Layout;

/// A table's key order after inserting `key`: a key already in the table keeps its place, and
/// a new one goes at the end.
pub open spec fn order_after_insert(order: Seq<Seq<char>>, key: Seq<char>) -> Seq<Seq<char>> {
    if order.contains(key) {
        order
    } else {
        order.push(key)
    }
}

/// A table's key order after removing `key`: every other key where it was.
pub open spec fn without_key(order: Seq<Seq<char>>, key: Seq<char>) -> Seq<Seq<char>> {
    order.filter(|k: Seq<char>| k != key)
}

/// The text a document renders to.
pub uninterp spec fn toml_text(doc: toml_edit::DocumentMut) -> Seq<char>;

/// What parsing a text gives: its top-level keys, or the parser's message.
pub uninterp spec fn toml_parsed(text: Seq<char>) -> Result<Map<Seq<char>, Entry>, Seq<char>>;

/// What the value in a TOML item holds; [`Shape::Other`] for an item that is not a value.
pub uninterp spec fn toml_item_shape(item: toml_edit::Item) -> Shape;

/// The IEEE-754 bits of the double nearest to an integer.
pub uninterp spec fn int_as_double(value: i64) -> u64;

/// How a double is written out in text.
pub uninterp spec fn double_display(bits: u64) -> Seq<char>;

/// The double a decimal text reads as, if it reads as one.
pub uninterp spec fn parse_double(text: Seq<char>) -> Option<u64>;

/// A document with no keys.
pub open spec fn no_entries() -> Map<Seq<char>, Entry> {
    Map::empty()
}

/// The entry a key names in a map, if there is one.
pub open spec fn entry_at<V>(m: Map<Seq<char>, V>, key: Seq<char>) -> Option<V> {
    if m.dom().contains(key) {
        Some(m[key])
    } else {
        None
    }
}

/// The keys of a table-like entry.
pub open spec fn table_keys(entry: Entry) -> Option<Map<Seq<char>, Leaf>> {
    match entry {
        Entry::Inline(m) => Some(m),
        Entry::Table(m) => Some(m),
        _ => None,
    }
}

/// A table-like entry of the same kind, holding other keys.
pub open spec fn with_keys(entry: Entry, keys: Map<Seq<char>, Leaf>) -> Entry {
    match entry {
        Entry::Inline(_) => Entry::Inline(keys),
        _ => Entry::Table(keys),
    }
}

// ---------------------------------------------------------------------------------------------
// Doubles
// ---------------------------------------------------------------------------------------------

/// A decimal number, as TOML and the bus carry it.
///
/// Kept as the TOML item it was read as or made into, together with its IEEE-754 bits, which
/// are what the daemon compares and what the contracts speak of.
#[derive(Debug)]
pub struct Double {
    bits: u64,
    raw: toml_edit::Item,
}

impl Double {
    #[verifier::type_invariant]
    spec fn holds_its_bits(self) -> bool {
        toml_item_shape(self.raw) == Shape::Float(self.bits)
    }

    pub closed spec fn spec_bits(self) -> u64 {
        self.bits
    }

    /// Its IEEE-754 bits.
    pub fn bits(&self) -> (r: u64)
        ensures
            r == self.spec_bits(),
    {
        self.bits
    }

    /// The double a TOML item holds, if it holds one.
    pub fn from_toml(value: toml_edit::Item) -> (r: Option<Double>)
        ensures
            match toml_item_shape(value) {
                Shape::Float(bits) => r matches Some(d) && d.spec_bits() == bits,
                _ => r is None,
            },
    {
        match read_toml_value(&value) {
            Scalar::Float(bits, raw) => Some(Double { bits, raw }),
            _ => None,
        }
    }

    /// The double nearest to a whole number.
    pub fn from_int(value: i64) -> (r: Double)
        ensures
            r.spec_bits() == int_as_double(value),
            value == 0 ==> r.spec_bits() == 0,
    {
        let raw = toml_float_of_int(value);
        let bits = match read_toml_value(&raw) {
            Scalar::Float(bits, _) => bits,
            _ => {
                proof {
                    assert(false);
                }
                0
            },
        };
        Double { bits, raw }
    }

    /// The double a decimal text reads as, if it is one: `0.25`, `-3`, `1e-2`, `inf`.
    pub fn from_decimal(text: &str) -> (r: Option<Double>)
        ensures
            match r {
                Some(d) => parse_double(text@) == Some(d.spec_bits()),
                None => parse_double(text@) is None,
            },
    {
        match toml_float_of_text(text) {
            Some(raw) => match read_toml_value(&raw) {
                Scalar::Float(bits, _) => Some(Double { bits, raw }),
                _ => {
                    proof {
                        assert(false);
                    }
                    None
                },
            },
            None => None,
        }
    }

    /// How the number is written out, as Rust prints a double.
    pub fn text(&self) -> (r: String)
        ensures
            r@ == double_display(self.spec_bits()),
    {
        proof {
            use_type_invariant(self);
        }
        double_text(self)
    }
}

impl Clone for Double {
    fn clone(&self) -> (r: Self)
        ensures
            r.spec_bits() == self.spec_bits(),
    {
        proof {
            use_type_invariant(self);
        }
        Double { bits: self.bits, raw: item_copy(&self.raw) }
    }
}

/// The sign bit of a double.
pub open spec fn sign_of(bits: u64) -> bool {
    bits >> 63u64 == 1u64
}

/// A double's bits without the sign.
pub open spec fn magnitude_of(bits: u64) -> u64 {
    bits & 0x7FFF_FFFF_FFFF_FFFFu64
}

/// Whether a double is a number: neither infinite nor NaN.
pub open spec fn is_finite(bits: u64) -> bool {
    bits & 0x7FF0_0000_0000_0000u64 != 0x7FF0_0000_0000_0000u64
}

/// Whether a double is NaN.
pub open spec fn is_nan(bits: u64) -> bool {
    bits & 0x7FF0_0000_0000_0000u64 == 0x7FF0_0000_0000_0000u64 && bits
        & 0x000F_FFFF_FFFF_FFFFu64 != 0u64
}

/// Where a double that is not NaN stands on the number line: IEEE-754 orders two such doubles
/// as it orders these integers. Both zeros stand at 0.
pub open spec fn order_key(bits: u64) -> int {
    if sign_of(bits) {
        -(magnitude_of(bits) as int)
    } else {
        magnitude_of(bits) as int
    }
}

/// IEEE-754 equality: NaN equals nothing, and the two zeros are equal.
pub open spec fn double_eq(a: u64, b: u64) -> bool {
    !is_nan(a) && !is_nan(b) && order_key(a) == order_key(b)
}

/// [`order_key`], computed.
fn order_key_of(bits: u64) -> (r: i128)
    ensures
        r == order_key(bits),
{
    let magnitude: u64 = bits & 0x7FFF_FFFF_FFFF_FFFFu64;
    if bits >> 63u64 == 1u64 {
        -(magnitude as i128)
    } else {
        magnitude as i128
    }
}

/// Whether a double is NaN, computed.
fn nan(bits: u64) -> (r: bool)
    ensures
        r == is_nan(bits),
{
    bits & 0x7FF0_0000_0000_0000u64 == 0x7FF0_0000_0000_0000u64 && bits
        & 0x000F_FFFF_FFFF_FFFFu64 != 0u64
}

/// Whether a double is a number, computed.
pub fn finite(bits: u64) -> (r: bool)
    ensures
        r == is_finite(bits),
{
    bits & 0x7FF0_0000_0000_0000u64 != 0x7FF0_0000_0000_0000u64
}

/// Whether `a < b` as doubles.
pub fn double_less(a: u64, b: u64) -> (r: bool)
    ensures
        r == (!is_nan(a) && !is_nan(b) && order_key(a) < order_key(b)),
{
    !nan(a) && !nan(b) && order_key_of(a) < order_key_of(b)
}

/// Whether `a == b` as doubles.
pub fn double_equal(a: u64, b: u64) -> (r: bool)
    ensures
        r == double_eq(a, b),
{
    !nan(a) && !nan(b) && order_key_of(a) == order_key_of(b)
}

// ---------------------------------------------------------------------------------------------
// Values
// ---------------------------------------------------------------------------------------------

/// A value the daemon can read out of, or write into, a config file.
///
/// Deliberately smaller than TOML: these are the shapes a setting can have, and anything else
/// in a user's file is something the daemon has no opinion about and leaves alone.
#[derive(Debug)]
pub enum Value {
    Bool(bool),
    Int(i64),
    Float(Double),
    Str(String),
    StrList(Vec<String>),
}

/// A [`Value`] as the contracts see it.
pub enum ValueView {
    Bool(bool),
    Int(i64),
    Float(u64),
    Str(Seq<char>),
    StrList(Seq<Seq<char>>),
}

/// The strings of a list, as sequences of characters.
pub open spec fn strings_view(items: Seq<String>) -> Seq<Seq<char>> {
    items.map_values(|s: String| s@)
}

impl View for Value {
    type V = ValueView;

    open spec fn view(&self) -> ValueView {
        match self {
            Value::Bool(v) => ValueView::Bool(*v),
            Value::Int(v) => ValueView::Int(*v),
            Value::Float(d) => ValueView::Float(d.spec_bits()),
            Value::Str(s) => ValueView::Str(s@),
            Value::StrList(items) => ValueView::StrList(strings_view(items@)),
        }
    }
}

/// Two values the same, with doubles compared as IEEE-754 compares them.
pub open spec fn value_eq(a: ValueView, b: ValueView) -> bool {
    match (a, b) {
        (ValueView::Bool(x), ValueView::Bool(y)) => x == y,
        (ValueView::Int(x), ValueView::Int(y)) => x == y,
        (ValueView::Float(x), ValueView::Float(y)) => double_eq(x, y),
        (ValueView::Str(x), ValueView::Str(y)) => x == y,
        (ValueView::StrList(x), ValueView::StrList(y)) => x == y,
        _ => false,
    }
}

/// The name of a value's shape, for an error message that says what was offered.
pub open spec fn spec_value_kind_name(v: ValueView) -> Seq<char> {
    match v {
        ValueView::Bool(_) => "bool"@,
        ValueView::Int(_) => "int"@,
        ValueView::Float(_) => "double"@,
        ValueView::Str(_) => "string"@,
        ValueView::StrList(_) => "string-list"@,
    }
}

/// Whether two lists of strings hold the same strings in the same order.
fn same_strings(a: &Vec<String>, b: &Vec<String>) -> (r: bool)
    ensures
        r == (strings_view(a@) == strings_view(b@)),
{
    if a.len() != b.len() {
        proof {
            assert(strings_view(a@).len() != strings_view(b@).len());
        }
        return false;
    }
    let mut i: usize = 0;
    while i < a.len()
        invariant
            a.len() == b.len(),
            i <= a.len(),
            forall|j: int| 0 <= j < i ==> a@[j]@ == b@[j]@,
        decreases a.len() - i,
    {
        if !str_eq(a[i].as_str(), b[i].as_str()) {
            proof {
                assert(strings_view(a@)[i as int] != strings_view(b@)[i as int]);
            }
            return false;
        }
        i = i + 1;
    }
    proof {
        assert(strings_view(a@) =~= strings_view(b@));
    }
    true
}

impl Value {
    /// The name of the shape, for an error message that says what was offered.
    pub fn kind_name(&self) -> (r: &'static str)
        ensures
            r@ == spec_value_kind_name(self@),
    {
        match self {
            Value::Bool(_) => "bool",
            Value::Int(_) => "int",
            Value::Float(_) => "double",
            Value::Str(_) => "string",
            Value::StrList(_) => "string-list",
        }
    }

    /// Whether two values are the same, doubles compared as numbers.
    pub fn same_as(&self, other: &Value) -> (r: bool)
        ensures
            r == value_eq(self@, other@),
    {
        match (self, other) {
            (Value::Bool(x), Value::Bool(y)) => *x == *y,
            (Value::Int(x), Value::Int(y)) => *x == *y,
            (Value::Float(x), Value::Float(y)) => double_equal(x.bits(), y.bits()),
            (Value::Str(x), Value::Str(y)) => str_eq(x.as_str(), y.as_str()),
            (Value::StrList(x), Value::StrList(y)) => same_strings(x, y),
            _ => false,
        }
    }
}

/// A copy of a list of strings.
pub fn copy_strings(items: &Vec<String>) -> (r: Vec<String>)
    ensures
        strings_view(r@) == strings_view(items@),
{
    let mut out: Vec<String> = Vec::new();
    let mut i: usize = 0;
    while i < items.len()
        invariant
            i <= items.len(),
            out@.len() == i,
            forall|j: int| 0 <= j < i ==> out@[j]@ == items@[j]@,
        decreases items.len() - i,
    {
        out.push(owned(items[i].as_str()));
        i = i + 1;
    }
    proof {
        assert(strings_view(out@) =~= strings_view(items@));
    }
    out
}

impl Clone for Value {
    fn clone(&self) -> (r: Self)
        ensures
            r@ == self@,
    {
        match self {
            Value::Bool(v) => Value::Bool(*v),
            Value::Int(v) => Value::Int(*v),
            Value::Float(d) => Value::Float(d.clone()),
            Value::Str(s) => Value::Str(owned(s.as_str())),
            Value::StrList(items) => Value::StrList(copy_strings(items)),
        }
    }
}

impl PartialEq for Value {
    fn eq(&self, other: &Value) -> (r: bool) {
        self.same_as(other)
    }
}

impl vstd::std_specs::cmp::PartialEqSpecImpl for Value {
    open spec fn obeys_eq_spec() -> bool {
        true
    }

    open spec fn eq_spec(&self, other: &Value) -> bool {
        value_eq(self@, other@)
    }
}

/// What a TOML value holds, moved into values of this library.
pub enum Scalar {
    Bool(bool),
    Int(i64),
    /// The bits, and a copy of the TOML value they came from.
    Float(u64, toml_edit::Item),
    Str(String),
    /// Each element's string, where it is one.
    Array(Vec<Option<String>>),
    Other,
}

/// The elements of an array as the model sees them.
pub open spec fn elements_view(items: Seq<Option<String>>) -> Seq<Option<Seq<char>>> {
    items.map_values(
        |item: Option<String>|
            match item {
                Some(s) => Some(s@),
                None => None,
            },
    )
}

/// The shape a [`Scalar`] carries.
pub open spec fn scalar_shape(s: Scalar) -> Shape {
    match s {
        Scalar::Bool(v) => Shape::Bool(v),
        Scalar::Int(v) => Shape::Int(v),
        Scalar::Float(bits, _) => Shape::Float(bits),
        Scalar::Str(v) => Shape::Str(v@),
        Scalar::Array(items) => Shape::Array(elements_view(items@)),
        Scalar::Other => Shape::Other,
    }
}

/// The shape a value is written as.
pub open spec fn shape_of(v: ValueView) -> Shape {
    match v {
        ValueView::Bool(b) => Shape::Bool(b),
        ValueView::Int(i) => Shape::Int(i),
        ValueView::Float(bits) => Shape::Float(bits),
        ValueView::Str(s) => Shape::Str(s),
        ValueView::StrList(items) => Shape::Array(items.map_values(|s: Seq<char>| Some(s))),
    }
}

/// The value a shape is read as, if it is one a setting can have.
///
/// An array is read as a list of strings only when every element is a string: a mixed array
/// is not a setting, and dropping the elements that are not strings would be worse than saying
/// so.
pub open spec fn value_of_shape(shape: Shape) -> Option<ValueView> {
    match shape {
        Shape::Bool(b) => Some(ValueView::Bool(b)),
        Shape::Int(i) => Some(ValueView::Int(i)),
        Shape::Float(bits) => Some(ValueView::Float(bits)),
        Shape::Str(s) => Some(ValueView::Str(s)),
        Shape::Array(items) => if forall|i: int| 0 <= i < items.len() ==> #[trigger] items[i] is Some {
            Some(ValueView::StrList(items.map_values(|item: Option<Seq<char>>| item->0)))
        } else {
            None
        },
        Shape::Other => None,
    }
}

/// A value written out reads back as itself.
pub proof fn lemma_value_of_shape_of(v: ValueView)
    ensures
        value_of_shape(shape_of(v)) == Some(v),
{
    if let ValueView::StrList(items) = v {
        let shape = items.map_values(|s: Seq<char>| Some(s));
        assert(forall|i: int| 0 <= i < shape.len() ==> #[trigger] shape[i] is Some);
        assert(shape.map_values(|item: Option<Seq<char>>| item->0) =~= items);
    }
}

// ---------------------------------------------------------------------------------------------
// The calls into toml_edit
// ---------------------------------------------------------------------------------------------

/// The variants and payloads of the value in an item (`Item::as_value`), moved into a
/// [`Scalar`]: booleans, integers, floats (by `to_bits`), strings, and arrays element by
/// element (`as_str`). Inline tables, dates and items that are not values are `Other`.
#[verifier::external_body]
fn read_toml_value(value: &toml_edit::Item) -> (r: Scalar)
    ensures
        scalar_shape(r) == toml_item_shape(*value),
        r matches Scalar::Float(bits, copy) ==> toml_item_shape(copy) == Shape::Float(bits),
{
    match value.as_value() {
        Some(toml_edit::Value::Boolean(v)) => Scalar::Bool(*v.value()),
        Some(toml_edit::Value::Integer(v)) => Scalar::Int(*v.value()),
        Some(toml_edit::Value::Float(v)) => Scalar::Float(v.value().to_bits(), value.clone()),
        Some(toml_edit::Value::String(v)) => Scalar::Str(v.value().clone()),
        Some(toml_edit::Value::Array(array)) => Scalar::Array(
            array.iter().map(|element| element.as_str().map(String::from)).collect(),
        ),
        _ => Scalar::Other,
    }
}

/// The TOML item a [`Value`] is written as: `toml_edit::value` on a bool, an integer or a
/// string, the double's own item, and for a list an array collected from its strings.
#[verifier::external_body]
fn toml_value_of(value: &Value) -> (r: toml_edit::Item)
    ensures
        toml_item_shape(r) == shape_of(value@),
{
    match value {
        Value::Bool(v) => toml_edit::value(*v),
        Value::Int(v) => toml_edit::value(*v),
        Value::Float(v) => v.raw.clone(),
        Value::Str(v) => toml_edit::value(v.clone()),
        Value::StrList(items) => toml_edit::value(items.iter().cloned().collect::<toml_edit::Array>()),
    }
}

/// A TOML float item made from an integer with Rust's `as` conversion, which rounds to the nearest
/// double. Zero becomes positive zero.
#[verifier::external_body]
fn toml_float_of_int(value: i64) -> (r: toml_edit::Item)
    ensures
        toml_item_shape(r) == Shape::Float(int_as_double(value)),
        value == 0 ==> toml_item_shape(r) == Shape::Float(0),
{
    toml_edit::Item::Value(toml_edit::Value::Float(toml_edit::Formatted::new(value as _)))
}

/// A TOML float item holding what `str::parse` reads a decimal text as, if it reads it.
#[verifier::external_body]
fn toml_float_of_text(text: &str) -> (r: Option<toml_edit::Item>)
    ensures
        match r {
            Some(item) => parse_double(text@) matches Some(bits) && toml_item_shape(item)
                == Shape::Float(bits),
            None => parse_double(text@) is None,
        },
{
    match text.parse() {
        Ok(v) => Some(toml_edit::Item::Value(toml_edit::Value::Float(toml_edit::Formatted::new(v)))),
        Err(_) => None,
    }
}

/// A double printed with `ToString`, as Rust's `Display` writes an `f64`.
#[verifier::external_body]
fn double_text(value: &Double) -> (r: String)
    requires
        toml_item_shape(value.raw) == Shape::Float(value.bits),
    ensures
        r@ == double_display(value.bits),
{
    match value.raw.as_float() {
        Some(v) => v.to_string(),
        None => String::new(),
    }
}

/// `Item::clone`: a copy holds what the original holds.
#[verifier::external_body]
fn item_copy(item: &toml_edit::Item) -> (r: toml_edit::Item)
    ensures
        toml_item_shape(r) == toml_item_shape(*item),
{
    item.clone()
}

/// `DocumentMut::new`: a document with nothing in it.
#[verifier::external_body]
fn toml_new() -> (r: toml_edit::DocumentMut)
    ensures
        toml_top(r) == no_entries(),
{
    toml_edit::DocumentMut::new()
}

/// `str::parse::<DocumentMut>`, with the parser's error as its `Display` text.
#[verifier::external_body]
fn toml_parse(text: &str) -> (r: Result<toml_edit::DocumentMut, String>)
    ensures
        match r {
            Ok(doc) => toml_parsed(text@) matches Ok(top) && top == toml_top(doc),
            Err(message) => toml_parsed(text@) matches Err(m) && m == message@,
        },
{
    match text.parse::<toml_edit::DocumentMut>() {
        Ok(doc) => Ok(doc),
        Err(err) => Err(err.to_string()),
    }
}

/// `DocumentMut`'s `Display`: the document as text.
#[verifier::external_body]
fn toml_render(doc: &toml_edit::DocumentMut) -> (r: String)
    ensures
        r@ == toml_text(*doc),
{
    doc.to_string()
}

/// What a top-level key holds, told apart by variant.
pub enum TopProbe {
    Absent,
    /// A value that is not an inline table, copied.
    Value(toml_edit::Item),
    Inline,
    Table,
    Other,
}

/// What a key inside a table-like holds.
pub enum ChildProbe {
    Absent,
    /// A value, copied.
    Value(toml_edit::Item),
    NotValue,
}

/// Whether a probe says what an entry is.
pub open spec fn top_probe_says(probe: TopProbe, entry: Option<Entry>) -> bool {
    match entry {
        None => probe is Absent,
        Some(Entry::Value(shape)) => probe matches TopProbe::Value(v) && toml_item_shape(v)
            == shape,
        Some(Entry::Inline(_)) => probe is Inline,
        Some(Entry::Table(_)) => probe is Table,
        Some(Entry::Other) => probe is Other,
    }
}

/// Whether a probe says what a leaf is.
pub open spec fn child_probe_says(probe: ChildProbe, leaf: Option<Leaf>) -> bool {
    match leaf {
        None => probe is Absent,
        Some(Leaf::Value(shape)) => probe matches ChildProbe::Value(v) && toml_item_shape(v)
            == shape,
        Some(Leaf::NotValue) => probe is NotValue,
    }
}

/// `Table::get` on the document, and which `Item` variant it found.
#[verifier::external_body]
fn probe_top(doc: &toml_edit::DocumentMut, key: &str) -> (r: TopProbe)
    ensures
        top_probe_says(r, entry_at(toml_top(*doc), key@)),
{
    match doc.get(key) {
        None => TopProbe::Absent,
        Some(toml_edit::Item::Value(toml_edit::Value::InlineTable(_))) => TopProbe::Inline,
        Some(item @ toml_edit::Item::Value(_)) => TopProbe::Value(item.clone()),
        Some(toml_edit::Item::Table(_)) => TopProbe::Table,
        Some(_) => TopProbe::Other,
    }
}

/// `Item::as_table_like` on a top-level key, then `TableLike::get`, and which variant it found.
#[verifier::external_body]
fn probe_child(doc: &toml_edit::DocumentMut, table: &str, key: &str) -> (r: ChildProbe)
    requires
        entry_at(toml_top(*doc), table@) matches Some(e) && table_keys(e) is Some,
    ensures
        child_probe_says(
            r,
            entry_at(table_keys(toml_top(*doc)[table@])->0, key@),
        ),
{
    match doc.get(table).and_then(toml_edit::Item::as_table_like).and_then(|t| t.get(key)) {
        None => ChildProbe::Absent,
        Some(item @ toml_edit::Item::Value(_)) => ChildProbe::Value(item.clone()),
        Some(_) => ChildProbe::NotValue,
    }
}

/// `Table::insert` of a value at a top-level key that holds nothing: the key goes at the end
/// of the table's order, unless the table already keeps a place for it.
#[verifier::external_body]
fn insert_top(doc: &mut toml_edit::DocumentMut, key: &str, value: toml_edit::Item)
    requires
        toml_item_shape(value) != Shape::Other,
        !toml_top(*old(doc)).dom().contains(key@),
    ensures
        toml_top(*final(doc)) == toml_top(*old(doc)).insert(
            key@,
            Entry::Value(toml_item_shape(value)),
        ),
        toml_layout(*final(doc)).order == order_after_insert(toml_layout(*old(doc)).order, key@),
        toml_layout(*final(doc)).decor.remove(key@) == toml_layout(*old(doc)).decor.remove(key@),
        toml_layout(*final(doc)).children == toml_layout(*old(doc)).children,
{
    doc.as_table_mut().insert(key, value);
}

/// `Item::as_value` on a top-level key, then `Value::decor`: the decor of the value there.
#[verifier::external_body]
fn top_decor(doc: &toml_edit::DocumentMut, key: &str) -> (r: toml_edit::Decor)
    requires
        entry_at(toml_top(*doc), key@) matches Some(e) && (e is Value || e is Inline),
    ensures
        r == toml_layout(*doc).decor[key@],
{
    match doc.get(key).and_then(toml_edit::Item::as_value) {
        Some(value) => value.decor().clone(),
        None => toml_edit::Decor::default(),
    }
}

/// A top-level value replaced in its slot by another, given the decor to write it with:
/// `Table::get_mut`, `Value::decor_mut`, and assignment into the slot, so the key keeps its
/// place and its own decor.
#[verifier::external_body]
fn replace_top(
    doc: &mut toml_edit::DocumentMut,
    key: &str,
    value: toml_edit::Item,
    decor: toml_edit::Decor,
)
    requires
        toml_item_shape(value) != Shape::Other,
        entry_at(toml_top(*old(doc)), key@) matches Some(e) && (e is Value || e is Inline),
    ensures
        toml_top(*final(doc)) == toml_top(*old(doc)).insert(
            key@,
            Entry::Value(toml_item_shape(value)),
        ),
        toml_layout(*final(doc)).order == toml_layout(*old(doc)).order,
        toml_layout(*final(doc)).decor == toml_layout(*old(doc)).decor.insert(key@, decor),
        toml_layout(*final(doc)).children == toml_layout(*old(doc)).children.remove(key@),
{
    let (Some(slot), toml_edit::Item::Value(mut new)) = (doc.get_mut(key), value) else { return };
    *new.decor_mut() = decor;
    *slot = toml_edit::Item::Value(new);
}

/// A new `[name]` section: `Table::new`, `Table::set_implicit(false)` so the header is
/// written, and `Table::insert` into the document, which puts it at the end of the table's
/// order unless the table already keeps a place for it.
#[verifier::external_body]
fn insert_section(doc: &mut toml_edit::DocumentMut, name: &str)
    requires
        !toml_top(*old(doc)).dom().contains(name@),
    ensures
        toml_top(*final(doc)) == toml_top(*old(doc)).insert(
            name@,
            Entry::Table(Map::<Seq<char>, Leaf>::empty()),
        ),
        toml_layout(*final(doc)).order == order_after_insert(toml_layout(*old(doc)).order, name@),
        toml_layout(*final(doc)).decor == toml_layout(*old(doc)).decor,
        toml_layout(*final(doc)).children == toml_layout(*old(doc)).children.insert(
            name@,
            (Seq::<Seq<char>>::empty(), Map::<Seq<char>, toml_edit::Decor>::empty()),
        ),
{
    let mut table = toml_edit::Table::new();
    table.set_implicit(false);
    doc.as_table_mut().insert(name, toml_edit::Item::Table(table));
}

/// `TableLike::insert` of a value at a key that holds nothing, inside a table-like top-level
/// key: the key goes at the end of that table's order, unless it already keeps a place for it.
#[verifier::external_body]
fn insert_child(doc: &mut toml_edit::DocumentMut, table: &str, key: &str, value: toml_edit::Item)
    requires
        toml_item_shape(value) != Shape::Other,
        entry_at(toml_top(*old(doc)), table@) matches Some(e) && table_keys(e) matches Some(m)
            && !m.dom().contains(key@),
    ensures
        toml_top(*final(doc)) == toml_top(*old(doc)).insert(
            table@,
            with_keys(
                toml_top(*old(doc))[table@],
                table_keys(toml_top(*old(doc))[table@])->0.insert(
                    key@,
                    Leaf::Value(toml_item_shape(value)),
                ),
            ),
        ),
        toml_layout(*final(doc)).order == toml_layout(*old(doc)).order,
        toml_layout(*final(doc)).decor == toml_layout(*old(doc)).decor,
        toml_layout(*final(doc)).children.remove(table@) == toml_layout(*old(doc)).children.remove(
            table@,
        ),
        toml_layout(*final(doc)).children[table@].0 == order_after_insert(
            toml_layout(*old(doc)).children[table@].0,
            key@,
        ),
        toml_layout(*final(doc)).children[table@].1.remove(key@) == toml_layout(
            *old(doc),
        ).children[table@].1.remove(key@),
{
    if let Some(t) = doc.get_mut(table).and_then(toml_edit::Item::as_table_like_mut) {
        t.insert(key, value);
    }
}

/// `Item::as_table_like` on a top-level key, `TableLike::get`, `Item::as_value`, then
/// `Value::decor`: the decor of the value inside.
#[verifier::external_body]
fn child_decor(doc: &toml_edit::DocumentMut, table: &str, key: &str) -> (r: toml_edit::Decor)
    requires
        entry_at(toml_top(*doc), table@) matches Some(e) && table_keys(e) matches Some(m)
            && entry_at(m, key@) matches Some(leaf) && leaf is Value,
    ensures
        r == toml_layout(*doc).children[table@].1[key@],
{
    let found = doc.get(table).and_then(toml_edit::Item::as_table_like).and_then(|t| t.get(key));
    match found.and_then(toml_edit::Item::as_value) {
        Some(value) => value.decor().clone(),
        None => toml_edit::Decor::default(),
    }
}

/// A value inside a table-like replaced in its slot by another, given the decor to write it
/// with: `Item::as_table_like_mut`, `TableLike::get_mut`, `Value::decor_mut`, and assignment
/// into the slot, so the key keeps its place and its own decor.
#[verifier::external_body]
fn replace_child(
    doc: &mut toml_edit::DocumentMut,
    table: &str,
    key: &str,
    value: toml_edit::Item,
    decor: toml_edit::Decor,
)
    requires
        toml_item_shape(value) != Shape::Other,
        entry_at(toml_top(*old(doc)), table@) matches Some(e) && table_keys(e) matches Some(m)
            && entry_at(m, key@) matches Some(leaf) && leaf is Value,
    ensures
        toml_top(*final(doc)) == toml_top(*old(doc)).insert(
            table@,
            with_keys(
                toml_top(*old(doc))[table@],
                table_keys(toml_top(*old(doc))[table@])->0.insert(
                    key@,
                    Leaf::Value(toml_item_shape(value)),
                ),
            ),
        ),
        toml_layout(*final(doc)).order == toml_layout(*old(doc)).order,
        toml_layout(*final(doc)).decor == toml_layout(*old(doc)).decor,
        toml_layout(*final(doc)).children == toml_layout(*old(doc)).children.insert(
            table@,
            (
                toml_layout(*old(doc)).children[table@].0,
                toml_layout(*old(doc)).children[table@].1.insert(key@, decor),
            ),
        ),
{
    let found = doc.get_mut(table).and_then(toml_edit::Item::as_table_like_mut);
    let (Some(slot), toml_edit::Item::Value(mut new)) = (found.and_then(|t| t.get_mut(key)), value)
    else { return };
    *new.decor_mut() = decor;
    *slot = toml_edit::Item::Value(new);
}

/// `Table::remove` of a top-level key that is there: `IndexMap::shift_remove`, which keeps
/// every other key where it was.
#[verifier::external_body]
fn remove_top(doc: &mut toml_edit::DocumentMut, key: &str)
    requires
        toml_top(*old(doc)).dom().contains(key@),
    ensures
        toml_top(*final(doc)) == toml_top(*old(doc)).remove(key@),
        toml_layout(*final(doc)).order == without_key(toml_layout(*old(doc)).order, key@),
        toml_layout(*final(doc)).decor == toml_layout(*old(doc)).decor.remove(key@),
        toml_layout(*final(doc)).children == toml_layout(*old(doc)).children.remove(key@),
{
    doc.as_table_mut().remove(key);
}

/// `TableLike::remove` of a key that is there, inside a table-like top-level key: a
/// `shift_remove`, which keeps every other key where it was.
#[verifier::external_body]
fn remove_child(doc: &mut toml_edit::DocumentMut, table: &str, key: &str)
    requires
        entry_at(toml_top(*old(doc)), table@) matches Some(e) && table_keys(e) matches Some(m)
            && m.dom().contains(key@),
    ensures
        toml_top(*final(doc)) == toml_top(*old(doc)).insert(
            table@,
            with_keys(
                toml_top(*old(doc))[table@],
                table_keys(toml_top(*old(doc))[table@])->0.remove(key@),
            ),
        ),
        toml_layout(*final(doc)).order == toml_layout(*old(doc)).order,
        toml_layout(*final(doc)).decor == toml_layout(*old(doc)).decor,
        toml_layout(*final(doc)).children == toml_layout(*old(doc)).children.insert(
            table@,
            (
                without_key(toml_layout(*old(doc)).children[table@].0, key@),
                toml_layout(*old(doc)).children[table@].1.remove(key@),
            ),
        ),
{
    if let Some(t) = doc.get_mut(table).and_then(toml_edit::Item::as_table_like_mut) {
        t.remove(key);
    }
}

// ---------------------------------------------------------------------------------------------
// What a request does to a document
// ---------------------------------------------------------------------------------------------

/// A path's components as sequences of characters.
pub open spec fn path_view(path: Seq<&str>) -> Seq<Seq<char>> {
    path.map_values(|part: &str| part@)
}

/// A table with no keys.
pub open spec fn no_leaves() -> Map<Seq<char>, Leaf> {
    Map::empty()
}

/// The value at `path`, if the document sets it to something a setting can be.
///
/// A one-element path is a top-level key; two elements are a key inside a table. A `[table]`
/// section, an inline `table = { ... }` and a dotted `table.key = ...` are all read the same
/// way. An inline table is not itself a value any setting has.
pub open spec fn spec_get(top: Map<Seq<char>, Entry>, path: Seq<Seq<char>>) -> Option<ValueView> {
    if path.len() == 1 {
        match entry_at(top, path[0]) {
            Some(Entry::Value(shape)) => value_of_shape(shape),
            _ => None,
        }
    } else if path.len() == 2 {
        match entry_at(top, path[0]) {
            Some(entry) => match table_keys(entry) {
                Some(keys) => match entry_at(keys, path[1]) {
                    Some(Leaf::Value(shape)) => value_of_shape(shape),
                    _ => None,
                },
                None => None,
            },
            None => None,
        }
    } else {
        None
    }
}

/// How setting `path` leaves the layout, for a document whose keys were `top`.
///
/// A value that was there is rewritten in its slot with its own decor -- its spacing and
/// trailing comment -- and its table's key order is untouched. A new key, or a new section,
/// goes at the end of its table. Nothing else moves, and no other value's decor changes.
pub open spec fn layout_after_set(
    top: Map<Seq<char>, Entry>,
    before: Layout,
    after: Layout,
    path: Seq<Seq<char>>,
) -> bool {
    if path.len() == 1 {
        let key = path[0];
        match entry_at(top, key) {
            None => {
                &&& after.order == order_after_insert(before.order, key)
                &&& after.decor.remove(key) == before.decor.remove(key)
                &&& after.children == before.children
            },
            Some(_) => {
                &&& after.order == before.order
                &&& after.decor == before.decor.insert(key, before.decor[key])
                &&& after.children == before.children.remove(key)
            },
        }
    } else {
        let (table, key) = (path[0], path[1]);
        &&& after.decor == before.decor
        &&& after.children.remove(table) == before.children.remove(table)
        &&& match entry_at(top, table) {
            None => {
                &&& after.order == order_after_insert(before.order, table)
                &&& after.children[table].0 == seq![key]
            },
            Some(entry) => {
                &&& after.order == before.order
                &&& match entry_at(table_keys(entry)->0, key) {
                    None => {
                        &&& after.children[table].0 == order_after_insert(
                            before.children[table].0,
                            key,
                        )
                        &&& after.children[table].1.remove(key) == before.children[table].1.remove(
                            key,
                        )
                    },
                    Some(_) => after.children[table] == (
                        before.children[table].0,
                        before.children[table].1.insert(key, before.children[table].1[key]),
                    ),
                }
            },
        }
    }
}

/// How removing `path`, found there, leaves the layout: the key is gone from its table's order
/// and its decor with it; every other key stays where it was, with its own decor.
pub open spec fn layout_after_remove(before: Layout, after: Layout, path: Seq<Seq<char>>) -> bool {
    if path.len() == 1 {
        &&& after.order == without_key(before.order, path[0])
        &&& after.decor == before.decor.remove(path[0])
        &&& after.children == before.children.remove(path[0])
    } else {
        &&& after.order == before.order
        &&& after.decor == before.decor
        &&& after.children == before.children.insert(
            path[0],
            (
                without_key(before.children[path[0]].0, path[1]),
                before.children[path[0]].1.remove(path[1]),
            ),
        )
    }
}

/// The document's keys after setting `path` to `value`, or `None` where something that is not
/// a value is in the way: a section where a value belongs, a value or an array of tables where
/// a section belongs, or a path of neither one nor two parts.
///
/// A missing key is added; an existing value is replaced where it stands. A missing section is
/// created as a real `[section]`, not an inline table.
pub open spec fn spec_set(
    top: Map<Seq<char>, Entry>,
    path: Seq<Seq<char>>,
    value: ValueView,
) -> Option<Map<Seq<char>, Entry>> {
    let shape = shape_of(value);
    if path.len() == 1 {
        match entry_at(top, path[0]) {
            None => Some(top.insert(path[0], Entry::Value(shape))),
            Some(Entry::Value(_)) => Some(top.insert(path[0], Entry::Value(shape))),
            Some(Entry::Inline(_)) => Some(top.insert(path[0], Entry::Value(shape))),
            _ => None,
        }
    } else if path.len() == 2 {
        match entry_at(top, path[0]) {
            None => Some(
                top.insert(path[0], Entry::Table(no_leaves().insert(path[1], Leaf::Value(shape)))),
            ),
            Some(entry) => match table_keys(entry) {
                Some(keys) => match entry_at(keys, path[1]) {
                    Some(Leaf::NotValue) => None,
                    _ => Some(
                        top.insert(
                            path[0],
                            with_keys(entry, keys.insert(path[1], Leaf::Value(shape))),
                        ),
                    ),
                },
                None => None,
            },
        }
    } else {
        None
    }
}

/// Whether removing `path` finds anything, and the document's keys afterwards.
///
/// An emptied section is left in place: an empty `[keyboard]` is valid TOML that every
/// component reads as its defaults, and removing a section the user wrote would be a liberty
/// no setting change asked for.
pub open spec fn spec_remove(top: Map<Seq<char>, Entry>, path: Seq<Seq<char>>) -> (
    bool,
    Map<Seq<char>, Entry>,
) {
    if path.len() == 1 {
        if top.dom().contains(path[0]) {
            (true, top.remove(path[0]))
        } else {
            (false, top)
        }
    } else if path.len() == 2 {
        match entry_at(top, path[0]) {
            Some(entry) => match table_keys(entry) {
                Some(keys) => if keys.dom().contains(path[1]) {
                    (true, top.insert(path[0], with_keys(entry, keys.remove(path[1]))))
                } else {
                    (false, top)
                },
                None => (false, top),
            },
            None => (false, top),
        }
    } else {
        (false, top)
    }
}

/// Whether a CRLF starts at position `i`.
pub open spec fn crlf_at(text: Seq<char>, i: int) -> bool {
    0 <= i < text.len() - 1 && text[i] == '\r' && text[i + 1] == '\n'
}

/// Whether a text has a CRLF line ending anywhere in it.
pub open spec fn has_crlf(text: Seq<char>) -> bool {
    exists|i: int| #[trigger] crlf_at(text, i)
}

/// The text from position `i` on, with every line break written `\r\n`: a CRLF stays one, and
/// a bare LF becomes one.
pub open spec fn crlf_from(text: Seq<char>, i: int) -> Seq<char>
    decreases text.len() - i,
{
    if i < 0 || i >= text.len() {
        Seq::empty()
    } else if text[i] == '\r' && i + 1 < text.len() && text[i + 1] == '\n' {
        seq!['\r', '\n'] + crlf_from(text, i + 2)
    } else if text[i] == '\n' {
        seq!['\r', '\n'] + crlf_from(text, i + 1)
    } else {
        seq![text[i]] + crlf_from(text, i + 1)
    }
}

/// The text with every line break written `\r\n`.
pub open spec fn with_crlf(text: Seq<char>) -> Seq<char> {
    crlf_from(text, 0)
}

/// Whether every line feed in a text is the end of a CRLF.
pub open spec fn only_crlf_breaks(text: Seq<char>) -> bool {
    forall|k: int| 0 <= k < text.len() && #[trigger] text[k] == '\n' ==> k > 0 && text[k - 1] == '\r'
}

/// The text from `i` on with its breaks made CRLF has only CRLF breaks, and does not start
/// with a bare line feed.
proof fn lemma_crlf_from(text: Seq<char>, i: int)
    ensures
        only_crlf_breaks(crlf_from(text, i)),
        crlf_from(text, i).len() > 0 ==> crlf_from(text, i)[0] != '\n',
    decreases text.len() - i,
{
    if 0 <= i < text.len() {
        let out = crlf_from(text, i);
        if text[i] == '\r' && i + 1 < text.len() && text[i + 1] == '\n' {
            lemma_crlf_from(text, i + 2);
            let rest = crlf_from(text, i + 2);
            assert(out == seq!['\r', '\n'] + rest);
            assert forall|k: int| 0 <= k < out.len() && #[trigger] out[k] == '\n' implies k > 0
                && out[k - 1] == '\r' by {
                if k >= 2 {
                    assert(out[k] == rest[k - 2]);
                    if k > 2 {
                        assert(out[k - 1] == rest[k - 3]);
                    }
                }
            }
        } else if text[i] == '\n' {
            lemma_crlf_from(text, i + 1);
            let rest = crlf_from(text, i + 1);
            assert(out == seq!['\r', '\n'] + rest);
            assert forall|k: int| 0 <= k < out.len() && #[trigger] out[k] == '\n' implies k > 0
                && out[k - 1] == '\r' by {
                if k >= 2 {
                    assert(out[k] == rest[k - 2]);
                    if k > 2 {
                        assert(out[k - 1] == rest[k - 3]);
                    }
                }
            }
        } else {
            lemma_crlf_from(text, i + 1);
            let rest = crlf_from(text, i + 1);
            assert(out == seq![text[i]] + rest);
            assert forall|k: int| 0 <= k < out.len() && #[trigger] out[k] == '\n' implies k > 0
                && out[k - 1] == '\r' by {
                if k >= 1 {
                    assert(out[k] == rest[k - 1]);
                    if k > 1 {
                        assert(out[k - 1] == rest[k - 2]);
                    }
                }
            }
        }
    }
}

/// A document that came with CRLF line endings is written with nothing else: every line feed
/// in its text, the lines it kept and the lines an edit added alike, ends a CRLF.
pub proof fn law_crlf_is_written_throughout(text: Seq<char>)
    ensures
        only_crlf_breaks(with_crlf(text)),
{
    lemma_crlf_from(text, 0);
}

/// Whether `text` has a CRLF anywhere.
pub fn contains_crlf(text: &str) -> (r: bool)
    ensures
        r == has_crlf(text@),
{
    let n = text.unicode_len();
    let mut i: usize = 0;
    while n > 0 && i < n - 1
        invariant
            n == text@.len(),
            forall|j: int| 0 <= j < i ==> !#[trigger] crlf_at(text@, j),
        decreases n - i,
    {
        if text.get_char(i) == '\r' && text.get_char(i + 1) == '\n' {
            assert(crlf_at(text@, i as int));
            return true;
        }
        i = i + 1;
    }
    assert forall|j: int| !#[trigger] crlf_at(text@, j) by {
        if 0 <= j < i {
        }
    }
    false
}

/// `text` with every line break written `\r\n`.
pub fn to_crlf(text: &str) -> (r: String)
    ensures
        r@ == with_crlf(text@),
{
    let n = text.unicode_len();
    let mut out = String::new();
    let mut i: usize = 0;
    proof {
        reveal_strlit("\r\n");
    }
    while i < n
        invariant
            n == text@.len(),
            i <= n,
            "\r\n"@ == seq!['\r', '\n'],
            out@ + crlf_from(text@, i as int) == with_crlf(text@),
        decreases n - i,
    {
        let c = text.get_char(i);
        if c == '\r' && i + 1 < n && text.get_char(i + 1) == '\n' {
            proof {
                assert(out@ + crlf_from(text@, i as int) =~= (out@ + "\r\n"@) + crlf_from(
                    text@,
                    i + 2,
                ));
            }
            out.append("\r\n");
            i = i + 2;
        } else if c == '\n' {
            proof {
                assert(out@ + crlf_from(text@, i as int) =~= (out@ + "\r\n"@) + crlf_from(
                    text@,
                    i + 1,
                ));
            }
            out.append("\r\n");
            i = i + 1;
        } else {
            let one = text.substring_char(i, i + 1);
            proof {
                assert(one@ =~= seq![text@[i as int]]);
                assert(out@ + crlf_from(text@, i as int) =~= (out@ + one@) + crlf_from(
                    text@,
                    i + 1,
                ));
            }
            out.append(one);
            i = i + 1;
        }
    }
    proof {
        assert(out@ =~= with_crlf(text@));
    }
    out
}

/// Why a request could not be carried out on a file.
#[derive(Debug)]
pub enum Error {
    /// The file exists but is not valid TOML. Carries the parser's own message, which is far
    /// more useful than anything this could say about it.
    Parse { path: String, message: String },
    Read { path: String, message: String },
    Write { path: String, message: String },
    /// Neither `$XDG_CONFIG_HOME` nor `$HOME` is set, so there is nowhere to write.
    NoConfigHome,
    /// The path a setting names is occupied by a section, not a value. Overwriting it would
    /// delete whatever is inside.
    NotAValue { key: String },
    /// The owning program's own parser refused the file we were about to install.
    Refused { program: String, message: String },
}

/// An [`Error`] as the contracts see it.
pub enum ErrorView {
    Parse { path: Seq<char>, message: Seq<char> },
    Read { path: Seq<char>, message: Seq<char> },
    Write { path: Seq<char>, message: Seq<char> },
    NoConfigHome,
    NotAValue { key: Seq<char> },
    Refused { program: Seq<char>, message: Seq<char> },
}

impl View for Error {
    type V = ErrorView;

    open spec fn view(&self) -> ErrorView {
        match self {
            Error::Parse { path, message } => ErrorView::Parse { path: path@, message: message@ },
            Error::Read { path, message } => ErrorView::Read { path: path@, message: message@ },
            Error::Write { path, message } => ErrorView::Write { path: path@, message: message@ },
            Error::NoConfigHome => ErrorView::NoConfigHome,
            Error::NotAValue { key } => ErrorView::NotAValue { key: key@ },
            Error::Refused { program, message } => ErrorView::Refused {
                program: program@,
                message: message@,
            },
        }
    }
}

/// What an error says, in words.
pub open spec fn spec_error_text(err: ErrorView) -> Seq<char> {
    match err {
        ErrorView::Parse { path, message } => path + " is not valid: "@ + message,
        ErrorView::Read { path, message } => "could not read "@ + path + ": "@ + message,
        ErrorView::Write { path, message } => "could not write "@ + path + ": "@ + message,
        ErrorView::NoConfigHome => "neither XDG_CONFIG_HOME nor HOME is set; there is nowhere to write"@,
        ErrorView::NotAValue { key } => key + " names a table, not a value"@,
        ErrorView::Refused { program, message } => program + " would not accept the change: "@
            + message,
    }
}

/// `a`, then `b`, then `c`.
pub fn concat3(a: &str, b: &str, c: &str) -> (r: String)
    ensures
        r@ == a@ + b@ + c@,
{
    let mut out = owned(a);
    out.append(b);
    out.append(c);
    out
}

impl Error {
    /// What the error says, in words.
    pub fn message(&self) -> (r: String)
        ensures
            r@ == spec_error_text(self@),
    {
        match self {
            Error::Parse { path, message } => concat3(
                path.as_str(),
                " is not valid: ",
                message.as_str(),
            ),
            Error::Read { path, message } => {
                let mut out = concat3("could not read ", path.as_str(), ": ");
                out.append(message.as_str());
                out
            },
            Error::Write { path, message } => {
                let mut out = concat3("could not write ", path.as_str(), ": ");
                out.append(message.as_str());
                out
            },
            Error::NoConfigHome => owned(
                "neither XDG_CONFIG_HOME nor HOME is set; there is nowhere to write",
            ),
            Error::NotAValue { key } => {
                let mut out = owned(key.as_str());
                out.append(" names a table, not a value");
                out
            },
            Error::Refused { program, message } => concat3(
                program.as_str(),
                " would not accept the change: ",
                message.as_str(),
            ),
        }
    }
}

/// A config file, parsed, with its formatting intact.
pub struct Document {
    doc: toml_edit::DocumentMut,
    /// Whether the file this came from used CRLF line endings. `toml_edit` keeps the endings of
    /// lines it does not touch but writes `\n` for anything it inserts, which would leave a
    /// Windows-edited file with mixed endings.
    crlf: bool,
}

/// A document as the contracts see it: its keys, how they are laid out, the text it renders
/// to, and whether it is written with CRLF line endings.
pub struct DocView {
    pub entries: Map<Seq<char>, Entry>,
    pub layout: Layout,
    pub text: Seq<char>,
    pub crlf: bool,
}

impl View for Document {
    type V = DocView;

    closed spec fn view(&self) -> DocView {
        DocView {
            entries: toml_top(self.doc),
            layout: toml_layout(self.doc),
            text: toml_text(self.doc),
            crlf: self.crlf,
        }
    }
}

/// A value read out, as the contracts see it.
pub open spec fn option_view(v: Option<Value>) -> Option<ValueView> {
    match v {
        Some(v) => Some(v@),
        None => None,
    }
}

impl Document {
    /// An empty document, for a config file that does not exist yet.
    pub fn empty() -> (r: Document)
        ensures
            r@.entries == no_entries(),
            !r@.crlf,
    {
        Document { doc: toml_new(), crlf: false }
    }

    /// A document from what parsing `text` gave.
    pub fn from_parsed(text: &str, parsed: Result<toml_edit::DocumentMut, String>) -> (r: Result<
        Document,
        String,
    >)
        ensures
            match parsed {
                Ok(doc) => r matches Ok(d) && d@.entries == toml_top(doc) && d@.text == toml_text(
                    doc,
                ) && d@.crlf == has_crlf(text@),
                Err(message) => r matches Err(m) && m@ == message@,
            },
    {
        match parsed {
            Ok(doc) => Ok(Document { doc, crlf: contains_crlf(text) }),
            Err(message) => Err(message),
        }
    }

    /// Parse a config file's text, or give the parser's message.
    pub fn parse(text: &str) -> (r: Result<Document, String>)
        ensures
            match r {
                Ok(d) => toml_parsed(text@) matches Ok(top) && d@.entries == top && d@.crlf
                    == has_crlf(text@),
                Err(message) => toml_parsed(text@) matches Err(m) && m == message@,
            },
    {
        Document::from_parsed(text, toml_parse(text))
    }

    /// The value at `path`, if the file sets it to something a setting can be.
    pub fn get(&self, path: &[&str]) -> (r: Option<Value>)
        ensures
            option_view(r) == spec_get(self@.entries, path_view(path@)),
    {
        let ghost top = toml_top(self.doc);
        if path.len() == 1 {
            match probe_top(&self.doc, path[0]) {
                TopProbe::Value(item) => from_item(&item),
                _ => None,
            }
        } else if path.len() == 2 {
            match probe_top(&self.doc, path[0]) {
                TopProbe::Inline | TopProbe::Table => {
                    match probe_child(&self.doc, path[0], path[1]) {
                        ChildProbe::Value(item) => from_item(&item),
                        _ => None,
                    }
                },
                _ => None,
            }
        } else {
            None
        }
    }

    /// Set `path` to `value`, creating the section if it is not there.
    ///
    /// An existing value is rewritten where it stands and keeps its own decor -- the spacing
    /// around it and any trailing comment -- because that is the user's, not ours. `key_name`
    /// is the setting's key, for the error that names what is in the way.
    pub fn set(&mut self, key_name: &str, path: &[&str], value: Value) -> (r: Result<(), Error>)
        ensures
            final(self)@.crlf == old(self)@.crlf,
            match spec_set(old(self)@.entries, path_view(path@), value@) {
                Some(entries) => r is Ok && final(self)@.entries == entries && layout_after_set(
                    old(self)@.entries,
                    old(self)@.layout,
                    final(self)@.layout,
                    path_view(path@),
                ),
                None => r matches Err(Error::NotAValue { key }) && key@ == key_name@
                    && final(self)@ == old(self)@,
            },
    {
        let ghost shape = shape_of(value@);
        let ghost pv = path_view(path@);
        let new = toml_value_of(&value);
        proof {
            assert(toml_item_shape(new) != Shape::Other) by {
                if let ValueView::StrList(_) = value@ {
                } else {
                }
            }
        }
        if path.len() == 1 {
            match probe_top(&self.doc, path[0]) {
                TopProbe::Absent => {
                    insert_top(&mut self.doc, path[0], new);
                    Ok(())
                },
                TopProbe::Value(_) | TopProbe::Inline => {
                    let decor = top_decor(&self.doc, path[0]);
                    replace_top(&mut self.doc, path[0], new, decor);
                    Ok(())
                },
                _ => Err(Error::NotAValue { key: owned(key_name) }),
            }
        } else if path.len() == 2 {
            match probe_top(&self.doc, path[0]) {
                TopProbe::Absent => {
                    let ghost before = toml_top(self.doc);
                    let ghost layout = toml_layout(self.doc);
                    insert_section(&mut self.doc, path[0]);
                    let ghost middle = toml_layout(self.doc);
                    insert_child(&mut self.doc, path[0], path[1], new);
                    proof {
                        let after = toml_layout(self.doc);
                        assert(middle.children[pv[0]].0 =~= Seq::<Seq<char>>::empty());
                        assert(!Seq::<Seq<char>>::empty().contains(pv[1]));
                        assert(after.children[pv[0]].0 == order_after_insert(
                            middle.children[pv[0]].0,
                            pv[1],
                        ));
                        assert(after.children[pv[0]].0 =~= seq![pv[1]]);
                        assert(after.children.remove(pv[0]) =~= middle.children.remove(pv[0]));
                        assert(middle.children.remove(pv[0]) =~= layout.children.remove(pv[0]));
                        assert(toml_top(self.doc) =~= before.insert(
                            pv[0],
                            Entry::Table(no_leaves().insert(pv[1], Leaf::Value(shape))),
                        ));
                    }
                    Ok(())
                },
                TopProbe::Inline | TopProbe::Table => {
                    match probe_child(&self.doc, path[0], path[1]) {
                        ChildProbe::Absent => {
                            insert_child(&mut self.doc, path[0], path[1], new);
                            Ok(())
                        },
                        ChildProbe::Value(_) => {
                            let decor = child_decor(&self.doc, path[0], path[1]);
                            let ghost layout = toml_layout(self.doc);
                            replace_child(&mut self.doc, path[0], path[1], new, decor);
                            proof {
                                assert(toml_layout(self.doc).children.remove(pv[0])
                                    =~= layout.children.remove(pv[0]));
                            }
                            Ok(())
                        },
                        ChildProbe::NotValue => Err(Error::NotAValue { key: owned(key_name) }),
                    }
                },
                _ => Err(Error::NotAValue { key: owned(key_name) }),
            }
        } else {
            Err(Error::NotAValue { key: owned(key_name) })
        }
    }

    /// Remove `path`, so the value falls back to whatever the owner's default is. Answers
    /// whether anything was there.
    pub fn remove(&mut self, path: &[&str]) -> (r: bool)
        ensures
            final(self)@.crlf == old(self)@.crlf,
            (r, final(self)@.entries) == spec_remove(old(self)@.entries, path_view(path@)),
            !r ==> final(self)@ == old(self)@,
            r ==> layout_after_remove(old(self)@.layout, final(self)@.layout, path_view(path@)),
    {
        if path.len() == 1 {
            match probe_top(&self.doc, path[0]) {
                TopProbe::Absent => false,
                _ => {
                    remove_top(&mut self.doc, path[0]);
                    true
                },
            }
        } else if path.len() == 2 {
            match probe_top(&self.doc, path[0]) {
                TopProbe::Inline | TopProbe::Table => {
                    match probe_child(&self.doc, path[0], path[1]) {
                        ChildProbe::Absent => false,
                        _ => {
                            remove_child(&mut self.doc, path[0], path[1]);
                            true
                        },
                    }
                },
                _ => false,
            }
        } else {
            false
        }
    }

    /// The document as text, ready to write, in the line endings it came with.
    pub fn to_text(&self) -> (r: String)
        ensures
            r@ == (if self@.crlf {
                with_crlf(self@.text)
            } else {
                self@.text
            }),
            self@.crlf ==> only_crlf_breaks(r@),
    {
        proof {
            law_crlf_is_written_throughout(self@.text);
        }
        let text = toml_render(&self.doc);
        if self.crlf {
            to_crlf(text.as_str())
        } else {
            text
        }
    }
}

/// The value an item holds, if it is one a setting can be.
fn from_item(item: &toml_edit::Item) -> (r: Option<Value>)
    ensures
        option_view(r) == value_of_shape(toml_item_shape(*item)),
{
    match read_toml_value(item) {
        Scalar::Bool(v) => Some(Value::Bool(v)),
        Scalar::Int(v) => Some(Value::Int(v)),
        Scalar::Float(bits, raw) => Some(Value::Float(Double { bits, raw })),
        Scalar::Str(v) => Some(Value::Str(v)),
        Scalar::Array(items) => {
            let mut out: Vec<String> = Vec::new();
            let mut i: usize = 0;
            while i < items.len()
                invariant
                    Shape::Array(elements_view(items@)) == toml_item_shape(*item),
                    i <= items.len(),
                    out@.len() == i,
                    forall|j: int| 0 <= j < i ==> (#[trigger] items@[j]) is Some && out@[j]@
                        == items@[j]->0@,
                decreases items.len() - i,
            {
                match &items[i] {
                    Some(s) => out.push(owned(s.as_str())),
                    None => {
                        proof {
                            assert(elements_view(items@)[i as int] is None);
                        }
                        return None;
                    },
                }
                i = i + 1;
            }
            proof {
                let shape = elements_view(items@);
                assert(forall|j: int| 0 <= j < shape.len() ==> #[trigger] shape[j] is Some);
                assert(strings_view(out@) =~= shape.map_values(
                    |item: Option<Seq<char>>| item->0,
                ));
            }
            Some(Value::StrList(out))
        },
        Scalar::Other => None,
    }
}

// ---------------------------------------------------------------------------------------------
// What holds of every edit
// ---------------------------------------------------------------------------------------------

/// Two paths of one or two parts, neither of which is the other or lies under it.
pub open spec fn disjoint_paths(p: Seq<Seq<char>>, q: Seq<Seq<char>>) -> bool {
    &&& 1 <= p.len() <= 2
    &&& 1 <= q.len() <= 2
    &&& (p[0] != q[0] || (p.len() == 2 && q.len() == 2 && p[1] != q[1]))
}

/// A value that was set reads back as itself.
pub proof fn law_get_after_set(top: Map<Seq<char>, Entry>, path: Seq<Seq<char>>, value: ValueView)
    requires
        spec_set(top, path, value) is Some,
    ensures
        spec_get(spec_set(top, path, value)->0, path) == Some(value),
{
    lemma_value_of_shape_of(value);
}

/// Setting one path leaves every path that is neither it nor above or under it as it was.
pub proof fn law_set_leaves_other_paths(
    top: Map<Seq<char>, Entry>,
    path: Seq<Seq<char>>,
    other: Seq<Seq<char>>,
    value: ValueView,
)
    requires
        spec_set(top, path, value) is Some,
        disjoint_paths(path, other),
    ensures
        spec_get(spec_set(top, path, value)->0, other) == spec_get(top, other),
{
}

/// Setting the same path twice leaves what the second set alone would have left.
pub proof fn law_second_set_wins(
    top: Map<Seq<char>, Entry>,
    path: Seq<Seq<char>>,
    first: ValueView,
    second: ValueView,
)
    requires
        spec_set(top, path, first) is Some,
    ensures
        spec_set(spec_set(top, path, first)->0, path, second) == spec_set(top, path, second),
{
    let once = spec_set(top, path, first)->0;
    let shape = shape_of(second);
    if path.len() == 1 {
        assert(once.insert(path[0], Entry::Value(shape)) =~= top.insert(
            path[0],
            Entry::Value(shape),
        ));
    } else {
        match entry_at(top, path[0]) {
            None => {
                let keys = no_leaves().insert(path[1], Leaf::Value(shape_of(first)));
                assert(keys.insert(path[1], Leaf::Value(shape)) =~= no_leaves().insert(
                    path[1],
                    Leaf::Value(shape),
                ));
                assert(once.insert(
                    path[0],
                    Entry::Table(keys.insert(path[1], Leaf::Value(shape))),
                ) =~= top.insert(
                    path[0],
                    Entry::Table(no_leaves().insert(path[1], Leaf::Value(shape))),
                ));
            },
            Some(entry) => {
                let keys = table_keys(entry)->0;
                let new_keys = keys.insert(path[1], Leaf::Value(shape_of(first)));
                assert(new_keys.insert(path[1], Leaf::Value(shape)) =~= keys.insert(
                    path[1],
                    Leaf::Value(shape),
                ));
                assert(once.insert(
                    path[0],
                    with_keys(with_keys(entry, new_keys), new_keys.insert(path[1], Leaf::Value(shape))),
                ) =~= top.insert(path[0], with_keys(entry, keys.insert(path[1], Leaf::Value(shape)))));
            },
        }
    }
}

/// A removed path reads as unset.
pub proof fn law_get_after_remove(top: Map<Seq<char>, Entry>, path: Seq<Seq<char>>)
    ensures
        spec_get(spec_remove(top, path).1, path) is None,
{
}

/// Removing a key from a section leaves the section in place.
pub proof fn law_remove_keeps_section(top: Map<Seq<char>, Entry>, path: Seq<Seq<char>>)
    requires
        path.len() == 2,
        top.dom().contains(path[0]),
    ensures
        spec_remove(top, path).1.dom().contains(path[0]),
{
}

/// Removing one path leaves every path that is neither it nor above or under it as it was.
pub proof fn law_remove_leaves_other_paths(
    top: Map<Seq<char>, Entry>,
    path: Seq<Seq<char>>,
    other: Seq<Seq<char>>,
)
    requires
        disjoint_paths(path, other),
    ensures
        spec_get(spec_remove(top, path).1, other) == spec_get(top, other),
{
}

// ---------------------------------------------------------------------------------------------
// Around a write
// ---------------------------------------------------------------------------------------------

/// Which file an edit to `file` starts from, for the given state of the disk: the user's if it
/// exists, else the system's if it does, else nothing -- an empty document. With no user
/// directory there is nowhere to write at all.
pub open spec fn spec_write_source(
    roots: Roots,
    file: File,
    user_is_file: bool,
    system_is_file: bool,
) -> Option<Option<Seq<char>>> {
    match roots.spec_user_path(file) {
        None => None,
        Some(user) => if user_is_file {
            Some(Some(user))
        } else if system_is_file {
            Some(Some(roots.spec_system_path(file)))
        } else {
            Some(None)
        },
    }
}

/// Which file an edit to `file` starts from, for the given state of the disk.
///
/// Seeding from the system file is the whole subtlety: wlRIX takes the first config file it
/// finds and does not merge, so a user file created with one key in it would discard
/// everything the administrator set. Starting from the system file's own text keeps their
/// comments and their values.
pub fn write_source_given(roots: &Roots, file: File, user_is_file: bool, system_is_file: bool) -> (r:
    Result<Option<String>, Error>)
    ensures
        match spec_write_source(*roots, file, user_is_file, system_is_file) {
            None => r matches Err(Error::NoConfigHome),
            Some(None) => r matches Ok(None),
            Some(Some(path)) => r matches Ok(Some(p)) && p@ == path,
        },
{
    match roots.user_path(file) {
        None => Err(Error::NoConfigHome),
        Some(user) => if user_is_file {
            Ok(Some(user))
        } else if system_is_file {
            Ok(Some(roots.system_path(file)))
        } else {
            Ok(None)
        },
    }
}

/// Which file an edit to `file` starts from: the user's if it exists, else the system's if it
/// does, else none. Looks at the disk, so what is said of the answer is which paths it can be.
pub fn write_source(roots: &Roots, file: File) -> (r: Result<Option<String>, Error>)
    ensures
        r matches Err(Error::NoConfigHome) <==> roots.spec_user_path(file) is None,
        r is Err ==> r matches Err(Error::NoConfigHome),
        r matches Ok(Some(p)) ==> roots.spec_user_path(file) == Some(p@) || p@
            == roots.spec_system_path(file),
{
    let user_is_file = match roots.user_path(file) {
        Some(user) => path_is_file(user.as_str()),
        None => false,
    };
    let system_is_file = if user_is_file {
        false
    } else {
        let system = roots.system_path(file);
        path_is_file(system.as_str())
    };
    write_source_given(roots, file, user_is_file, system_is_file)
}

/// The document a file's text is, given what reading the file at `path` gave: its text, or why
/// it could not be read.
///
/// A file that does not parse is an error rather than a fall back to defaults: reporting a
/// stale value as the current one, or writing on top of a file the daemon could not
/// understand, are both worse than saying the file is broken.
pub fn read_document(path: &str, read: Result<String, String>) -> (r: Result<Document, Error>)
    ensures
        match read {
            Err(message) => r matches Err(Error::Read { path: p, message: m }) && p@ == path@ && m@
                == message@,
            Ok(text) => match toml_parsed(text@) {
                Ok(top) => r matches Ok(d) && d@.entries == top && d@.crlf == has_crlf(text@),
                Err(message) => r matches Err(Error::Parse { path: p, message: m }) && p@ == path@
                    && m@ == message,
            },
        },
{
    match read {
        Err(message) => Err(Error::Read { path: owned(path), message }),
        Ok(text) => match Document::parse(text.as_str()) {
            Ok(document) => Ok(document),
            Err(message) => Err(Error::Parse { path: owned(path), message }),
        },
    }
}

/// The directory a write to `path` happens in, and the temporary file written there first.
///
/// The temporary is in the same directory, so the rename over the target cannot cross a
/// filesystem, and dot-prefixed so it is hidden from a listing if the daemon dies before the
/// rename. It is named after the target rather than replacing its extension: `compositor.tmp`
/// beside `compositor.toml` is one letter away from looking like a config file of its own.
pub open spec fn spec_write_paths(path: Seq<char>) -> (Seq<char>, Seq<char>) {
    let directory = match std_path_parent(path) {
        Some(parent) => parent,
        None => "."@,
    };
    let name = match std_path_file_name(path) {
        Some(name) => name,
        None => Seq::empty(),
    };
    (directory, spec_join(directory, "."@ + name + ".tmp"@))
}

/// The directory a write to `path` happens in, and the temporary file written there first.
pub fn write_paths(path: &str) -> (r: (String, String))
    ensures
        (r.0@, r.1@) == spec_write_paths(path@),
{
    let directory = match path_parent(path) {
        Some(parent) => parent,
        None => owned("."),
    };
    let name = match path_file_name(path) {
        Some(name) => name,
        None => String::new(),
    };
    let temporary_name = concat3(".", name.as_str(), ".tmp");
    let temporary = join(directory.as_str(), temporary_name.as_str());
    (directory, temporary)
}

/// How asking the owning program about a candidate file went.
pub enum CheckAnswer {
    /// The program is not installed.
    NotInstalled,
    /// It could not be started for another reason.
    CouldNotStart,
    /// It did not exit in time -- most likely a program too old to know `--check-config`,
    /// which would have started instead of checking -- and was killed.
    DidNotExit,
    /// Waiting for it, or collecting what it said, failed.
    Lost,
    /// It exited: whether successfully, its exit status as text, and what it wrote to stderr.
    Exited { success: bool, status: String, stderr: String },
}

/// What the owner's answer means for the write: go ahead, or refuse with its message.
///
/// Only a program that ran and said no refuses a write. A settings daemon that refused to
/// write because the compositor was not installed, or was too old to answer, would be worse
/// than one that wrote without asking. A refusal carries the program's own message, trimmed,
/// or its exit status when it said nothing.
pub open spec fn spec_check_verdict(answer: CheckAnswer) -> Option<Seq<char>> {
    match answer {
        CheckAnswer::Exited { success, status, stderr } => if success {
            None
        } else if spec_trim(stderr@).len() == 0 {
            Some("exit status "@ + status@)
        } else {
            Some(spec_trim(stderr@))
        },
        _ => None,
    }
}

/// Whether the owner's answer lets the write through; the refusal's message when it does not.
pub fn check_verdict(answer: CheckAnswer) -> (r: Result<(), String>)
    ensures
        match spec_check_verdict(answer) {
            None => r is Ok,
            Some(message) => r matches Err(m) && m@ == message,
        },
{
    match answer {
        CheckAnswer::Exited { success, status, stderr } => {
            if success {
                return Ok(());
            }
            let message = trim(stderr.as_str());
            if message.unicode_len() == 0 {
                let mut out = owned("exit status ");
                out.append(status.as_str());
                Err(out)
            } else {
                Err(owned(message))
            }
        },
        _ => Ok(()),
    }
}

/// Where waiting for the owning program's check stands.
pub enum Waited {
    /// It has exited.
    Exited,
    /// It is still running.
    Running,
    /// Waiting for it failed.
    Failed,
}

/// What to do next while waiting for the owning program's check.
pub enum NextStep {
    /// Collect its answer.
    Collect,
    /// Wait a little longer.
    Wait,
    /// Kill it: it has had its time.
    Kill,
    /// Give up on asking, and write unchecked.
    GiveUp,
}

/// What to do next while waiting for the owning program's check, given how the last wait went
/// and whether the deadline has passed.
pub fn next_step(waited: Waited, before_deadline: bool) -> (r: NextStep)
    ensures
        match waited {
            Waited::Exited => r is Collect,
            Waited::Running => if before_deadline {
                r is Wait
            } else {
                r is Kill
            },
            Waited::Failed => r is GiveUp,
        },
{
    match waited {
        Waited::Exited => NextStep::Collect,
        Waited::Running => if before_deadline {
            NextStep::Wait
        } else {
            NextStep::Kill
        },
        Waited::Failed => NextStep::GiveUp,
    }
}

} // verus!
