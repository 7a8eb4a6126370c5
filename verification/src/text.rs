//! Small string operations the rest of the library is written in terms of.
//!
//! Each one states exactly what it computes over the characters of its arguments, so that the
//! contracts above it can talk about keys, paths and file contents as sequences of `char`.
use vstd::prelude::*;

verus! {

/// Whether two strings hold the same characters.
pub fn str_eq(a: &str, b: &str) -> (r: bool)
    ensures
        r == (a@ == b@),
{
    let x = a.to_owned();
    let y = b.to_owned();
    x == y
}

/// A new `String` with the characters of `s`.
pub fn owned(s: &str) -> (r: String)
    ensures
        r@ == s@,
{
    s.to_owned()
}

/// Whether `s` begins with `prefix`.
pub open spec fn spec_starts_with(s: Seq<char>, prefix: Seq<char>) -> bool {
    prefix.len() <= s.len() && s.subrange(0, prefix.len() as int) == prefix
}

pub fn starts_with(s: &str, prefix: &str) -> (r: bool)
    ensures
        r == spec_starts_with(s@, prefix@),
{
    let n = s.unicode_len();
    let m = prefix.unicode_len();
    if m > n {
        return false;
    }
    let mut i: usize = 0;
    while i < m
        invariant
            m <= n,
            n == s@.len(),
            m == prefix@.len(),
            i <= m,
            forall|j: int| 0 <= j < i ==> s@[j] == prefix@[j],
        decreases m - i,
    {
        if s.get_char(i) != prefix.get_char(i) {
            assert(s@.subrange(0, m as int)[i as int] != prefix@[i as int]);
            return false;
        }
        i = i + 1;
    }
    assert(s@.subrange(0, m as int) =~= prefix@);
    true
}

/// Whether the character `c` occurs in `s`.
pub fn contains_char(s: &str, c: char) -> (r: bool)
    ensures
        r == s@.contains(c),
{
    let n = s.unicode_len();
    let mut i: usize = 0;
    while i < n
        invariant
            n == s@.len(),
            i <= n,
            forall|j: int| 0 <= j < i ==> s@[j] != c,
        decreases n - i,
    {
        if s.get_char(i) == c {
            assert(s@[i as int] == c);
            return true;
        }
        i = i + 1;
    }
    false
}

/// `dir` with `name` appended as one more path component, as `PathBuf::push` does for a
/// relative component: a separator is added only when `dir` is non-empty and does not already
/// end in one.
pub open spec fn spec_join(dir: Seq<char>, name: Seq<char>) -> Seq<char> {
    if dir.len() == 0 {
        name
    } else if dir.last() == '/' {
        dir + name
    } else {
        dir + seq!['/'] + name
    }
}

pub fn join(dir: &str, name: &str) -> (r: String)
    ensures
        r@ == spec_join(dir@, name@),
{
    let n = dir.unicode_len();
    let mut out = owned(dir);
    if n == 0 {
        return owned(name);
    }
    if dir.get_char(n - 1) != '/' {
        proof {
            reveal_strlit("/");
        }
        out.append("/");
    }
    out.append(name);
    out
}

/// The decimal digits of a natural number, most significant first, with no leading zeros
/// (and a single `0` for zero).
pub open spec fn spec_digits(n: nat) -> Seq<char>
    decreases n,
{
    if n < 10 {
        seq![digit_char(n)]
    } else {
        spec_digits(n / 10) + seq![digit_char(n % 10)]
    }
}

pub open spec fn digit_char(d: nat) -> char {
    if d == 0 {
        '0'
    } else if d == 1 {
        '1'
    } else if d == 2 {
        '2'
    } else if d == 3 {
        '3'
    } else if d == 4 {
        '4'
    } else if d == 5 {
        '5'
    } else if d == 6 {
        '6'
    } else if d == 7 {
        '7'
    } else if d == 8 {
        '8'
    } else {
        '9'
    }
}

/// A one-character string holding the digit `d`.
fn digit_str(d: u64) -> (r: &'static str)
    requires
        d < 10,
    ensures
        r@ == seq![digit_char(d as nat)],
{
    proof {
        reveal_strlit("0");
        reveal_strlit("1");
        reveal_strlit("2");
        reveal_strlit("3");
        reveal_strlit("4");
        reveal_strlit("5");
        reveal_strlit("6");
        reveal_strlit("7");
        reveal_strlit("8");
        reveal_strlit("9");
    }
    if d == 0 {
        "0"
    } else if d == 1 {
        "1"
    } else if d == 2 {
        "2"
    } else if d == 3 {
        "3"
    } else if d == 4 {
        "4"
    } else if d == 5 {
        "5"
    } else if d == 6 {
        "6"
    } else if d == 7 {
        "7"
    } else if d == 8 {
        "8"
    } else {
        "9"
    }
}

/// The decimal text of a natural number.
pub fn digits(n: u64) -> (r: String)
    ensures
        r@ == spec_digits(n as nat),
    decreases n,
{
    if n < 10 {
        owned(digit_str(n))
    } else {
        let mut out = digits(n / 10);
        out.append(digit_str(n % 10));
        out
    }
}

/// The decimal text of an integer, with a leading `-` when it is negative: what `{}` prints
/// for an `i64`.
pub open spec fn spec_int_text(v: int) -> Seq<char> {
    if v < 0 {
        seq!['-'] + spec_digits((-v) as nat)
    } else {
        spec_digits(v as nat)
    }
}

pub fn int_text(v: i64) -> (r: String)
    ensures
        r@ == spec_int_text(v as int),
{
    if v < 0 {
        let magnitude: u64 = if v == i64::MIN {
            9_223_372_036_854_775_808u64
        } else {
            (-v) as u64
        };
        proof {
            reveal_strlit("-");
        }
        let mut out = owned("-");
        let rest = digits(magnitude);
        out.append(rest.as_str());
        out
    } else {
        digits(v as u64)
    }
}

} // verus!

verus! {

/// Whether `c` has the Unicode `White_Space` property, which is what `char::is_whitespace`
/// tests and what `str::trim` strips.
pub open spec fn is_ws(c: char) -> bool {
    let u = c as u32;
    (0x9 <= u <= 0xD) || u == 0x20 || u == 0x85 || u == 0xA0 || u == 0x1680 || (0x2000 <= u
        <= 0x200A) || u == 0x2028 || u == 0x2029 || u == 0x202F || u == 0x205F || u == 0x3000
}

pub fn is_whitespace(c: char) -> (r: bool)
    ensures
        r == is_ws(c),
{
    let u = c as u32;
    (0x9 <= u && u <= 0xD) || u == 0x20 || u == 0x85 || u == 0xA0 || u == 0x1680 || (0x2000 <= u
        && u <= 0x200A) || u == 0x2028 || u == 0x2029 || u == 0x202F || u == 0x205F || u == 0x3000
}

/// `s` without its leading whitespace.
pub open spec fn spec_trim_start(s: Seq<char>) -> Seq<char>
    decreases s.len(),
{
    if s.len() > 0 && is_ws(s[0]) {
        spec_trim_start(s.drop_first())
    } else {
        s
    }
}

/// `s` without its trailing whitespace.
pub open spec fn spec_trim_end(s: Seq<char>) -> Seq<char>
    decreases s.len(),
{
    if s.len() > 0 && is_ws(s.last()) {
        spec_trim_end(s.drop_last())
    } else {
        s
    }
}

/// `s` without whitespace at either end, as `str::trim` answers.
pub open spec fn spec_trim(s: Seq<char>) -> Seq<char> {
    spec_trim_end(spec_trim_start(s))
}

pub fn trim(s: &str) -> (r: &str)
    ensures
        r@ == spec_trim(s@),
{
    let n = s.unicode_len();
    let mut i: usize = 0;
    proof {
        assert(s@.subrange(0, n as int) =~= s@);
    }
    while i < n && is_whitespace(s.get_char(i))
        invariant
            n == s@.len(),
            i <= n,
            spec_trim_start(s@) == spec_trim_start(s@.subrange(i as int, n as int)),
        decreases n - i,
    {
        proof {
            assert(s@.subrange(i as int, n as int).drop_first() =~= s@.subrange(i + 1, n as int));
        }
        i = i + 1;
    }
    proof {
        assert(s@.subrange(0, n as int) =~= s@);
    }
    let mut j: usize = n;
    while j > i && is_whitespace(s.get_char(j - 1))
        invariant
            n == s@.len(),
            i <= j <= n,
            spec_trim_start(s@) == s@.subrange(i as int, n as int),
            spec_trim(s@) == spec_trim_end(s@.subrange(i as int, j as int)),
        decreases j - i,
    {
        proof {
            assert(s@.subrange(i as int, j as int).drop_last() =~= s@.subrange(
                i as int,
                j - 1,
            ));
        }
        j = j - 1;
    }
    s.substring_char(i, j)
}

pub open spec fn is_digit(c: char) -> bool {
    '0' <= c <= '9'
}

/// The number a run of decimal digits spells, most significant first.
pub open spec fn digits_value(s: Seq<char>) -> nat
    decreases s.len(),
{
    if s.len() == 0 {
        0
    } else {
        digits_value(s.drop_last()) * 10 + ((s.last() as u32) - ('0' as u32)) as nat
    }
}

/// What follows an optional leading sign.
pub open spec fn unsigned_part(s: Seq<char>) -> Seq<char> {
    if s.len() > 0 && (s[0] == '-' || s[0] == '+') {
        s.drop_first()
    } else {
        s
    }
}

pub open spec fn all_digits(s: Seq<char>) -> bool {
    forall|i: int| 0 <= i < s.len() ==> is_digit(#[trigger] s[i])
}

/// What `i32::from_str` answers: an optional `+` or `-`, then at least one ASCII digit and
/// nothing else, naming a number that fits in an `i32`.
pub open spec fn spec_parse_i32(s: Seq<char>) -> Option<int> {
    let body = unsigned_part(s);
    if body.len() == 0 || !all_digits(body) {
        None
    } else {
        let magnitude = digits_value(body) as int;
        let v = if s[0] == '-' {
            -magnitude
        } else {
            magnitude
        };
        if i32::MIN <= v <= i32::MAX {
            Some(v)
        } else {
            None
        }
    }
}

/// One more than the largest magnitude any `i32` has.
const PAST_I32: i64 = 2_147_483_649;

pub fn parse_i32(s: &str) -> (r: Option<i32>)
    ensures
        match r {
            Some(v) => spec_parse_i32(s@) == Some(v as int),
            None => spec_parse_i32(s@) is None,
        },
{
    let n = s.unicode_len();
    let mut start: usize = 0;
    let mut negative = false;
    if n > 0 {
        let first = s.get_char(0);
        if first == '-' {
            negative = true;
            start = 1;
        } else if first == '+' {
            start = 1;
        }
    }
    let ghost body = unsigned_part(s@);
    proof {
        assert(body =~= s@.subrange(start as int, n as int));
        assert(negative == (s@.len() > 0 && s@[0] == '-'));
    }
    if start == n {
        assert(body.len() == 0);
        assert(spec_parse_i32(s@) is None);
        return None;
    }
    // The magnitude so far, held at `PAST_I32` once it is out of range, so that it never
    // overflows however many digits follow.
    let mut acc: i64 = 0;
    let mut i: usize = start;
    while i < n
        invariant
            n == s@.len(),
            start <= i <= n,
            body =~= s@.subrange(start as int, n as int),
            body == unsigned_part(s@),
            negative == (s@.len() > 0 && s@[0] == '-'),
            forall|k: int| start <= k < i ==> is_digit(s@[k]),
            acc == (if digits_value(s@.subrange(start as int, i as int)) >= PAST_I32 {
                PAST_I32 as int
            } else {
                digits_value(s@.subrange(start as int, i as int)) as int
            }),
        decreases n - i,
    {
        let c = s.get_char(i);
        if !('0' <= c && c <= '9') {
            assert(body.len() == n - start);
            assert(!is_digit(body[i - start]));
            assert(!all_digits(body));
            assert(spec_parse_i32(s@) is None);
            return None;
        }
        let d = ((c as u32) - ('0' as u32)) as i64;
        proof {
            assert(s@.subrange(start as int, i + 1).drop_last() =~= s@.subrange(
                start as int,
                i as int,
            ));
        }
        if acc >= PAST_I32 {
            acc = PAST_I32;
        } else {
            let next = acc * 10 + d;
            acc = if next >= PAST_I32 {
                PAST_I32
            } else {
                next
            };
        }
        i = i + 1;
    }
    proof {
        assert(s@.subrange(start as int, n as int) =~= body);
        assert forall|k: int| 0 <= k < body.len() implies is_digit(#[trigger] body[k]) by {
            assert(body[k] == s@[start + k]);
        }
    }
    let v: i64 = if negative {
        -acc
    } else {
        acc
    };
    if v < -2_147_483_648 || v > 2_147_483_647 {
        None
    } else {
        Some(v as i32)
    }
}

} // verus!

verus! {

/// How `{:?}` writes a string: in double quotes, with quotes, backslashes and characters that
/// are not printable escaped.
pub uninterp spec fn debug_text(s: Seq<char>) -> Seq<char>;

/// A string as `{:?}` writes it: `format!` calling `<str as Debug>::fmt`. Nothing is claimed of
/// the text beyond its being `debug_text` of the argument.
#[verifier::external_body]
pub(crate) fn quoted(s: &str) -> (r: String)
    ensures
        r@ == debug_text(s@),
{
    format!("{s:?}")
}

/// The strings of `items`, one after the other, with `sep` between each two.
pub open spec fn spec_join_with(items: Seq<Seq<char>>, sep: Seq<char>) -> Seq<char>
    decreases items.len(),
{
    if items.len() == 0 {
        Seq::empty()
    } else if items.len() == 1 {
        items[0]
    } else {
        spec_join_with(items.drop_last(), sep) + sep + items.last()
    }
}

/// The strings of `items`, one after the other, with `sep` between each two.
pub fn join_with(items: &[&str], sep: &str) -> (r: String)
    ensures
        r@ == spec_join_with(items@.map_values(|s: &str| s@), sep@),
{
    let ghost views = items@.map_values(|s: &str| s@);
    let mut out = String::new();
    let mut i: usize = 0;
    proof {
        reveal_strlit("");
    }
    while i < items.len()
        invariant
            i <= items@.len(),
            views == items@.map_values(|s: &str| s@),
            out@ == spec_join_with(views.subrange(0, i as int), sep@),
        decreases items@.len() - i,
    {
        proof {
            assert(views.subrange(0, i + 1).drop_last() =~= views.subrange(0, i as int));
        }
        if i > 0 {
            out.append(sep);
        } else {
            assert(views.subrange(0, 1) =~= seq![views[0]]);
        }
        out.append(items[i]);
        i = i + 1;
    }
    proof {
        assert(views.subrange(0, items@.len() as int) =~= views);
    }
    out
}

} // verus!
