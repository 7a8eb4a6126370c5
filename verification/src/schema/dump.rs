//! Every setting at its declared default, as annotated TOML.
//!
//! The second layer of the drift defense: copy the section for one component into that
//! component's own tests and assert that its types accept it, and a key this table has that
//! the owner does not know about is a failing test in the owner's repo rather than a user's
//! whole config file being rejected at runtime.
//!
//! Deliberately not valid as a drop-in config: settings with no default are emitted commented
//! out, because writing `layout = ""` would be writing a value, and an empty layout is not what
//! "let libxkbcommon decide" means.
use vstd::prelude::*;

use super::table::{settings, table, SETTING_COUNT};
use super::{spec_in_namespace, in_namespace, Kind, Setting};
use crate::paths::{all, spec_all, spec_file_name, spec_namespace};
use crate::text::{debug_text, int_text, owned, quoted, spec_int_text, spec_join_with};

verus! {

/// The comment the dump starts with.
pub open spec fn dump_header() -> Seq<char> {
    "# Every wlRIX setting the settings daemon knows about, at its declared default.\n#\n# Generated by `wlrix-settings-daemon --dump-schema`. Not a config file to install:\n# each block below belongs in a different file, and settings with no default are\n# commented out because absent and empty do not mean the same thing.\n"@
}

/// A list of strings as `{:?}` writes it: `[` and `]` round the quoted items, with `, `
/// between them.
pub open spec fn debug_list(items: Seq<&'static str>) -> Seq<char> {
    "["@ + spec_join_with(items.map_values(|s: &'static str| debug_text(s@)), ", "@) + "]"@
}

/// A decimal written so TOML reads it as a float: with a decimal point, `.0` added to a whole
/// number. `deadzone = 0` is a parse error for a field declared `f32`.
pub open spec fn float_literal(text: Seq<char>) -> Seq<char> {
    if text.contains('.') {
        text
    } else {
        text + ".0"@
    }
}

/// A setting's default as it would be written in TOML, if it has one.
pub open spec fn spec_default_literal(kind: Kind) -> Option<Seq<char>> {
    match kind {
        Kind::Bool { default } => match default {
            Some(true) => Some("true"@),
            Some(false) => Some("false"@),
            None => None,
        },
        Kind::Int { default, .. } => match default {
            Some(v) => Some(spec_int_text(v as int)),
            None => None,
        },
        Kind::Float { default, .. } => match default {
            Some(lit) => Some(float_literal(lit.text@)),
            None => None,
        },
        Kind::Str { default } => match default {
            Some(v) => Some(debug_text(v@)),
            None => None,
        },
        Kind::Enum { default, .. } => match default {
            Some(v) => Some(debug_text(v@)),
            None => None,
        },
        Kind::StrList { default } => Some(debug_list(default@)),
    }
}

/// The lines for one setting: a `[section]` header when its path enters a section other than
/// `current`, its summary as a comment, and its default -- or, for a setting with none, the
/// key commented out.
pub open spec fn setting_lines(setting: Setting, current: Option<Seq<char>>) -> Seq<char> {
    let path = setting.path@;
    let header = if path.len() == 2 && current != Some(path[0]@) {
        "\n["@ + path[0]@ + "]\n"@
    } else {
        Seq::empty()
    };
    let leaf = if path.len() > 0 {
        path.last()@
    } else {
        Seq::empty()
    };
    let line = match spec_default_literal(setting.kind) {
        Some(value) => leaf + " = "@ + value + "\n"@,
        None => "# "@ + leaf + " =    # no default; unset by default\n"@,
    };
    header + "# "@ + setting.summary@ + "\n"@ + line
}

/// The section a setting leaves the dump in.
pub open spec fn section_after(setting: Setting, current: Option<Seq<char>>) -> Option<Seq<char>> {
    if setting.path@.len() == 2 {
        Some(setting.path@[0]@)
    } else {
        current
    }
}

/// The lines for the settings from position `i` on, starting in section `current`.
pub open spec fn settings_lines(list: Seq<Setting>, i: int, current: Option<Seq<char>>) -> Seq<char>
    decreases list.len() - i,
{
    if i < 0 || i >= list.len() {
        Seq::empty()
    } else {
        setting_lines(list[i], current) + settings_lines(list, i + 1, section_after(list[i], current))
    }
}

/// One file's block: a banner naming the file, then its settings. A file with no settings has
/// no block.
pub open spec fn file_block(k: int) -> Seq<char> {
    let file = spec_all()[k];
    let list = spec_in_namespace(spec_namespace(file));
    if list.len() == 0 {
        Seq::empty()
    } else {
        "\n# ---- "@ + spec_file_name(file) + " ----\n"@ + settings_lines(list, 0, None)
    }
}

/// The blocks of the files from position `k` on.
pub open spec fn blocks_from(k: int) -> Seq<char>
    decreases spec_all().len() - k,
{
    if k < 0 || k >= spec_all().len() {
        Seq::empty()
    } else {
        file_block(k) + blocks_from(k + 1)
    }
}

/// Every setting at its declared default, as annotated TOML, file by file.
pub open spec fn spec_dump() -> Seq<char> {
    dump_header() + blocks_from(0)
}

/// A list of strings as `{:?}` writes it.
fn list_literal(items: &'static [&'static str]) -> (r: String)
    ensures
        r@ == debug_list(items@),
{
    let mut quoted_items: Vec<String> = Vec::new();
    let mut i: usize = 0;
    while i < items.len()
        invariant
            i <= items@.len(),
            quoted_items@.len() == i,
            forall|j: int| 0 <= j < i ==> quoted_items@[j]@ == debug_text(items@[j]@),
        decreases items@.len() - i,
    {
        quoted_items.push(quoted(items[i]));
        i = i + 1;
    }
    let mut refs: Vec<&str> = Vec::new();
    let mut j: usize = 0;
    while j < quoted_items.len()
        invariant
            j <= quoted_items@.len(),
            refs@.len() == j,
            forall|m: int| 0 <= m < j ==> refs@[m]@ == quoted_items@[m]@,
        decreases quoted_items@.len() - j,
    {
        refs.push(quoted_items[j].as_str());
        j = j + 1;
    }
    proof {
        assert(refs@.map_values(|s: &str| s@) =~= items@.map_values(
            |s: &'static str| debug_text(s@),
        ));
    }
    let joined = crate::text::join_with(refs.as_slice(), ", ");
    let mut out = owned("[");
    out.append(joined.as_str());
    out.append("]");
    out
}

/// A decimal written so TOML reads it as a float.
fn float_text(text: &str) -> (r: String)
    ensures
        r@ == float_literal(text@),
{
    let mut out = owned(text);
    if !crate::text::contains_char(text, '.') {
        out.append(".0");
    }
    out
}

/// A setting's default as it would be written in TOML, if it has one.
pub fn default_literal(kind: &Kind) -> (r: Option<String>)
    ensures
        match r {
            Some(text) => spec_default_literal(*kind) == Some(text@),
            None => spec_default_literal(*kind) is None,
        },
{
    match kind {
        Kind::Bool { default } => match default {
            Some(true) => Some(owned("true")),
            Some(false) => Some(owned("false")),
            None => None,
        },
        Kind::Int { default, .. } => match default {
            Some(v) => Some(int_text(*v)),
            None => None,
        },
        Kind::Float { default, .. } => match default {
            Some(lit) => Some(float_text(lit.text)),
            None => None,
        },
        Kind::Str { default } => match default {
            Some(v) => Some(quoted(v)),
            None => None,
        },
        Kind::Enum { default, .. } => match default {
            Some(v) => Some(quoted(v)),
            None => None,
        },
        Kind::StrList { default } => Some(list_literal(default)),
    }
}

/// Append the lines for one setting.
fn push_setting(out: &mut String, setting: &Setting, current: Option<&'static str>)
    ensures
        final(out)@ == old(out)@ + setting_lines(
            *setting,
            match current {
                Some(c) => Some(c@),
                None => None,
            },
        ),
{
    let ghost cur = match current {
        Some(c) => Some(c@),
        None => None::<Seq<char>>,
    };
    let path = setting.path;
    if path.len() == 2 {
        let entering = match current {
            Some(c) => !crate::text::str_eq(c, path[0]),
            None => true,
        };
        if entering {
            out.append("\n[");
            out.append(path[0]);
            out.append("]\n");
        }
    }
    out.append("# ");
    out.append(setting.summary);
    out.append("\n");
    let leaf: &str = if path.len() > 0 {
        path[path.len() - 1]
    } else {
        ""
    };
    proof {
        reveal_strlit("");
    }
    match default_literal(&setting.kind) {
        Some(value) => {
            out.append(leaf);
            out.append(" = ");
            out.append(value.as_str());
            out.append("\n");
        },
        None => {
            out.append("# ");
            out.append(leaf);
            out.append(" =    # no default; unset by default\n");
        },
    }
    proof {
        assert(final(out)@ =~= old(out)@ + setting_lines(*setting, cur));
    }
}

/// Every setting at its declared default, as annotated TOML.
pub fn dump() -> (r: String)
    ensures
        r@ == spec_dump(),
{
    let mut out = owned(
        "# Every wlRIX setting the settings daemon knows about, at its declared default.\n#\n# Generated by `wlrix-settings-daemon --dump-schema`. Not a config file to install:\n# each block below belongs in a different file, and settings with no default are\n# commented out because absent and empty do not mean the same thing.\n",
    );
    let files = all();
    let mut k: usize = 0;
    proof {
        crate::paths::lemma_files();
    }
    while k < files.len()
        invariant
            files@ == spec_all(),
            k <= files@.len(),
            out@ + blocks_from(k as int) == spec_dump(),
        decreases files@.len() - k,
    {
        let ghost before = out@;
        let file = files[k];
        let list = in_namespace(file.namespace());
        if list.len() > 0 {
            out.append("\n# ---- ");
            let name = file.file_name();
            out.append(name.as_str());
            out.append(" ----\n");
            let ghost banner = out@;
            let mut current: Option<&'static str> = None;
            let mut i: usize = 0;
            while i < list.len()
                invariant
                    i <= list@.len(),
                    out@ + settings_lines(
                        list@,
                        i as int,
                        match current {
                            Some(c) => Some(c@),
                            None => None,
                        },
                    ) == banner + settings_lines(list@, 0, None),
                decreases list@.len() - i,
            {
                let ghost cur = match current {
                    Some(c) => Some(c@),
                    None => None::<Seq<char>>,
                };
                let ghost mid = out@;
                push_setting(&mut out, &list[i], current);
                let setting = list[i];
                if setting.path.len() == 2 {
                    current = Some(setting.path[0]);
                }
                proof {
                    assert(mid + settings_lines(list@, i as int, cur) =~= out@ + settings_lines(
                        list@,
                        i + 1,
                        section_after(list@[i as int], cur),
                    ));
                }
                i = i + 1;
            }
            proof {
                assert(out@ =~= banner + settings_lines(list@, 0, None));
                assert(out@ =~= before + file_block(k as int));
            }
        } else {
            proof {
                assert(file_block(k as int) =~= Seq::<char>::empty());
            }
        }
        proof {
            assert(before + blocks_from(k as int) =~= before + file_block(k as int) + blocks_from(
                k + 1,
            ));
            assert(out@ + blocks_from(k + 1) =~= before + blocks_from(k as int));
        }
        k = k + 1;
    }
    proof {
        assert(out@ =~= spec_dump());
    }
    out
}

} // verus!
