//! One setting the *desktop* has, which several config files each hold a copy of.
//!
//! A color scheme has to reach the compositor's window chrome, the desktop's icons, the tray
//! and the screenshot overlay at once, and each of those reads it out of its own file. A
//! [`Group`] is one key on top that fans out to all of them. The members are ordinary
//! settings, writable and resettable on their own.
//!
//! `appearance.palette` is a [`Kind::Str`], not an enum listing the schemes this build ships:
//! the schemes live in `wlrix-assets`, and a list of them here would be one more hand-kept copy.
use vstd::prelude::*;

use super::{lookup, spec_lookup, Kind, Setting};
use super::table::table;
use crate::text::str_eq;

verus! {

/// A key that stands for the same setting in several files.
#[derive(Debug, Clone, Copy)]
pub struct Group {
    /// The bus key. Its prefix is a *category*, not a namespace: there is no
    /// `appearance.toml`.
    pub key: &'static str,
    /// The keys it expands to, in the order they are written.
    pub members: &'static [&'static str],
    /// The type of the value, which is every member's type.
    pub kind: Kind,
    /// One line, for a label or a tooltip.
    pub summary: &'static str,
    /// The longer version, for the panel's help text.
    pub description: &'static str,
}

/// Every fan-out key the daemon serves.
pub open spec fn group_table() -> Seq<Group> {
    seq![
        Group {
            key: "appearance.palette",
            members: &[
                "compositor.appearance.palette",
                "desktop.appearance.palette",
                "screenshot.appearance.palette",
                "tray.appearance.palette",
            ],
            kind: Kind::Str { default: None },
            summary: "Color scheme",
            description: "The scheme everything wlRIX draws is colored from -- window chrome, desktop \
                          icons, the tray, the screenshot overlay and the applications. A scheme id \
                          from wlrix-ui: classic, classic-g10, classic-g24, gotham. Empty or \
                          unrecognized means the default, with a line in each component's log for the \
                          latter. Writing this writes every component's own key; each can still be set \
                          on its own for a session that wants one of them different.",
        },
    ]
}

/// Every fan-out key the daemon serves: the value of [`group_table`].
pub fn groups() -> (r: Vec<Group>)
    ensures
        r@ == group_table(),
{
    // The compositor first: it draws the window chrome, which is the surface a person watching
    // for the change looks at. The order is otherwise the file order.
    let r = vec![
        Group {
            key: "appearance.palette",
            members: &[
                "compositor.appearance.palette",
                "desktop.appearance.palette",
                "screenshot.appearance.palette",
                "tray.appearance.palette",
            ],
            kind: Kind::Str { default: None },
            summary: "Color scheme",
            description: "The scheme everything wlRIX draws is colored from -- window chrome, desktop \
                          icons, the tray, the screenshot overlay and the applications. A scheme id \
                          from wlrix-ui: classic, classic-g10, classic-g24, gotham. Empty or \
                          unrecognized means the default, with a line in each component's log for the \
                          latter. Writing this writes every component's own key; each can still be set \
                          on its own for a session that wants one of them different.",
        },
    ];
    assert(r@ =~= group_table());
    r
}

/// Whether any of `members` is `key`.
pub open spec fn names_member(members: Seq<&'static str>, key: Seq<char>) -> bool {
    exists|i: int| 0 <= i < members.len() && members[i]@ == key
}

/// The group this key names, if it is one: the first in [`group_table`] with that key.
pub fn lookup_group(key: &str) -> (r: Option<Group>)
    ensures
        match r {
            Some(group) => exists|i: int|
                0 <= i < group_table().len() && group_table()[i] == group && group.key@ == key@
                    && forall|j: int| 0 <= j < i ==> group_table()[j].key@ != key@,
            None => forall|i: int|
                0 <= i < group_table().len() ==> group_table()[i].key@ != key@,
        },
{
    let all_groups = groups();
    let mut i: usize = 0;
    while i < all_groups.len()
        invariant
            all_groups@ == group_table(),
            i <= all_groups@.len(),
            forall|j: int| 0 <= j < i ==> group_table()[j].key@ != key@,
        decreases all_groups@.len() - i,
    {
        let group = all_groups[i];
        if str_eq(group.key, key) {
            return Some(group);
        }
        i = i + 1;
    }
    None
}

/// Whether one of the strings in `list` is `key`.
pub fn list_contains(list: &[&'static str], key: &str) -> (r: bool)
    ensures
        r == names_member(list@, key@),
{
    let mut i: usize = 0;
    while i < list.len()
        invariant
            i <= list@.len(),
            forall|j: int| 0 <= j < i ==> list@[j]@ != key@,
        decreases list@.len() - i,
    {
        if str_eq(list[i], key) {
            return true;
        }
        i = i + 1;
    }
    false
}

/// The group a member key belongs to, if any: the first in [`group_table`] listing it.
///
/// The reverse lookup, used when announcing a change: a hand-edit of `compositor.toml` has to
/// reach a client watching only `appearance.palette`.
pub fn group_of(member: &str) -> (r: Option<Group>)
    ensures
        match r {
            Some(group) => exists|i: int|
                0 <= i < group_table().len() && group_table()[i] == group && names_member(
                    group.members@,
                    member@,
                ) && forall|j: int|
                    0 <= j < i ==> !names_member(group_table()[j].members@, member@),
            None => forall|i: int|
                0 <= i < group_table().len() ==> !names_member(group_table()[i].members@, member@),
        },
{
    let all_groups = groups();
    let mut i: usize = 0;
    while i < all_groups.len()
        invariant
            all_groups@ == group_table(),
            i <= all_groups@.len(),
            forall|j: int| 0 <= j < i ==> !names_member(group_table()[j].members@, member@),
        decreases all_groups@.len() - i,
    {
        let group = all_groups[i];
        if list_contains(group.members, member) {
            return Some(group);
        }
        i = i + 1;
    }
    None
}

/// The settings a list of member keys names, in order, skipping any that name none.
pub open spec fn resolve_members(members: Seq<&'static str>) -> Seq<Setting>
    decreases members.len(),
{
    if members.len() == 0 {
        Seq::empty()
    } else {
        let rest = resolve_members(members.drop_last());
        match spec_lookup(members.last()@) {
            Some(i) => rest.push(table()[i]),
            None => rest,
        }
    }
}

impl Group {
    /// The members, resolved, in the order they are written.
    pub fn settings(&self) -> (r: Vec<Setting>)
        ensures
            r@ == resolve_members(self.members@),
    {
        let mut out: Vec<Setting> = Vec::new();
        let mut i: usize = 0;
        while i < self.members.len()
            invariant
                i <= self.members@.len(),
                out@ == resolve_members(self.members@.subrange(0, i as int)),
            decreases self.members@.len() - i,
        {
            proof {
                assert(self.members@.subrange(0, i + 1).drop_last() =~= self.members@.subrange(
                    0,
                    i as int,
                ));
            }
            match lookup(self.members[i]) {
                Some(setting) => out.push(setting),
                None => {},
            }
            i = i + 1;
        }
        proof {
            assert(self.members@.subrange(0, self.members@.len() as int) =~= self.members@);
        }
        out
    }
}

} // verus!
