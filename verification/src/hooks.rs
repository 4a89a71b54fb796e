//! Hook entries in configuration trees: which ones are ours, how they are taken
//! out, how they are put in, and what of a shared file this leaves alone.
//!
//! A settings tree has a `hooks` table from event names to arrays of entries. In
//! the nested shape an entry is a group whose own `hooks` array holds the hook
//! definitions; in the flat shape an entry is a hook definition itself.

use crate::text;
use crate::text::holds;
use crate::tree::{
    entries, field, find_key, key_pos, lemma_array_view, lemma_key_pos, lemma_key_pos_is,
    lemma_sorted_extensional, lemma_table_view, lemma_with_key, lemma_without_key, lookup, set_key,
    sorted, text_field, views, well_formed, with_key, without_key, Leaf, Node, Tree,
};
use vstd::prelude::*;

verus! {

/// Every hook command that this program writes ends with this shell comment, and
/// nothing else does: it is what marks an entry as ours.
pub const MARKER: &'static str = "# sailor-hook";

/// How the entries under an event are laid out.
#[derive(Debug, Clone, Copy, PartialEq, Eq, Structural)]
pub enum Shape {
    /// An entry is a group with a `hooks` array of definitions.
    Nested,
    /// An entry is a definition.
    Flat,
}

// ---------------------------------------------------------------------------
// What is ours
// ---------------------------------------------------------------------------

/// A hook definition is ours when its command carries the marker.
pub open spec fn is_owned<L>(hook: Tree<L>) -> bool {
    match text_field(hook, "command"@) {
        Some(c) => holds(c, MARKER@),
        None => false,
    }
}

/// The definitions that are not ours, in order.
pub open spec fn foreign<L>(list: Seq<Tree<L>>) -> Seq<Tree<L>>
    decreases list.len(),
{
    if list.len() == 0 {
        Seq::empty()
    } else if is_owned(list.last()) {
        foreign(list.drop_last())
    } else {
        foreign(list.drop_last()).push(list.last())
    }
}

/// What is left of an entry without our definitions; `None` where nothing is.
pub open spec fn kept<L>(shape: Shape, entry: Tree<L>) -> Option<Tree<L>> {
    match shape {
        Shape::Nested => match entry {
            Tree::Table(m) => match lookup(m, "hooks"@) {
                Some(Tree::Array(list)) => if foreign(list).len() == 0 {
                    None
                } else {
                    Some(Tree::Table(with_key(m, "hooks"@, Tree::Array(foreign(list)))))
                },
                _ => Some(entry),
            },
            _ => Some(entry),
        },
        Shape::Flat => if is_owned(entry) {
            None
        } else {
            Some(entry)
        },
    }
}

/// How many of our definitions an entry holds.
pub open spec fn owned_in<L>(shape: Shape, entry: Tree<L>) -> nat {
    match shape {
        Shape::Nested => match field(entry, "hooks"@) {
            Some(Tree::Array(list)) => (list.len() - foreign(list).len()) as nat,
            _ => 0,
        },
        Shape::Flat => if is_owned(entry) {
            1
        } else {
            0
        },
    }
}

/// What is left of the entries under an event.
pub open spec fn kept_entries<L>(shape: Shape, list: Seq<Tree<L>>) -> Seq<Tree<L>>
    decreases list.len(),
{
    if list.len() == 0 {
        Seq::empty()
    } else {
        let rest = kept_entries(shape, list.drop_last());
        match kept(shape, list.last()) {
            Some(e) => rest.push(e),
            None => rest,
        }
    }
}

/// How many of our definitions the entries under an event hold.
pub open spec fn owned_entries<L>(shape: Shape, list: Seq<Tree<L>>) -> nat
    decreases list.len(),
{
    if list.len() == 0 {
        0
    } else {
        owned_entries(shape, list.drop_last()) + owned_in(shape, list.last())
    }
}

/// What is left of the value under an event; `None` where it ends up an empty
/// array. A value that is no array is nobody's hook list and stays.
pub open spec fn kept_event<L>(shape: Shape, value: Tree<L>) -> Option<Tree<L>> {
    match value {
        Tree::Array(list) => if kept_entries(shape, list).len() == 0 {
            None
        } else {
            Some(Tree::Array(kept_entries(shape, list)))
        },
        _ => Some(value),
    }
}

/// How many of our definitions stand under an event.
pub open spec fn owned_event<L>(shape: Shape, value: Tree<L>) -> nat {
    match value {
        Tree::Array(list) => owned_entries(shape, list),
        _ => 0,
    }
}

/// What is left of a `hooks` table.
pub open spec fn kept_events<L>(shape: Shape, m: Seq<(Seq<char>, Tree<L>)>) -> Seq<
    (Seq<char>, Tree<L>),
>
    decreases m.len(),
{
    if m.len() == 0 {
        Seq::empty()
    } else {
        let rest = kept_events(shape, m.drop_last());
        match kept_event(shape, m.last().1) {
            Some(v) => rest.push((m.last().0, v)),
            None => rest,
        }
    }
}

/// How many of our definitions a `hooks` table holds.
pub open spec fn owned_events<L>(shape: Shape, m: Seq<(Seq<char>, Tree<L>)>) -> nat
    decreases m.len(),
{
    if m.len() == 0 {
        0
    } else {
        owned_events(shape, m.drop_last()) + owned_event(shape, m.last().1)
    }
}

/// A settings tree without our definitions, and without the groups, events and
/// `hooks` table that are empty then.
pub open spec fn stripped<L>(shape: Shape, t: Tree<L>) -> Tree<L> {
    match t {
        Tree::Table(root) => match lookup(root, "hooks"@) {
            Some(Tree::Table(h)) => if kept_events(shape, h).len() == 0 {
                Tree::Table(without_key(root, "hooks"@))
            } else {
                Tree::Table(with_key(root, "hooks"@, Tree::Table(kept_events(shape, h))))
            },
            _ => t,
        },
        _ => t,
    }
}

/// How many of our definitions a settings tree holds.
pub open spec fn owned_total<L>(shape: Shape, t: Tree<L>) -> nat {
    match field(t, "hooks"@) {
        Some(Tree::Table(h)) => owned_events(shape, h),
        _ => 0,
    }
}

// ---------------------------------------------------------------------------
// Putting entries in
// ---------------------------------------------------------------------------

/// A `hooks` table with one more entry under an event. What stands there and is
/// no array gives way.
pub open spec fn appended<L>(
    m: Seq<(Seq<char>, Tree<L>)>,
    event: Seq<char>,
    entry: Tree<L>,
) -> Seq<(Seq<char>, Tree<L>)> {
    match lookup(m, event) {
        Some(Tree::Array(list)) => with_key(m, event, Tree::Array(list.push(entry))),
        _ => with_key(m, event, Tree::Array(seq![entry])),
    }
}

/// A `hooks` table with an entry more for each event of a list.
pub open spec fn appended_all<L>(
    m: Seq<(Seq<char>, Tree<L>)>,
    list: Seq<(Seq<char>, Tree<L>)>,
) -> Seq<(Seq<char>, Tree<L>)>
    decreases list.len(),
{
    if list.len() == 0 {
        m
    } else {
        appended(appended_all(m, list.drop_last()), list.last().0, list.last().1)
    }
}

/// The `hooks` table of a settings table: an empty one where there is none, and
/// `None` where something else stands under that key.
pub open spec fn hook_table<L>(root: Seq<(Seq<char>, Tree<L>)>) -> Option<
    Seq<(Seq<char>, Tree<L>)>,
> {
    match lookup(root, "hooks"@) {
        None => Some(Seq::empty()),
        Some(Tree::Table(h)) => Some(h),
        _ => None,
    }
}

/// Entries can be put into a tree: it is a table, and its `hooks` are one or absent.
pub open spec fn takes_hooks<L>(t: Tree<L>) -> bool {
    match t {
        Tree::Table(root) => hook_table(root) is Some,
        _ => false,
    }
}

/// A settings tree with an entry more for each event of a list.
pub open spec fn extended<L>(t: Tree<L>, list: Seq<(Seq<char>, Tree<L>)>) -> Tree<L> {
    match t {
        Tree::Table(root) => match hook_table(root) {
            Some(h) => Tree::Table(
                with_key(root, "hooks"@, Tree::Table(appended_all(h, list))),
            ),
            None => t,
        },
        _ => t,
    }
}

/// A settings tree in which our entries are exactly those of a list.
pub open spec fn installed<L>(
    shape: Shape,
    t: Tree<L>,
    list: Seq<(Seq<char>, Tree<L>)>,
) -> Tree<L> {
    extended(stripped(shape, t), list)
}

/// Every entry of the list holds one definition, which is ours.
pub open spec fn all_ours<L>(shape: Shape, list: Seq<(Seq<char>, Tree<L>)>) -> bool {
    forall|i: int|
        0 <= i < list.len() ==> kept(shape, (#[trigger] list[i]).1) is None && owned_in(
            shape,
            list[i].1,
        ) == 1
}

/// The entries under an event of a settings tree.
pub open spec fn entries_under<L>(t: Tree<L>, event: Seq<char>) -> Seq<Tree<L>> {
    match field(t, "hooks"@) {
        Some(h) => match field(h, event) {
            Some(Tree::Array(list)) => list,
            _ => Seq::empty(),
        },
        None => Seq::empty(),
    }
}

// ---------------------------------------------------------------------------
// Taking out: code
// ---------------------------------------------------------------------------

/// `n`, or the greatest `usize` where it is more.
pub open spec fn clamped(n: nat) -> usize {
    if n <= usize::MAX {
        n as usize
    } else {
        usize::MAX
    }
}

/// The sum, or the greatest `usize`.
pub fn clamped_sum(a: usize, b: usize) -> (r: usize)
    ensures
        forall|x: nat, y: nat|
            #![trigger clamped(x), clamped(y)]
            a == clamped(x) && b == clamped(y) ==> r == clamped(x + y),
{
    if a > usize::MAX - b {
        usize::MAX
    } else {
        a + b
    }
}

/// Whether a hook definition is ours.
pub fn is_sailor_hook<L>(hook: &Node<L>) -> (r: bool)
    ensures
        r == is_owned(hook@),
{
    match hook.get_str("command") {
        Some(c) => text::contains(c, MARKER),
        None => false,
    }
}

pub proof fn lemma_foreign_len<L>(list: Seq<Tree<L>>)
    ensures
        foreign(list).len() <= list.len(),
    decreases list.len(),
{
    if list.len() > 0 {
        lemma_foreign_len(list.drop_last());
    }
}

/// Takes our definitions out of a list of definitions.
pub fn drop_owned<L>(list: Vec<Node<L>>) -> (r: Vec<Node<L>>)
    ensures
        views(r@) == foreign(views(list@)),
{
    let mut out: Vec<Node<L>> = Vec::new();
    let ghost all = views(list@);
    for hook in it: list
        invariant
            all == views(list@),
            it.seq() == list@,
            views(out@) == foreign(all.take(it.index() as int)),
    {
        let ghost before = out@;
        let ghost i = it.index() as int;
        proof {
            assert(all.take(i + 1).drop_last() =~= all.take(i));
            assert(all.take(i + 1).last() == hook@);
        }
        if !is_sailor_hook(&hook) {
            out.push(hook);
            assert(views(out@) =~= views(before).push(hook@));
        }
    }
    assert(all.take(all.len() as int) =~= all);
    out
}

/// Takes our definitions out of an entry; gives what is left and how many went.
fn drop_from_entry<L>(shape: Shape, entry: Node<L>) -> (r: (Option<Node<L>>, usize))
    ensures
        match r.0 {
            Some(e) => kept(shape, entry@) == Some(e@),
            None => kept(shape, entry@) is None,
        },
        r.1 == owned_in(shape, entry@),
{
    broadcast use {lemma_array_view, lemma_table_view};

    match shape {
        Shape::Flat => {
            if is_sailor_hook(&entry) {
                (None, 1)
            } else {
                (Some(entry), 0)
            }
        },
        Shape::Nested => {
            match entry {
                Node::Table(m) => {
                    let ghost whole = Node::Table(m)@;
                    let mut m = m;
                    let ghost shown = entries(m@);
                    match find_key(&m, "hooks") {
                        Some(i) => {
                            let (key, value) = m.remove(i);
                            assert(shown[i as int] == (key@, value@));
                            match value {
                                Node::Array(list) => {
                                    let before = list.len();
                                    let ghost old_list = views(list@);
                                    let left = drop_owned(list);
                                    proof {
                                        lemma_foreign_len(old_list);
                                        lemma_key_pos(shown, "hooks"@);
                                    }
                                    let gone = before - left.len();
                                    if left.len() == 0 {
                                        (None, gone)
                                    } else {
                                        let ghost left_view = Node::Array(left)@;
                                        m.insert(i, (key, Node::Array(left)));
                                        assert(entries(m@) =~= shown.update(
                                            i as int,
                                            ("hooks"@, left_view),
                                        ));
                                        (Some(Node::Table(m)), gone)
                                    }
                                },
                                other => {
                                    m.insert(i, (key, other));
                                    assert(entries(m@) =~= shown);
                                    (Some(Node::Table(m)), 0)
                                },
                            }
                        },
                        None => (Some(Node::Table(m)), 0),
                    }
                },
                other => (Some(other), 0),
            }
        },
    }
}

/// Takes our definitions out of the entries under an event.
fn drop_from_entries<L>(shape: Shape, list: Vec<Node<L>>) -> (r: (Vec<Node<L>>, usize))
    ensures
        views(r.0@) == kept_entries(shape, views(list@)),
        r.1 == clamped(owned_entries(shape, views(list@))),
{
    let mut out: Vec<Node<L>> = Vec::new();
    let mut gone: usize = 0;
    let ghost all = views(list@);
    for entry in it: list
        invariant
            all == views(list@),
            it.seq() == list@,
            views(out@) == kept_entries(shape, all.take(it.index() as int)),
            gone == clamped(owned_entries(shape, all.take(it.index() as int))),
    {
        let ghost before = out@;
        let ghost i = it.index() as int;
        proof {
            assert(all.take(i + 1).drop_last() =~= all.take(i));
            assert(all.take(i + 1).last() == entry@);
        }
        let (left, n) = drop_from_entry(shape, entry);
        assert(n == clamped(owned_in(shape, entry@)));
        gone = clamped_sum(gone, n);
        match left {
            Some(e) => {
                out.push(e);
                assert(views(out@) =~= views(before).push(e@));
            },
            None => {},
        }
    }
    assert(all.take(all.len() as int) =~= all);
    (out, gone)
}

/// Takes our definitions out of the value under an event.
fn drop_from_event<L>(shape: Shape, value: Node<L>) -> (r: (Option<Node<L>>, usize))
    ensures
        match r.0 {
            Some(v) => kept_event(shape, value@) == Some(v@),
            None => kept_event(shape, value@) is None,
        },
        r.1 == clamped(owned_event(shape, value@)),
{
    broadcast use lemma_array_view;

    match value {
        Node::Array(list) => {
            let (left, gone) = drop_from_entries(shape, list);
            if left.len() == 0 {
                (None, gone)
            } else {
                (Some(Node::Array(left)), gone)
            }
        },
        other => (Some(other), 0),
    }
}

/// Takes our definitions out of a `hooks` table.
fn drop_from_events<L>(shape: Shape, m: Vec<(String, Node<L>)>) -> (r: (
    Vec<(String, Node<L>)>,
    usize,
))
    ensures
        entries(r.0@) == kept_events(shape, entries(m@)),
        r.1 == clamped(owned_events(shape, entries(m@))),
{
    let mut out: Vec<(String, Node<L>)> = Vec::new();
    let mut gone: usize = 0;
    let ghost all = entries(m@);
    for pair in it: m
        invariant
            all == entries(m@),
            it.seq() == m@,
            entries(out@) == kept_events(shape, all.take(it.index() as int)),
            gone == clamped(owned_events(shape, all.take(it.index() as int))),
    {
        let ghost before = out@;
        let ghost i = it.index() as int;
        proof {
            assert(all.take(i + 1).drop_last() =~= all.take(i));
            assert(all.take(i + 1).last() == (pair.0@, pair.1@));
        }
        let (event, value) = pair;
        let (left, n) = drop_from_event(shape, value);
        gone = clamped_sum(gone, n);
        match left {
            Some(v) => {
                out.push((event, v));
                assert(entries(out@) =~= entries(before).push((event@, v@)));
            },
            None => {},
        }
    }
    assert(all.take(all.len() as int) =~= all);
    (out, gone)
}

/// Takes our definitions out of a settings tree and says how many there were.
pub fn strip<L>(settings: Node<L>, shape: Shape) -> (r: (Node<L>, usize))
    ensures
        r.0@ == stripped(shape, settings@),
        r.1 == clamped(owned_total(shape, settings@)),
{
    broadcast use lemma_table_view;

    match settings {
        Node::Table(root) => {
            let mut root = root;
            let ghost shown = entries(root@);
            match find_key(&root, "hooks") {
                Some(i) => {
                    let (key, value) = root.remove(i);
                    assert(shown[i as int] == (key@, value@));
                    proof {
                        lemma_key_pos(shown, "hooks"@);
                    }
                    match value {
                        Node::Table(h) => {
                            let (left, gone) = drop_from_events(shape, h);
                            if left.len() == 0 {
                                assert(entries(root@) =~= shown.remove(i as int));
                                (Node::Table(root), gone)
                            } else {
                                let ghost left_view = Node::Table(left)@;
                                root.insert(i, (key, Node::Table(left)));
                                assert(entries(root@) =~= shown.update(
                                    i as int,
                                    ("hooks"@, left_view),
                                ));
                                (Node::Table(root), gone)
                            }
                        },
                        other => {
                            root.insert(i, (key, other));
                            assert(entries(root@) =~= shown);
                            (Node::Table(root), 0)
                        },
                    }
                },
                None => (Node::Table(root), 0),
            }
        },
        other => (other, 0),
    }
}

/// Whether any definition of a list is ours.
pub fn any_owned<L>(list: &Vec<Node<L>>) -> (r: bool)
    ensures
        r == (foreign(views(list@)).len() < list@.len()),
{
    let ghost all = views(list@);
    let mut i: usize = 0;
    assert(all.take(0) =~= Seq::empty());
    while i < list.len()
        invariant
            i <= list@.len(),
            all == views(list@),
            foreign(all.take(i as int)).len() == i,
        decreases list@.len() - i,
    {
        proof {
            assert(all.take(i + 1).drop_last() =~= all.take(i as int));
            assert(all.take(i + 1).last() == list@[i as int]@);
        }
        if is_sailor_hook(&list[i]) {
            proof {
                lemma_foreign_cut(all, i + 1);
            }
            return true;
        }
        i += 1;
    }
    assert(all.take(all.len() as int) =~= all);
    false
}

/// A list has at least as many definitions of ours as its beginning.
proof fn lemma_foreign_cut<L>(list: Seq<Tree<L>>, n: int)
    requires
        0 <= n <= list.len(),
    ensures
        list.len() - foreign(list).len() >= n - foreign(list.take(n)).len(),
    decreases list.len(),
{
    if n < list.len() {
        lemma_foreign_cut(list.drop_last(), n);
        assert(list.drop_last().take(n) =~= list.take(n));
    } else {
        assert(list.take(n) =~= list);
    }
}

/// Whether an entry holds a definition of ours.
fn entry_has_owned<L>(shape: Shape, entry: &Node<L>) -> (r: bool)
    ensures
        r == (owned_in(shape, entry@) > 0),
{
    broadcast use lemma_array_view;

    match shape {
        Shape::Flat => is_sailor_hook(entry),
        Shape::Nested => match entry.get("hooks") {
            Some(Node::Array(list)) => {
                proof {
                    lemma_foreign_len(views(list@));
                }
                any_owned(list)
            },
            _ => false,
        },
    }
}

/// Whether the value under an event holds a definition of ours.
fn event_has_owned<L>(shape: Shape, value: &Node<L>) -> (r: bool)
    ensures
        r == (owned_event(shape, value@) > 0),
{
    broadcast use lemma_array_view;

    match value {
        Node::Array(list) => {
            let ghost all = views(list@);
            let mut i: usize = 0;
            assert(all.take(0) =~= Seq::empty());
            while i < list.len()
                invariant
                    i <= list@.len(),
                    all == views(list@),
                    owned_entries(shape, all.take(i as int)) == 0,
                    value@ == Tree::Array(all),
                decreases list@.len() - i,
            {
                proof {
                    assert(all.take(i + 1).drop_last() =~= all.take(i as int));
                    assert(all.take(i + 1).last() == list@[i as int]@);
                }
                if entry_has_owned(shape, &list[i]) {
                    proof {
                        lemma_owned_cut(shape, all, i + 1);
                    }
                    return true;
                }
                i += 1;
            }
            assert(all.take(all.len() as int) =~= all);
            false
        },
        _ => false,
    }
}

proof fn lemma_owned_cut<L>(shape: Shape, list: Seq<Tree<L>>, n: int)
    requires
        0 <= n <= list.len(),
    ensures
        owned_entries(shape, list) >= owned_entries(shape, list.take(n)),
    decreases list.len(),
{
    if n < list.len() {
        lemma_owned_cut(shape, list.drop_last(), n);
        assert(list.drop_last().take(n) =~= list.take(n));
    } else {
        assert(list.take(n) =~= list);
    }
}

proof fn lemma_owned_events_cut<L>(shape: Shape, m: Seq<(Seq<char>, Tree<L>)>, n: int)
    requires
        0 <= n <= m.len(),
    ensures
        owned_events(shape, m) >= owned_events(shape, m.take(n)),
    decreases m.len(),
{
    if n < m.len() {
        lemma_owned_events_cut(shape, m.drop_last(), n);
        assert(m.drop_last().take(n) =~= m.take(n));
    } else {
        assert(m.take(n) =~= m);
    }
}

/// Whether a settings tree holds any definition of ours.
pub fn has_owned<L>(settings: &Node<L>, shape: Shape) -> (r: bool)
    ensures
        r == (owned_total(shape, settings@) > 0),
{
    broadcast use lemma_table_view;

    match settings.get("hooks") {
        Some(Node::Table(m)) => {
            let ghost all = entries(m@);
            let mut i: usize = 0;
            assert(all.take(0) =~= Seq::empty());
            while i < m.len()
                invariant
                    i <= m@.len(),
                    all == entries(m@),
                    owned_events(shape, all.take(i as int)) == 0,
                    owned_total(shape, settings@) == owned_events(shape, all),
                decreases m@.len() - i,
            {
                proof {
                    assert(all.take(i + 1).drop_last() =~= all.take(i as int));
                    assert(all.take(i + 1).last() == (m@[i as int].0@, m@[i as int].1@));
                }
                if event_has_owned(shape, &m[i].1) {
                    proof {
                        lemma_owned_events_cut(shape, all, i + 1);
                    }
                    return true;
                }
                i += 1;
            }
            assert(all.take(all.len() as int) =~= all);
            false
        },
        _ => false,
    }
}

// ---------------------------------------------------------------------------
// Putting in: code
// ---------------------------------------------------------------------------

/// Puts one entry under an event.
fn append<L>(m: &mut Vec<(String, Node<L>)>, event: &str, entry: Node<L>)
    ensures
        entries(final(m)@) == appended(entries(old(m)@), event@, entry@),
{
    broadcast use lemma_array_view;

    let ghost shown = entries(m@);
    match find_key(m, event) {
        Some(i) => {
            let (key, value) = m.remove(i);
            proof {
                assert(shown[i as int] == (key@, value@));
                lemma_key_pos(shown, event@);
            }
            let fresh = match value {
                Node::Array(list) => {
                    let mut list = list;
                    let ghost before = list@;
                    list.push(entry);
                    assert(views(list@) =~= views(before).push(entry@));
                    Node::Array(list)
                },
                _ => {
                    let mut list: Vec<Node<L>> = Vec::new();
                    list.push(entry);
                    assert(views(list@) =~= seq![entry@]);
                    Node::Array(list)
                },
            };
            m.insert(i, (key, fresh));
            assert(entries(m@) =~= shown.update(i as int, (event@, fresh@)));
        },
        None => {
            let mut list: Vec<Node<L>> = Vec::new();
            list.push(entry);
            assert(views(list@) =~= seq![entry@]);
            set_key(m, event, Node::Array(list));
        },
    }
}

/// Puts the entries of a list into a settings tree; says whether it could.
pub fn extend<L>(settings: Node<L>, list: Vec<(String, Node<L>)>) -> (r: (Node<L>, bool))
    ensures
        r.0@ == extended(settings@, entries(list@)),
        r.1 == takes_hooks(settings@),
{
    broadcast use lemma_table_view;

    match settings {
        Node::Table(root) => {
            let mut root = root;
            let ghost shown = entries(root@);
            let mut hooks: Vec<(String, Node<L>)> = Vec::new();
            match find_key(&root, "hooks") {
                Some(i) => {
                    let (key, value) = root.remove(i);
                    proof {
                        assert(shown[i as int] == (key@, value@));
                        lemma_key_pos(shown, "hooks"@);
                    }
                    match value {
                        Node::Table(h) => {
                            hooks = h;
                            root.insert(i, (key, Node::Table(Vec::new())));
                        },
                        other => {
                            root.insert(i, (key, other));
                            assert(entries(root@) =~= shown);
                            return (Node::Table(root), false);
                        },
                    }
                },
                None => {},
            }
            let ghost start = entries(hooks@);
            assert(hook_table(shown) == Some(start)) by {
                assert(start =~= match lookup(shown, "hooks"@) {
                    Some(Tree::Table(h)) => h,
                    _ => Seq::empty(),
                });
            }
            let ghost all = entries(list@);
            assert(all.take(0) =~= Seq::empty());
            for pair in it: list
                invariant
                    all == entries(list@),
                    it.seq() == list@,
                    entries(hooks@) == appended_all(start, all.take(it.index() as int)),
            {
                let ghost i = it.index() as int;
                proof {
                    assert(all.take(i + 1).drop_last() =~= all.take(i));
                    assert(all.take(i + 1).last() == (pair.0@, pair.1@));
                }
                let (event, entry) = pair;
                append(&mut hooks, event.as_str(), entry);
            }
            assert(all.take(all.len() as int) =~= all);
            let ghost filled = Node::Table(hooks)@;
            let ghost middle = entries(root@);
            set_key(&mut root, "hooks", Node::Table(hooks));
            proof {
                lemma_key_pos(shown, "hooks"@);
                let p = key_pos(shown, "hooks"@);
                if p < shown.len() {
                    assert forall|j: int| 0 <= j < p implies (#[trigger] middle[j]).0
                        != "hooks"@ by {
                        assert(middle[j] == shown[j]);
                    }
                    lemma_key_pos_is(middle, "hooks"@, p);
                    assert(entries(root@) =~= shown.update(p, ("hooks"@, filled)));
                } else {
                    assert(middle == shown);
                }
            }
            (Node::Table(root), true)
        },
        other => (other, false),
    }
}

} // verus!
