//! What taking hook entries out and putting them in does to a shared settings
//! file as a whole: uninstalling undoes installing, installing twice is
//! installing once, and what is not ours stays as it was.

use crate::hooks::{
    all_ours, appended, appended_all, entries_under, extended, foreign, hook_table, installed,
    is_owned, kept, kept_entries, kept_event, kept_events, owned_entries, owned_event,
    owned_events, owned_in, owned_total, stripped, takes_hooks, Shape,
};
use crate::text;
use crate::text::precedes;
use crate::tree::{
    field, key_pos, lemma_array_well_formed, lemma_key_pos, lemma_key_pos_is, lemma_slot,
    lemma_sorted_extensional,
    lemma_well_formed_lookup, lemma_well_formed_with_key, lemma_well_formed_without_key,
    lemma_with_key, lemma_without_key, lookup, slot, sorted, well_formed, with_key, without_key,
    Leaf, Tree,
};
use vstd::prelude::*;

verus! {

// ---------------------------------------------------------------------------
// Definitions and entries
// ---------------------------------------------------------------------------

/// Taking ours out of a list twice is doing it once.
pub proof fn lemma_foreign<L>(list: Seq<Tree<L>>)
    ensures
        foreign(list).len() <= list.len(),
        foreign(foreign(list)) == foreign(list),
    decreases list.len(),
{
    if list.len() > 0 {
        let rest = foreign(list.drop_last());
        lemma_foreign(list.drop_last());
        if !is_owned(list.last()) {
            assert(rest.push(list.last()).drop_last() =~= rest);
        }
    }
}

proof fn lemma_with_key_twice<V>(m: Seq<(Seq<char>, V)>, key: Seq<char>, v: V, w: V)
    ensures
        with_key(with_key(m, key, v), key, w) == with_key(m, key, w),
{
    let n = with_key(m, key, v);
    lemma_key_pos(m, key);
    lemma_slot(m, key);
    let p = if key_pos(m, key) < m.len() {
        key_pos(m, key)
    } else {
        slot(m, key)
    };
    assert forall|j: int| 0 <= j < p implies (#[trigger] n[j]).0 != key by {
        assert(n[j] == m[j]);
    }
    lemma_key_pos_is(n, key, p);
    assert(with_key(n, key, w) =~= with_key(m, key, w));
}

proof fn lemma_kept<L>(shape: Shape, entry: Tree<L>)
    ensures
        match kept(shape, entry) {
            Some(e) => kept(shape, e) == Some(e) && owned_in(shape, e) == 0,
            None => true,
        },
{
    if let (Shape::Nested, Tree::Table(m)) = (shape, entry) {
        if let Some(Tree::Array(list)) = lookup(m, "hooks"@) {
            lemma_foreign(list);
            lemma_with_key(m, "hooks"@, Tree::Array(foreign(list)));
            lemma_with_key_twice(
                m,
                "hooks"@,
                Tree::Array(foreign(list)),
                Tree::Array(foreign(list)),
            );
        }
    }
}

proof fn lemma_kept_entries<L>(shape: Shape, list: Seq<Tree<L>>)
    ensures
        kept_entries(shape, kept_entries(shape, list)) == kept_entries(shape, list),
        owned_entries(shape, kept_entries(shape, list)) == 0,
    decreases list.len(),
{
    if list.len() > 0 {
        let rest = kept_entries(shape, list.drop_last());
        lemma_kept_entries(shape, list.drop_last());
        lemma_kept(shape, list.last());
        if let Some(e) = kept(shape, list.last()) {
            assert(rest.push(e).drop_last() =~= rest);
        }
    }
}

/// What is left of an event has nothing of ours, and is left as it is.
proof fn lemma_kept_event<L>(shape: Shape, value: Tree<L>)
    ensures
        match kept_event(shape, value) {
            Some(v) => kept_event(shape, v) == Some(v) && owned_event(shape, v) == 0,
            None => true,
        },
{
    if let Tree::Array(list) = value {
        lemma_kept_entries(shape, list);
    }
}

/// Entries of ours at the end go without a trace.
proof fn lemma_kept_entries_added<L>(shape: Shape, a: Seq<Tree<L>>, b: Seq<Tree<L>>)
    requires
        forall|i: int| 0 <= i < b.len() ==> kept(shape, #[trigger] b[i]) is None,
    ensures
        kept_entries(shape, a + b) == kept_entries(shape, a),
    decreases b.len(),
{
    if b.len() == 0 {
        assert(a + b =~= a);
    } else {
        let d = b.drop_last();
        assert forall|i: int| 0 <= i < d.len() implies kept(shape, #[trigger] d[i]) is None by {
            assert(d[i] == b[i]);
        }
        lemma_kept_entries_added(shape, a, d);
        assert((a + b).drop_last() =~= a + d);
        assert((a + b).last() == b.last());
        assert(kept(shape, b[b.len() - 1]) is None);
    }
}

// ---------------------------------------------------------------------------
// Tables
// ---------------------------------------------------------------------------

proof fn lemma_lookup_push<V>(d: Seq<(Seq<char>, V)>, x: (Seq<char>, V), k: Seq<char>)
    requires
        lookup(d, x.0) is None,
    ensures
        lookup(d.push(x), k) == if k == x.0 {
            Some(x.1)
        } else {
            lookup(d, k)
        },
{
    let m = d.push(x);
    lemma_key_pos(d, k);
    assert forall|j: int| 0 <= j < key_pos(d, k) implies (#[trigger] m[j]).0 != k by {
        assert(m[j] == d[j]);
    }
    if key_pos(d, k) < d.len() {
        lemma_key_pos_is(m, k, key_pos(d, k));
    } else if k == x.0 {
        lemma_key_pos_is(m, k, d.len() as int);
    } else {
        assert forall|j: int| 0 <= j < m.len() implies (#[trigger] m[j]).0 != k by {
            if j < d.len() {
                assert(m[j] == d[j]);
            }
        }
        lemma_key_pos_is(m, k, m.len() as int);
    }
}

/// In a sorted table every key comes before the last one.
proof fn lemma_sorted_last<V>(m: Seq<(Seq<char>, V)>)
    requires
        sorted(m),
        m.len() > 0,
    ensures
        sorted(m.drop_last()),
        lookup(m.drop_last(), m.last().0) is None,
        forall|k: Seq<char>|
            lookup(m.drop_last(), k) is Some ==> #[trigger] precedes(k, m.last().0),
{
    let d = m.drop_last();
    assert forall|i: int, j: int| 0 <= i < j < d.len() implies precedes(
        (#[trigger] d[i]).0,
        (#[trigger] d[j]).0,
    ) by {
        assert(d[i] == m[i] && d[j] == m[j]);
    }
    assert forall|k: Seq<char>| lookup(d, k) is Some implies #[trigger] precedes(
        k,
        m.last().0,
    ) by {
        lemma_key_pos(d, k);
        assert(m[key_pos(d, k)] == d[key_pos(d, k)]);
    }
    if lookup(d, m.last().0) is Some {
        assert(precedes(m.last().0, m.last().0));
        text::lemma_precedes_irreflexive(m.last().0);
    }
}

/// What is left under an optional event.
pub open spec fn kept_lookup<L>(shape: Shape, v: Option<Tree<L>>) -> Option<Tree<L>> {
    match v {
        Some(v) => kept_event(shape, v),
        None => None,
    }
}

/// Taking ours out of a sorted table works event by event.
pub proof fn lemma_kept_events<L>(shape: Shape, m: Seq<(Seq<char>, Tree<L>)>)
    requires
        sorted(m),
    ensures
        sorted(kept_events(shape, m)),
        forall|k: Seq<char>| #[trigger]
            lookup(kept_events(shape, m), k) == kept_lookup(shape, lookup(m, k)),
    decreases m.len(),
{
    if m.len() > 0 {
        let d = m.drop_last();
        let x = m.last();
        let n = kept_events(shape, d);
        lemma_sorted_last(m);
        lemma_kept_events(shape, d);
        assert(m =~= d.push(x));
        if let Some(v) = kept_event(shape, x.1) {
            let out = n.push((x.0, v));
            assert(lookup(n, x.0) is None);
            assert forall|i: int, j: int| 0 <= i < j < out.len() implies precedes(
                (#[trigger] out[i]).0,
                (#[trigger] out[j]).0,
            ) by {
                if j < n.len() {
                    assert(out[i] == n[i] && out[j] == n[j]);
                } else {
                    assert(out[i] == n[i]);
                    lemma_key_pos(n, n[i].0);
                    if key_pos(n, n[i].0) == n.len() {
                        assert(n[i].0 != n[i].0);
                    }
                    assert(lookup(n, n[i].0) is Some);
                    assert(lookup(d, n[i].0) is Some);
                }
            }
            assert forall|k: Seq<char>| #[trigger] lookup(out, k) == kept_lookup(
                shape,
                lookup(m, k),
            ) by {
                lemma_lookup_push(n, (x.0, v), k);
                lemma_lookup_push(d, x, k);
            }
        } else {
            assert forall|k: Seq<char>| #[trigger] lookup(n, k) == kept_lookup(
                shape,
                lookup(m, k),
            ) by {
                lemma_lookup_push(d, x, k);
            }
        }
    } else {
        assert forall|k: Seq<char>| #[trigger] lookup(
            kept_events(shape, m),
            k,
        ) == kept_lookup(shape, lookup(m, k)) by {
            lemma_key_pos(m, k);
        }
    }
}

/// The entries of a list that go under an event, in order.
spec fn entries_for<L>(list: Seq<(Seq<char>, Tree<L>)>, event: Seq<char>) -> Seq<Tree<L>>
    decreases list.len(),
{
    if list.len() == 0 {
        Seq::empty()
    } else if list.last().0 == event {
        entries_for(list.drop_last(), event).push(list.last().1)
    } else {
        entries_for(list.drop_last(), event)
    }
}

/// The entries that stand under an event already.
spec fn entries_at<L>(v: Option<Tree<L>>) -> Seq<Tree<L>> {
    match v {
        Some(Tree::Array(list)) => list,
        _ => Seq::empty(),
    }
}

/// What stands under an event once a list was put in.
spec fn added_lookup<L>(v: Option<Tree<L>>, added: Seq<Tree<L>>) -> Option<Tree<L>> {
    if added.len() == 0 {
        v
    } else {
        Some(Tree::Array(entries_at(v) + added))
    }
}

/// Putting a list in works event by event.
proof fn lemma_appended_all<L>(m: Seq<(Seq<char>, Tree<L>)>, list: Seq<(Seq<char>, Tree<L>)>)
    ensures
        sorted(m) ==> sorted(appended_all(m, list)),
        forall|k: Seq<char>| #[trigger]
            lookup(appended_all(m, list), k) == added_lookup(
                lookup(m, k),
                entries_for(list, k),
            ),
    decreases list.len(),
{
    if list.len() > 0 {
        let d = list.drop_last();
        let (event, entry) = list.last();
        let n = appended_all(m, d);
        lemma_appended_all(m, d);
        let value = match lookup(n, event) {
            Some(Tree::Array(l)) => Tree::Array(l.push(entry)),
            _ => Tree::Array(seq![entry]),
        };
        lemma_with_key(n, event, value);
        assert(appended_all(m, list) == with_key(n, event, value));
        let before = entries_for(d, event);
        assert(value == Tree::Array(entries_at(lookup(m, event)) + before.push(entry))) by {
            if before.len() == 0 {
                assert(before.push(entry) =~= seq![entry]);
                assert(entries_at(lookup(m, event)) + seq![entry] =~= entries_at(
                    lookup(m, event),
                ).push(entry));
                assert(Seq::<Tree<L>>::empty() + seq![entry] =~= seq![entry]);
            } else {
                assert((entries_at(lookup(m, event)) + before).push(entry) =~= entries_at(
                    lookup(m, event),
                ) + before.push(entry));
            }
        }
        assert forall|k: Seq<char>| #[trigger] lookup(appended_all(m, list), k) == added_lookup(
            lookup(m, k),
            entries_for(list, k),
        ) by {
            assert(lookup(n, k) == added_lookup(lookup(m, k), entries_for(d, k)));
            if k == event {
                assert(entries_for(list, k) == before.push(entry));
            } else {
                assert(entries_for(list, k) == entries_for(d, k));
            }
        }
    }
}

/// The entries for an event are entries of the list.
proof fn lemma_entries_for<L>(shape: Shape, list: Seq<(Seq<char>, Tree<L>)>, event: Seq<char>)
    requires
        all_ours(shape, list),
    ensures
        forall|i: int|
            0 <= i < entries_for(list, event).len() ==> kept(
                shape,
                #[trigger] entries_for(list, event)[i],
            ) is None,
        entries_for(list, event).len() > 0 ==> exists|j: int|
            0 <= j < list.len() && (#[trigger] list[j]).0 == event,
    decreases list.len(),
{
    if list.len() > 0 {
        let d = list.drop_last();
        assert forall|i: int| 0 <= i < d.len() implies kept(shape, (#[trigger] d[i]).1) is None
            && owned_in(shape, d[i].1) == 1 by {
            assert(d[i] == list[i]);
        }
        lemma_entries_for(shape, d, event);
        assert(list[list.len() - 1] == list.last());
        if list.last().0 != event && entries_for(d, event).len() > 0 {
            let j = choose|j: int| 0 <= j < d.len() && (#[trigger] d[j]).0 == event;
            assert(list[j] == d[j]);
        }
    }
}

/// A clean table, with a list of ours put in and ours taken out again, holds under
/// each event what it held, or nothing where a listed event was no array.
proof fn lemma_round_trip<L>(
    shape: Shape,
    h: Seq<(Seq<char>, Tree<L>)>,
    list: Seq<(Seq<char>, Tree<L>)>,
    k: Seq<char>,
)
    requires
        sorted(h),
        all_ours(shape, list),
        forall|k: Seq<char>| kept_lookup(shape, lookup(h, k)) == #[trigger] lookup(h, k),
    ensures
        lookup(kept_events(shape, appended_all(h, list)), k) == if entries_for(list, k).len() > 0
            && !(lookup(h, k) matches Some(Tree::Array(_))) {
            None
        } else {
            lookup(h, k)
        },
{
    lemma_appended_all(h, list);
    lemma_kept_events(shape, appended_all(h, list));
    lemma_entries_for(shape, list, k);
    assert(kept_lookup(shape, lookup(h, k)) == lookup(h, k));
    let added = entries_for(list, k);
    if added.len() > 0 {
        lemma_kept_entries_added(shape, entries_at(lookup(h, k)), added);
    }
}

// ---------------------------------------------------------------------------
// Counting
// ---------------------------------------------------------------------------

proof fn lemma_owned_update<L>(
    shape: Shape,
    m: Seq<(Seq<char>, Tree<L>)>,
    p: int,
    x: (Seq<char>, Tree<L>),
)
    requires
        0 <= p < m.len(),
    ensures
        owned_events(shape, m.update(p, x)) == owned_events(shape, m) - owned_event(shape, m[p].1)
            + owned_event(shape, x.1),
    decreases m.len(),
{
    let n = m.update(p, x);
    if p == m.len() - 1 {
        assert(n.drop_last() =~= m.drop_last());
    } else {
        assert(n.drop_last() =~= m.drop_last().update(p, x));
        lemma_owned_update(shape, m.drop_last(), p, x);
    }
}

proof fn lemma_owned_insert<L>(
    shape: Shape,
    m: Seq<(Seq<char>, Tree<L>)>,
    p: int,
    x: (Seq<char>, Tree<L>),
)
    requires
        0 <= p <= m.len(),
    ensures
        owned_events(shape, m.insert(p, x)) == owned_events(shape, m) + owned_event(shape, x.1),
    decreases m.len(),
{
    let n = m.insert(p, x);
    if p == m.len() {
        assert(n.drop_last() =~= m);
    } else {
        assert(n.drop_last() =~= m.drop_last().insert(p, x));
        lemma_owned_insert(shape, m.drop_last(), p, x);
    }
}

proof fn lemma_owned_appended_all<L>(
    shape: Shape,
    m: Seq<(Seq<char>, Tree<L>)>,
    list: Seq<(Seq<char>, Tree<L>)>,
)
    requires
        all_ours(shape, list),
    ensures
        owned_events(shape, appended_all(m, list)) == owned_events(shape, m) + list.len(),
    decreases list.len(),
{
    if list.len() > 0 {
        let d = list.drop_last();
        let (event, entry) = list.last();
        let n = appended_all(m, d);
        assert forall|i: int| 0 <= i < d.len() implies kept(shape, (#[trigger] d[i]).1) is None
            && owned_in(shape, d[i].1) == 1 by {
            assert(d[i] == list[i]);
        }
        assert(list[list.len() - 1] == list.last());
        lemma_owned_appended_all(shape, m, d);
        lemma_key_pos(n, event);
        lemma_slot(n, event);
        let one = seq![entry];
        assert(one.drop_last() =~= Seq::empty());
        assert(owned_entries(shape, one.drop_last()) == 0);
        assert(owned_entries(shape, one) == 1);
        match lookup(n, event) {
            Some(Tree::Array(l)) => {
                assert(l.push(entry).drop_last() =~= l);
                lemma_owned_update(
                    shape,
                    n,
                    key_pos(n, event),
                    (event, Tree::Array(l.push(entry))),
                );
            },
            Some(_) => {
                lemma_owned_update(shape, n, key_pos(n, event), (event, Tree::Array(one)));
            },
            None => {
                lemma_owned_insert(shape, n, slot(n, event), (event, Tree::Array(one)));
            },
        }
    }
}

proof fn lemma_owned_kept<L>(shape: Shape, m: Seq<(Seq<char>, Tree<L>)>)
    ensures
        owned_events(shape, kept_events(shape, m)) == 0,
    decreases m.len(),
{
    if m.len() > 0 {
        let rest = kept_events(shape, m.drop_last());
        lemma_owned_kept(shape, m.drop_last());
        lemma_kept_event(shape, m.last().1);
        if let Some(v) = kept_event(shape, m.last().1) {
            assert(rest.push((m.last().0, v)).drop_last() =~= rest);
        }
    }
}

// ---------------------------------------------------------------------------
// The laws
// ---------------------------------------------------------------------------

/// The top level of a tree is sorted, and so is its `hooks` table.
pub open spec fn top_sorted<L>(t: Tree<L>) -> bool {
    &&& t matches Tree::Table(root) ==> sorted(root)
    &&& field(t, "hooks"@) matches Some(Tree::Table(h)) ==> sorted(h)
}

/// The events of a list are absent from a tree or hold arrays there.
pub open spec fn has_room<L>(t: Tree<L>, list: Seq<(Seq<char>, Tree<L>)>) -> bool {
    field(t, "hooks"@) matches Some(Tree::Table(h)) ==> forall|i: int|
        0 <= i < list.len() ==> match lookup(h, (#[trigger] list[i]).0) {
            None => true,
            Some(Tree::Array(_)) => true,
            Some(_) => false,
        }
}

/// Every well-formed tree is sorted at the top and in its `hooks` table.
pub proof fn lemma_well_formed_sorted<L: Leaf>(t: Tree<L>)
    requires
        well_formed(t),
    ensures
        top_sorted(t),
{
    if let Tree::Table(root) = t {
        lemma_key_pos(root, "hooks"@);
        if let Some(h) = lookup(root, "hooks"@) {
            assert(root[key_pos(root, "hooks"@)].1 == h);
            assert(well_formed(h));
        }
    }
}

/// What `stripped` leaves: a sorted tree, every other key as it was, a `hooks`
/// table of what is kept or none, and nothing of ours.
pub proof fn lemma_stripped<L>(shape: Shape, t: Tree<L>)
    requires
        top_sorted(t),
    ensures
        top_sorted(stripped(shape, t)),
        forall|k: Seq<char>| k != "hooks"@ ==> #[trigger] field(stripped(shape, t), k) == field(t, k),
        match field(t, "hooks"@) {
            Some(Tree::Table(h)) => match field(stripped(shape, t), "hooks"@) {
                Some(Tree::Table(n)) => n == kept_events(shape, h) && n.len() > 0,
                None => kept_events(shape, h).len() == 0,
                _ => false,
            },
            other => field(stripped(shape, t), "hooks"@) == other,
        },
        (t is Table) == (stripped(shape, t) is Table),
{
    if let Tree::Table(root) = t {
        if let Some(Tree::Table(h)) = lookup(root, "hooks"@) {
            lemma_kept_events(shape, h);
            lemma_with_key(root, "hooks"@, Tree::Table(kept_events(shape, h)));
            lemma_without_key(root, "hooks"@);
        }
    }
}

/// Two trees that are sorted at the top, both tables, with the same fields are the same.
proof fn lemma_same_fields<L>(a: Tree<L>, b: Tree<L>)
    requires
        a is Table,
        b is Table,
        top_sorted(a),
        top_sorted(b),
        forall|k: Seq<char>| #[trigger] field(a, k) == field(b, k),
    ensures
        a == b,
{
    let m = a->Table_0;
    let n = b->Table_0;
    assert forall|k: Seq<char>| lookup(m, k) == lookup(n, k) by {
        assert(field(a, k) == field(b, k));
    }
    lemma_sorted_extensional(m, n);
}

/// What is kept of a table is kept.
proof fn lemma_kept_events_clean<L>(shape: Shape, h: Seq<(Seq<char>, Tree<L>)>)
    requires
        sorted(h),
    ensures
        kept_events(shape, kept_events(shape, h)) == kept_events(shape, h),
        forall|k: Seq<char>|
            kept_lookup(shape, lookup(kept_events(shape, h), k)) == #[trigger] lookup(
                kept_events(shape, h),
                k,
            ),
{
    let n = kept_events(shape, h);
    lemma_kept_events(shape, h);
    lemma_kept_events(shape, n);
    assert forall|k: Seq<char>| kept_lookup(shape, lookup(n, k)) == #[trigger] lookup(n, k) by {
        if let Some(v) = lookup(h, k) {
            lemma_kept_event(shape, v);
        }
    }
    assert forall|k: Seq<char>| lookup(kept_events(shape, n), k) == lookup(n, k) by {}
    lemma_sorted_extensional(kept_events(shape, n), n);
}

/// Uninstalling takes everything of ours out, and doing it again changes nothing.
pub proof fn law_strip_is_complete<L>(shape: Shape, t: Tree<L>)
    requires
        top_sorted(t),
    ensures
        owned_total(shape, stripped(shape, t)) == 0,
        stripped(shape, stripped(shape, t)) == stripped(shape, t),
{
    let s = stripped(shape, t);
    lemma_stripped(shape, t);
    if let Some(Tree::Table(h)) = field(t, "hooks"@) {
        lemma_owned_kept(shape, h);
        lemma_kept_events_clean(shape, h);
        lemma_stripped(shape, s);
        if let Some(Tree::Table(n)) = field(s, "hooks"@) {
            assert forall|k: Seq<char>| #[trigger] field(stripped(shape, s), k) == field(s, k) by {}
            lemma_same_fields(stripped(shape, s), s);
        }
    }
}

/// Neither installing nor uninstalling touches a key of the settings other than `hooks`.
pub proof fn law_other_keys_stay<L>(
    shape: Shape,
    t: Tree<L>,
    list: Seq<(Seq<char>, Tree<L>)>,
    key: Seq<char>,
)
    requires
        top_sorted(t),
        key != "hooks"@,
    ensures
        field(stripped(shape, t), key) == field(t, key),
        field(installed(shape, t, list), key) == field(t, key),
{
    let s = stripped(shape, t);
    lemma_stripped(shape, t);
    if let Tree::Table(root) = s {
        if let Some(h) = hook_table(root) {
            lemma_with_key(root, "hooks"@, Tree::Table(appended_all(h, list)));
        }
    }
}

/// Installing gives a sorted table whose `hooks` are the kept ones with the list put in.
proof fn lemma_installed<L>(shape: Shape, t: Tree<L>, list: Seq<(Seq<char>, Tree<L>)>)
    requires
        top_sorted(t),
        takes_hooks(t),
    ensures
        top_sorted(installed(shape, t, list)),
        installed(shape, t, list) is Table,
        takes_hooks(installed(shape, t, list)),
        forall|k: Seq<char>|
            k != "hooks"@ ==> #[trigger] field(installed(shape, t, list), k) == field(t, k),
        field(installed(shape, t, list), "hooks"@) == Some(
            Tree::Table(
                appended_all(
                    match field(t, "hooks"@) {
                        Some(Tree::Table(h)) => kept_events(shape, h),
                        _ => Seq::empty(),
                    },
                    list,
                ),
            ),
        ),
{
    let s = stripped(shape, t);
    lemma_stripped(shape, t);
    let root = s->Table_0;
    let base = match field(t, "hooks"@) {
        Some(Tree::Table(h)) => kept_events(shape, h),
        _ => Seq::empty(),
    };
    assert(field(t, "hooks"@) == lookup(t->Table_0, "hooks"@));
    assert(field(s, "hooks"@) == lookup(root, "hooks"@));
    assert(hook_table(root) is Some);
    assert(hook_table(root)->0 =~= base);
    if let Some(Tree::Table(h)) = field(t, "hooks"@) {
        lemma_kept_events(shape, h);
    }
    assert(sorted(base));
    lemma_appended_all(base, list);
    lemma_with_key(root, "hooks"@, Tree::Table(appended_all(base, list)));
    assert forall|k: Seq<char>| k != "hooks"@ implies #[trigger] field(
        installed(shape, t, list),
        k,
    ) == field(t, k) by {
        assert(field(s, k) == field(t, k));
    }
}

/// Installing into settings that take hooks puts in exactly the list, once each,
/// whatever of ours was there before.
pub proof fn law_install_counts<L>(shape: Shape, t: Tree<L>, list: Seq<(Seq<char>, Tree<L>)>)
    requires
        top_sorted(t),
        all_ours(shape, list),
    ensures
        takes_hooks(stripped(shape, t)) == takes_hooks(t),
        takes_hooks(t) ==> owned_total(shape, installed(shape, t, list)) == list.len(),
        !takes_hooks(t) ==> installed(shape, t, list) == t,
{
    lemma_stripped(shape, t);
    if takes_hooks(t) {
        lemma_installed(shape, t, list);
        let base = match field(t, "hooks"@) {
            Some(Tree::Table(h)) => kept_events(shape, h),
            _ => Seq::empty(),
        };
        if let Some(Tree::Table(h)) = field(t, "hooks"@) {
            lemma_owned_kept(shape, h);
        }
        assert(owned_events(shape, base) == 0);
        lemma_owned_appended_all(shape, base, list);
    }
}

/// Uninstalling after installing leaves what uninstalling alone would have left:
/// a settings file with nothing of ours comes back as it was. The one exception
/// is a listed event whose value was not an array: installing replaces it.
pub proof fn law_uninstall_undoes_install<L>(
    shape: Shape,
    t: Tree<L>,
    list: Seq<(Seq<char>, Tree<L>)>,
)
    requires
        top_sorted(t),
        all_ours(shape, list),
        has_room(t, list),
    ensures
        stripped(shape, installed(shape, t, list)) == stripped(shape, t),
        stripped(shape, t) == t ==> stripped(shape, installed(shape, t, list)) == t,
{
    law_strip_is_complete(shape, t);
    law_install_counts(shape, t, list);
    if takes_hooks(t) {
        let s = stripped(shape, t);
        let w = installed(shape, t, list);
        lemma_stripped(shape, t);
        lemma_installed(shape, t, list);
        lemma_stripped(shape, w);
        let base = match field(t, "hooks"@) {
            Some(Tree::Table(h)) => kept_events(shape, h),
            _ => Seq::empty(),
        };
        if let Some(Tree::Table(h)) = field(t, "hooks"@) {
            lemma_kept_events(shape, h);
            lemma_kept_events_clean(shape, h);
        } else {
            assert forall|k: Seq<char>| kept_lookup(shape, lookup(base, k)) == #[trigger] lookup(
                base,
                k,
            ) by {
                lemma_key_pos(base, k);
            }
        }
        let back = kept_events(shape, appended_all(base, list));
        lemma_appended_all(base, list);
        lemma_kept_events(shape, appended_all(base, list));
        assert forall|k: Seq<char>| lookup(back, k) == lookup(base, k) by {
            lemma_round_trip(shape, base, list, k);
            lemma_entries_for(shape, list, k);
            if entries_for(list, k).len() > 0 && lookup(base, k) is Some {
                let j = choose|j: int| 0 <= j < list.len() && (#[trigger] list[j]).0 == k;
                let h = field(t, "hooks"@)->0->Table_0;
                assert(lookup(base, k) == kept_lookup(shape, lookup(h, list[j].0)));
            }
        }
        lemma_sorted_extensional(back, base);
        assert forall|k: Seq<char>| #[trigger] field(stripped(shape, w), k) == field(s, k) by {
            if k != "hooks"@ {
                assert(field(w, k) == field(t, k));
                assert(field(s, k) == field(t, k));
            }
        }
        lemma_same_fields(stripped(shape, w), s);
    }
}

/// Installing a second time changes nothing.
pub proof fn law_install_is_idempotent<L>(
    shape: Shape,
    t: Tree<L>,
    list: Seq<(Seq<char>, Tree<L>)>,
)
    requires
        top_sorted(t),
        all_ours(shape, list),
    ensures
        installed(shape, installed(shape, t, list), list) == installed(shape, t, list),
{
    law_install_counts(shape, t, list);
    if takes_hooks(t) {
        let w = installed(shape, t, list);
        lemma_installed(shape, t, list);
        lemma_installed(shape, w, list);
        let base = match field(t, "hooks"@) {
            Some(Tree::Table(h)) => kept_events(shape, h),
            _ => Seq::empty(),
        };
        if let Some(Tree::Table(h)) = field(t, "hooks"@) {
            lemma_kept_events(shape, h);
            lemma_kept_events_clean(shape, h);
        } else {
            assert forall|k: Seq<char>| kept_lookup(shape, lookup(base, k)) == #[trigger] lookup(
                base,
                k,
            ) by {
                lemma_key_pos(base, k);
            }
        }
        let first = appended_all(base, list);
        let back = kept_events(shape, first);
        let second = appended_all(back, list);
        lemma_appended_all(base, list);
        lemma_kept_events(shape, first);
        lemma_appended_all(back, list);
        assert forall|k: Seq<char>| lookup(second, k) == lookup(first, k) by {
            lemma_round_trip(shape, base, list, k);
            assert(lookup(first, k) == added_lookup(lookup(base, k), entries_for(list, k)));
            assert(lookup(second, k) == added_lookup(lookup(back, k), entries_for(list, k)));
        }
        lemma_sorted_extensional(second, first);
        let v = installed(shape, w, list);
        assert forall|k: Seq<char>| #[trigger] field(v, k) == field(w, k) by {}
        lemma_same_fields(v, w);
    }
}

// ---------------------------------------------------------------------------
// Trees that stripping leaves as they are
// ---------------------------------------------------------------------------

/// Nothing under `hooks` is ours or empty.
pub open spec fn is_clean<L>(shape: Shape, t: Tree<L>) -> bool {
    field(t, "hooks"@) matches Some(Tree::Table(h)) ==> h.len() > 0 && kept_events(shape, h) == h
}

/// What stripping leaves is clean, and has room for what there was room for.
pub proof fn lemma_stripped_is_clean<L>(
    shape: Shape,
    t: Tree<L>,
    list: Seq<(Seq<char>, Tree<L>)>,
)
    requires
        top_sorted(t),
    ensures
        is_clean(shape, stripped(shape, t)),
        has_room(t, list) ==> has_room(stripped(shape, t), list),
{
    lemma_stripped(shape, t);
    if let Some(Tree::Table(h)) = field(t, "hooks"@) {
        lemma_kept_events(shape, h);
        lemma_kept_events_clean(shape, h);
        if has_room(t, list) {
            if let Some(Tree::Table(n)) = field(stripped(shape, t), "hooks"@) {
                assert forall|i: int| 0 <= i < list.len() implies match lookup(
                    n,
                    (#[trigger] list[i]).0,
                ) {
                    None => true,
                    Some(Tree::Array(_)) => true,
                    Some(_) => false,
                } by {
                    assert(lookup(n, list[i].0) == kept_lookup(shape, lookup(h, list[i].0)));
                }
            }
        }
    }
}

/// A clean tree is left as it is, and holds nothing of ours.
pub proof fn lemma_clean_stays<L>(shape: Shape, t: Tree<L>)
    requires
        top_sorted(t),
        is_clean(shape, t),
    ensures
        stripped(shape, t) == t,
        owned_total(shape, t) == 0,
{
    lemma_stripped(shape, t);
    if let Some(Tree::Table(h)) = field(t, "hooks"@) {
        assert forall|k: Seq<char>| #[trigger] field(stripped(shape, t), k) == field(t, k) by {}
        lemma_same_fields(stripped(shape, t), t);
        lemma_owned_kept(shape, h);
    }
}

proof fn lemma_no_owned_event<L>(h: Seq<(Seq<char>, Tree<L>)>, i: int)
    requires
        owned_events(Shape::Flat, h) == 0,
        0 <= i < h.len(),
    ensures
        owned_event(Shape::Flat, h[i].1) == 0,
    decreases h.len(),
{
    if i < h.len() - 1 {
        lemma_no_owned_event(h.drop_last(), i);
        assert(h.drop_last()[i] == h[i]);
    }
}

proof fn lemma_no_owned_entry<L>(list: Seq<Tree<L>>, j: int)
    requires
        owned_entries(Shape::Flat, list) == 0,
        0 <= j < list.len(),
    ensures
        !is_owned(list[j]),
    decreases list.len(),
{
    if j < list.len() - 1 {
        lemma_no_owned_entry(list.drop_last(), j);
        assert(list.drop_last()[j] == list[j]);
    }
}

/// In the flat shape, a tree that holds nothing of ours has no entry that is ours.
pub proof fn lemma_no_owned_under<L>(t: Tree<L>, event: Seq<char>, j: int)
    requires
        owned_total(Shape::Flat, t) == 0,
        0 <= j < entries_under(t, event).len(),
    ensures
        !is_owned(entries_under(t, event)[j]),
{
    let h = field(t, "hooks"@)->0->Table_0;
    lemma_key_pos(h, event);
    let i = key_pos(h, event);
    lemma_no_owned_event(h, i);
    lemma_no_owned_entry(entries_under(t, event), j);
}

proof fn lemma_appended_first<L>(m: Seq<(Seq<char>, Tree<L>)>, list: Seq<(Seq<char>, Tree<L>)>)
    requires
        list.len() > 0,
        forall|i: int| 0 < i < list.len() ==> (#[trigger] list[i]).0 != list[0].0,
    ensures
        lookup(appended_all(m, list), list[0].0) == Some(
            Tree::Array(entries_at(lookup(m, list[0].0)).push(list[0].1)),
        ),
    decreases list.len(),
{
    let d = list.drop_last();
    let n = appended_all(m, d);
    let event = list.last().0;
    let entry = list.last().1;
    match lookup(n, event) {
        Some(Tree::Array(l)) => lemma_with_key(n, event, Tree::Array(l.push(entry))),
        _ => lemma_with_key(n, event, Tree::Array(seq![entry])),
    }
    if list.len() == 1 {
        assert(d.len() == 0);
        assert(n == m);
        assert(seq![entry] =~= Seq::empty().push(entry));
    } else {
        assert(d[0] == list[0]);
        assert forall|i: int| 0 < i < d.len() implies (#[trigger] d[i]).0 != d[0].0 by {
            assert(d[i] == list[i]);
        }
        lemma_appended_first(m, d);
        assert(list.last() == list[list.len() - 1]);
    }
}

/// An entry whose event a list names once, and first, is put behind those that stand
/// under that event.
pub proof fn lemma_extended_first<L>(t: Tree<L>, list: Seq<(Seq<char>, Tree<L>)>)
    requires
        takes_hooks(t),
        list.len() > 0,
        forall|i: int| 0 < i < list.len() ==> (#[trigger] list[i]).0 != list[0].0,
    ensures
        entries_under(extended(t, list), list[0].0) == entries_under(t, list[0].0).push(list[0].1),
{
    let root = t->Table_0;
    let h = hook_table(root)->0;
    lemma_appended_first(h, list);
    lemma_with_key(root, "hooks"@, Tree::Table(appended_all(h, list)));
    if lookup(root, "hooks"@) is None {
        lemma_key_pos(h, list[0].0);
        assert(entries_at(lookup(h, list[0].0)) =~= Seq::empty());
    }
}

// ---------------------------------------------------------------------------
// Well-formed trees stay well-formed
// ---------------------------------------------------------------------------

/// What is left of a list of well-formed definitions is well-formed.
pub proof fn lemma_foreign_well_formed<L: Leaf>(list: Seq<Tree<L>>)
    requires
        well_formed(Tree::Array(list)),
    ensures
        well_formed(Tree::Array(foreign(list))),
    decreases list.len(),
{
    if list.len() > 0 {
        let d = list.drop_last();
        lemma_array_well_formed(list);
        lemma_array_well_formed(d);
        assert(list[list.len() - 1] == list.last());
        lemma_foreign_well_formed(d);
        lemma_array_well_formed(foreign(d));
        lemma_array_well_formed(foreign(list));
        let out = foreign(list);
        assert forall|i: int| 0 <= i < out.len() implies well_formed(#[trigger] out[i]) by {
            if i < foreign(d).len() {
                assert(out[i] == foreign(d)[i]);
            }
        }
    }
}

proof fn lemma_kept_well_formed<L: Leaf>(shape: Shape, entry: Tree<L>)
    requires
        well_formed(entry),
    ensures
        kept(shape, entry) matches Some(e) ==> well_formed(e),
{
    if let (Shape::Nested, Tree::Table(m)) = (shape, entry) {
        if let Some(Tree::Array(list)) = lookup(m, "hooks"@) {
            lemma_well_formed_lookup(m, "hooks"@);
            lemma_foreign_well_formed(list);
            lemma_well_formed_with_key(m, "hooks"@, Tree::Array(foreign(list)));
        }
    }
}

proof fn lemma_kept_entries_well_formed<L: Leaf>(shape: Shape, list: Seq<Tree<L>>)
    requires
        well_formed(Tree::Array(list)),
    ensures
        well_formed(Tree::Array(kept_entries(shape, list))),
    decreases list.len(),
{
    if list.len() > 0 {
        let d = list.drop_last();
        lemma_array_well_formed(list);
        lemma_array_well_formed(d);
        assert(list[list.len() - 1] == list.last());
        lemma_kept_entries_well_formed(shape, d);
        lemma_array_well_formed(kept_entries(shape, d));
        lemma_array_well_formed(kept_entries(shape, list));
        lemma_kept_well_formed(shape, list.last());
        let out = kept_entries(shape, list);
        assert forall|i: int| 0 <= i < out.len() implies well_formed(#[trigger] out[i]) by {
            if i < kept_entries(shape, d).len() {
                assert(out[i] == kept_entries(shape, d)[i]);
            }
        }
    }
}

proof fn lemma_kept_events_well_formed<L: Leaf>(shape: Shape, m: Seq<(Seq<char>, Tree<L>)>)
    requires
        well_formed(Tree::Table(m)),
    ensures
        well_formed(Tree::Table(kept_events(shape, m))),
    decreases m.len(),
{
    lemma_kept_events(shape, m);
    if m.len() > 0 {
        let d = m.drop_last();
        lemma_sorted_last(m);
        assert forall|i: int| 0 <= i < d.len() implies well_formed((#[trigger] d[i]).1) by {
            assert(d[i] == m[i]);
        }
        assert(m[m.len() - 1] == m.last());
        lemma_kept_events_well_formed(shape, d);
        if let Tree::Array(list) = m.last().1 {
            lemma_kept_entries_well_formed(shape, list);
        }
        let out = kept_events(shape, m);
        assert forall|i: int| 0 <= i < out.len() implies well_formed((#[trigger] out[i]).1) by {
            if i < kept_events(shape, d).len() {
                assert(out[i] == kept_events(shape, d)[i]);
            }
        }
    }
}

proof fn lemma_appended_all_well_formed<L: Leaf>(
    m: Seq<(Seq<char>, Tree<L>)>,
    list: Seq<(Seq<char>, Tree<L>)>,
)
    requires
        well_formed(Tree::Table(m)),
        forall|i: int| 0 <= i < list.len() ==> well_formed((#[trigger] list[i]).1),
    ensures
        well_formed(Tree::Table(appended_all(m, list))),
    decreases list.len(),
{
    if list.len() > 0 {
        let d = list.drop_last();
        let (event, entry) = list.last();
        let n = appended_all(m, d);
        assert(list[list.len() - 1] == list.last());
        lemma_appended_all_well_formed(m, d);
        lemma_well_formed_lookup(n, event);
        let value = match lookup(n, event) {
            Some(Tree::Array(l)) => l.push(entry),
            _ => seq![entry],
        };
        assert forall|i: int| 0 <= i < value.len() implies well_formed(#[trigger] value[i]) by {
            if let Some(Tree::Array(l)) = lookup(n, event) {
                if i < l.len() {
                    assert(value[i] == l[i]);
                }
            }
        }
        lemma_well_formed_with_key(n, event, Tree::Array(value));
    }
}

/// Uninstalling keeps a settings tree well-formed, and so does putting in
/// well-formed entries.
pub proof fn law_well_formed_stays<L: Leaf>(
    shape: Shape,
    t: Tree<L>,
    list: Seq<(Seq<char>, Tree<L>)>,
)
    requires
        well_formed(t),
        forall|i: int| 0 <= i < list.len() ==> well_formed((#[trigger] list[i]).1),
    ensures
        well_formed(stripped(shape, t)),
        well_formed(extended(t, list)),
        well_formed(installed(shape, t, list)),
{
    if let Tree::Table(root) = t {
        lemma_well_formed_lookup(root, "hooks"@);
        if let Some(Tree::Table(h)) = lookup(root, "hooks"@) {
            lemma_kept_events_well_formed(shape, h);
            lemma_well_formed_with_key(root, "hooks"@, Tree::Table(kept_events(shape, h)));
            lemma_well_formed_without_key(root, "hooks"@);
        }
    }
    lemma_extended_well_formed(t, list);
    lemma_extended_well_formed(stripped(shape, t), list);
}

proof fn lemma_extended_well_formed<L: Leaf>(t: Tree<L>, list: Seq<(Seq<char>, Tree<L>)>)
    requires
        well_formed(t),
        forall|i: int| 0 <= i < list.len() ==> well_formed((#[trigger] list[i]).1),
    ensures
        well_formed(extended(t, list)),
{
    if let Tree::Table(root) = t {
        lemma_well_formed_lookup(root, "hooks"@);
        if let Some(h) = hook_table(root) {
            lemma_appended_all_well_formed(h, list);
            lemma_well_formed_with_key(root, "hooks"@, Tree::Table(appended_all(h, list)));
        }
    }
}

// ---------------------------------------------------------------------------
// Settings with nothing of ours
// ---------------------------------------------------------------------------

/// An entry that is no group without definitions.
pub open spec fn is_full<L>(shape: Shape, entry: Tree<L>) -> bool {
    shape == Shape::Nested ==> (field(entry, "hooks"@) matches Some(Tree::Array(list)) ==> list.len()
        > 0)
}

/// Settings without an empty group, an empty event or an empty `hooks` table.
pub open spec fn is_tidy<L>(shape: Shape, t: Tree<L>) -> bool {
    field(t, "hooks"@) matches Some(Tree::Table(h)) ==> h.len() > 0 && forall|i: int|
        0 <= i < h.len() ==> ((#[trigger] h[i]).1 matches Tree::Array(list) ==> list.len() > 0
            && forall|j: int| 0 <= j < list.len() ==> is_full(shape, #[trigger] list[j]))
}

proof fn lemma_all_foreign<L>(list: Seq<Tree<L>>)
    requires
        foreign(list).len() == list.len(),
    ensures
        foreign(list) == list,
    decreases list.len(),
{
    if list.len() > 0 {
        lemma_foreign(list.drop_last());
        lemma_all_foreign(list.drop_last());
        assert(list =~= list.drop_last().push(list.last()));
    }
}

proof fn lemma_kept_whole<L>(shape: Shape, entry: Tree<L>)
    requires
        owned_in(shape, entry) == 0,
        is_full(shape, entry),
    ensures
        kept(shape, entry) == Some(entry),
{
    if let (Shape::Nested, Tree::Table(m)) = (shape, entry) {
        if let Some(Tree::Array(list)) = lookup(m, "hooks"@) {
            lemma_foreign(list);
            lemma_all_foreign(list);
            lemma_key_pos(m, "hooks"@);
            assert(with_key(m, "hooks"@, Tree::Array(list)) =~= m);
        }
    }
}

proof fn lemma_entries_whole<L>(shape: Shape, list: Seq<Tree<L>>)
    requires
        owned_entries(shape, list) == 0,
        forall|j: int| 0 <= j < list.len() ==> is_full(shape, #[trigger] list[j]),
    ensures
        kept_entries(shape, list) == list,
    decreases list.len(),
{
    if list.len() > 0 {
        let d = list.drop_last();
        assert forall|j: int| 0 <= j < d.len() implies is_full(shape, #[trigger] d[j]) by {
            assert(d[j] == list[j]);
        }
        lemma_entries_whole(shape, d);
        assert(is_full(shape, list[list.len() - 1]));
        lemma_kept_whole(shape, list.last());
        assert(list =~= d.push(list.last()));
    }
}

proof fn lemma_events_whole<L>(shape: Shape, h: Seq<(Seq<char>, Tree<L>)>)
    requires
        owned_events(shape, h) == 0,
        forall|i: int|
            0 <= i < h.len() ==> ((#[trigger] h[i]).1 matches Tree::Array(list) ==> list.len() > 0
                && forall|j: int| 0 <= j < list.len() ==> is_full(shape, #[trigger] list[j])),
    ensures
        kept_events(shape, h) == h,
    decreases h.len(),
{
    if h.len() > 0 {
        let d = h.drop_last();
        assert forall|i: int| 0 <= i < d.len() implies ((#[trigger] d[i]).1 matches Tree::Array(
            list,
        ) ==> list.len() > 0 && forall|j: int|
            0 <= j < list.len() ==> is_full(shape, #[trigger] list[j])) by {
            assert(d[i] == h[i]);
        }
        lemma_events_whole(shape, d);
        assert(h[h.len() - 1] == h.last());
        if let Tree::Array(list) = h.last().1 {
            lemma_entries_whole(shape, list);
        }
        assert(h =~= d.push(h.last()));
    }
}

/// Settings with nothing of ours, and nothing empty under `hooks`, are left by an
/// uninstall exactly as they are, and come back exactly as they were after an
/// install. What is empty under `hooks` is taken out with ours.
pub proof fn law_foreign_settings_come_back<L>(
    shape: Shape,
    t: Tree<L>,
    list: Seq<(Seq<char>, Tree<L>)>,
)
    requires
        top_sorted(t),
        all_ours(shape, list),
        has_room(t, list),
        owned_total(shape, t) == 0,
        is_tidy(shape, t),
    ensures
        stripped(shape, t) == t,
        stripped(shape, installed(shape, t, list)) == t,
{
    if let Tree::Table(root) = t {
        if let Some(Tree::Table(h)) = lookup(root, "hooks"@) {
            lemma_events_whole(shape, h);
            lemma_key_pos(root, "hooks"@);
            assert(with_key(root, "hooks"@, Tree::Table(h)) =~= root);
        }
    }
    law_uninstall_undoes_install(shape, t, list);
}

} // verus!
