//! Configuration trees: text, arrays and tables over some kind of leaf.
//!
//! JSON and TOML documents are both held in this shape. A table keeps its
//! entries in a vector; a key that is not there yet is put before the first
//! entry with a greater key, so a table that starts sorted stays sorted.

use crate::text;
use crate::text::precedes;
use vstd::prelude::*;

verus! {

/// A tree as the program holds it.
#[derive(Debug, PartialEq)]
pub enum Node<L> {
    Leaf(L),
    Text(String),
    Array(Vec<Node<L>>),
    Table(Vec<(String, Node<L>)>),
}

/// A tree as the contracts speak of it.
pub enum Tree<L> {
    Leaf(L),
    Text(Seq<char>),
    Array(Seq<Tree<L>>),
    Table(Seq<(Seq<char>, Tree<L>)>),
}

/// The tree that a node shows.
pub open spec fn shown<L>(n: Node<L>) -> Tree<L>
    decreases n,
{
    match n {
        Node::Leaf(l) => Tree::Leaf(l),
        Node::Text(s) => Tree::Text(s@),
        Node::Array(v) => Tree::Array(
            Seq::new(
                v@.len(),
                |i: int|
                    if 0 <= i < v@.len() {
                        shown(v@[i])
                    } else {
                        arbitrary()
                    },
            ),
        ),
        Node::Table(v) => Tree::Table(
            Seq::new(
                v@.len(),
                |i: int|
                    if 0 <= i < v@.len() {
                        (v@[i].0@, shown(v@[i].1))
                    } else {
                        arbitrary()
                    },
            ),
        ),
    }
}

impl<L> View for Node<L> {
    type V = Tree<L>;

    open spec fn view(&self) -> Tree<L> {
        shown(*self)
    }
}

/// The views of a sequence of nodes.
pub open spec fn views<L>(v: Seq<Node<L>>) -> Seq<Tree<L>> {
    Seq::new(v.len(), |i: int| v[i]@)
}

/// The views of the entries of a table.
pub open spec fn entries<L>(v: Seq<(String, Node<L>)>) -> Seq<(Seq<char>, Tree<L>)> {
    Seq::new(v.len(), |i: int| (v[i].0@, v[i].1@))
}

/// What an array shows is the views of its nodes.
pub broadcast proof fn lemma_array_view<L>(v: Vec<Node<L>>)
    ensures
        #[trigger] Node::Array(v)@ == Tree::Array(views(v@)),
{
    let t = shown(Node::Array(v));
    assert(t->Array_0.len() == v@.len());
    assert forall|i: int| 0 <= i < v@.len() implies t->Array_0[i] == views(v@)[i] by {}
    assert(t->Array_0 =~= views(v@));
}

/// What a table shows is the views of its entries.
pub broadcast proof fn lemma_table_view<L>(v: Vec<(String, Node<L>)>)
    ensures
        #[trigger] Node::Table(v)@ == Tree::Table(entries(v@)),
{
    let t = shown(Node::Table(v));
    assert(t->Table_0.len() == v@.len());
    assert forall|i: int| 0 <= i < v@.len() implies t->Table_0[i] == entries(v@)[i] by {}
    assert(t->Table_0 =~= entries(v@));
}

/// The view of an optional node.
pub open spec fn opt_tree<L>(n: Option<&Node<L>>) -> Option<Tree<L>> {
    match n {
        Some(t) => Some(t@),
        None => None,
    }
}

// ---------------------------------------------------------------------------
// Tables
// ---------------------------------------------------------------------------

/// The position of the first entry with this key, the length where there is none.
pub open spec fn key_pos<V>(m: Seq<(Seq<char>, V)>, key: Seq<char>) -> int
    decreases m.len(),
{
    if m.len() == 0 {
        0
    } else if m[0].0 == key {
        0
    } else {
        1 + key_pos(m.skip(1), key)
    }
}

/// The value under a key.
pub open spec fn lookup<V>(m: Seq<(Seq<char>, V)>, key: Seq<char>) -> Option<V> {
    if key_pos(m, key) < m.len() {
        Some(m[key_pos(m, key)].1)
    } else {
        None
    }
}

/// Where a new key belongs: before the first entry whose key does not come before it.
pub open spec fn slot<V>(m: Seq<(Seq<char>, V)>, key: Seq<char>) -> int
    decreases m.len(),
{
    if m.len() == 0 || !precedes(m[0].0, key) {
        0
    } else {
        1 + slot(m.skip(1), key)
    }
}

/// The entries with `value` under `key`, replacing what was there.
pub open spec fn with_key<V>(m: Seq<(Seq<char>, V)>, key: Seq<char>, value: V) -> Seq<
    (Seq<char>, V),
> {
    if key_pos(m, key) < m.len() {
        m.update(key_pos(m, key), (key, value))
    } else {
        m.insert(slot(m, key), (key, value))
    }
}

/// The entries without the first one that has this key.
pub open spec fn without_key<V>(m: Seq<(Seq<char>, V)>, key: Seq<char>) -> Seq<(Seq<char>, V)> {
    if key_pos(m, key) < m.len() {
        m.remove(key_pos(m, key))
    } else {
        m
    }
}

/// The keys come in strictly increasing order.
pub open spec fn sorted<V>(m: Seq<(Seq<char>, V)>) -> bool {
    forall|i: int, j: int|
        0 <= i < j < m.len() ==> precedes((#[trigger] m[i]).0, (#[trigger] m[j]).0)
}

/// A kind of leaf, with the condition on a leaf to be one that a document can have.
pub trait Leaf {
    spec fn sound(&self) -> bool;
}

/// Every table in the tree has its keys in strictly increasing order, and every
/// leaf is sound.
pub open spec fn well_formed<L: Leaf>(t: Tree<L>) -> bool
    decreases t,
{
    match t {
        Tree::Leaf(l) => l.sound(),
        Tree::Text(_) => true,
        Tree::Array(s) => forall|i: int| 0 <= i < s.len() ==> well_formed(#[trigger] s[i]),
        Tree::Table(m) => sorted(m) && forall|i: int|
            0 <= i < m.len() ==> well_formed((#[trigger] m[i]).1),
    }
}

/// The value under a key of a tree; a tree that is no table has none.
pub open spec fn field<L>(t: Tree<L>, key: Seq<char>) -> Option<Tree<L>> {
    match t {
        Tree::Table(m) => lookup(m, key),
        _ => None,
    }
}

/// The text that a tree is.
pub open spec fn as_text<L>(t: Option<Tree<L>>) -> Option<Seq<char>> {
    match t {
        Some(Tree::Text(s)) => Some(s),
        _ => None,
    }
}

/// The text under a key of a tree.
pub open spec fn text_field<L>(t: Tree<L>, key: Seq<char>) -> Option<Seq<char>> {
    as_text(field(t, key))
}

/// `key_pos` is in bounds, an entry with the key stands there, and none before it.
pub proof fn lemma_key_pos<V>(m: Seq<(Seq<char>, V)>, key: Seq<char>)
    ensures
        0 <= key_pos(m, key) <= m.len(),
        key_pos(m, key) < m.len() ==> m[key_pos(m, key)].0 == key,
        forall|j: int| 0 <= j < key_pos(m, key) ==> (#[trigger] m[j]).0 != key,
    decreases m.len(),
{
    if m.len() > 0 && m[0].0 != key {
        lemma_key_pos(m.skip(1), key);
        assert forall|j: int| 0 <= j < key_pos(m, key) implies (#[trigger] m[j]).0 != key by {
            if j > 0 {
                assert(m.skip(1)[j - 1] == m[j]);
            }
        }
    }
}

/// The first entry with a key is at `key_pos`.
pub proof fn lemma_key_pos_is<V>(m: Seq<(Seq<char>, V)>, key: Seq<char>, i: int)
    requires
        0 <= i <= m.len(),
        forall|j: int| 0 <= j < i ==> (#[trigger] m[j]).0 != key,
        i < m.len() ==> m[i].0 == key,
    ensures
        key_pos(m, key) == i,
{
    lemma_key_pos(m, key);
    if key_pos(m, key) < i {
        assert(m[key_pos(m, key)].0 == key);
    } else if i < key_pos(m, key) {
        assert(m[i].0 == key);
    }
}

/// `slot` is in bounds, and every key before it comes before the new one.
pub proof fn lemma_slot<V>(m: Seq<(Seq<char>, V)>, key: Seq<char>)
    ensures
        0 <= slot(m, key) <= m.len(),
        forall|j: int| 0 <= j < slot(m, key) ==> precedes((#[trigger] m[j]).0, key),
        slot(m, key) < m.len() ==> !precedes(m[slot(m, key)].0, key),
    decreases m.len(),
{
    if m.len() > 0 && precedes(m[0].0, key) {
        lemma_slot(m.skip(1), key);
        assert forall|j: int| 0 <= j < slot(m, key) implies precedes((#[trigger] m[j]).0, key) by {
            if j > 0 {
                assert(m.skip(1)[j - 1] == m[j]);
            }
        }
    }
}

/// What a table holds after a key was set: the new value there, all else as before.
pub proof fn lemma_with_key<V>(m: Seq<(Seq<char>, V)>, key: Seq<char>, value: V)
    ensures
        lookup(with_key(m, key, value), key) == Some(value),
        forall|k: Seq<char>| k != key ==> lookup(with_key(m, key, value), k) == lookup(m, k),
        sorted(m) ==> sorted(with_key(m, key, value)),
{
    let n = with_key(m, key, value);
    let p = key_pos(m, key);
    let s = slot(m, key);
    lemma_key_pos(m, key);
    lemma_slot(m, key);
    if p < m.len() {
        lemma_key_pos_is(n, key, p);
        assert forall|k: Seq<char>| k != key implies lookup(n, k) == lookup(m, k) by {
            lemma_key_pos(m, k);
            let q = key_pos(m, k);
            assert forall|j: int| 0 <= j < q implies (#[trigger] n[j]).0 != k by {
                assert(m[j].0 != k);
            }
            lemma_key_pos_is(n, k, q);
        }
    } else {
        assert forall|j: int| 0 <= j < s implies (#[trigger] n[j]).0 != key by {
            assert(n[j] == m[j]);
        }
        lemma_key_pos_is(n, key, s);
        assert forall|k: Seq<char>| k != key implies lookup(n, k) == lookup(m, k) by {
            lemma_key_pos(m, k);
            let q = key_pos(m, k);
            if q < s {
                assert forall|j: int| 0 <= j < q implies (#[trigger] n[j]).0 != k by {
                    assert(n[j] == m[j]);
                }
                lemma_key_pos_is(n, k, q);
            } else {
                assert forall|j: int| 0 <= j < q + 1 implies (#[trigger] n[j]).0 != k by {
                    if j < s {
                        assert(n[j] == m[j]);
                    } else if j > s {
                        assert(n[j] == m[j - 1]);
                    }
                }
                if q < m.len() {
                    assert(n[q + 1] == m[q]);
                }
                lemma_key_pos_is(n, k, q + 1);
            }
        }
        if sorted(m) {
            assert forall|i: int, j: int| 0 <= i < j < n.len() implies precedes(
                (#[trigger] n[i]).0,
                (#[trigger] n[j]).0,
            ) by {
                if j < s {
                    assert(n[i] == m[i] && n[j] == m[j]);
                } else if j == s {
                    assert(n[i] == m[i]);
                } else {
                    assert(n[j] == m[j - 1]);
                    if i > s {
                        assert(n[i] == m[i - 1]);
                    } else if i < s {
                        assert(n[i] == m[i]);
                    } else {
                        text::lemma_precedes_total(m[s].0, key);
                        assert(m[s].0 != key);
                        if j - 1 > s {
                            text::lemma_precedes_transitive(key, m[s].0, m[j - 1].0);
                        }
                    }
                }
            }
        }
    }
}

/// What a sorted table holds after a key was taken out: nothing there, all else as before.
pub proof fn lemma_without_key<V>(m: Seq<(Seq<char>, V)>, key: Seq<char>)
    requires
        sorted(m),
    ensures
        lookup(without_key(m, key), key) is None,
        forall|k: Seq<char>| k != key ==> lookup(without_key(m, key), k) == lookup(m, k),
        sorted(without_key(m, key)),
{
    let n = without_key(m, key);
    let p = key_pos(m, key);
    lemma_key_pos(m, key);
    if p < m.len() {
        assert forall|j: int| 0 <= j < n.len() implies (#[trigger] n[j]).0 != key by {
            if j < p {
                assert(n[j] == m[j]);
            } else {
                assert(n[j] == m[j + 1]);
                assert(precedes(m[p].0, m[j + 1].0));
                text::lemma_precedes_irreflexive(key);
            }
        }
        lemma_key_pos_is(n, key, n.len() as int);
        assert forall|k: Seq<char>| k != key implies lookup(n, k) == lookup(m, k) by {
            lemma_key_pos(m, k);
            let q = key_pos(m, k);
            if q < p {
                assert forall|j: int| 0 <= j < q implies (#[trigger] n[j]).0 != k by {
                    assert(n[j] == m[j]);
                }
                assert(n[q] == m[q]);
                lemma_key_pos_is(n, k, q);
            } else {
                assert forall|j: int| 0 <= j < q - 1 implies (#[trigger] n[j]).0 != k by {
                    if j < p {
                        assert(n[j] == m[j]);
                    } else {
                        assert(n[j] == m[j + 1]);
                    }
                }
                if q < m.len() {
                    assert(n[q - 1] == m[q]);
                }
                lemma_key_pos_is(n, k, q - 1);
            }
        }
        assert forall|i: int, j: int| 0 <= i < j < n.len() implies precedes(
            (#[trigger] n[i]).0,
            (#[trigger] n[j]).0,
        ) by {
            let a = if i < p { i } else { i + 1 };
            let b = if j < p { j } else { j + 1 };
            assert(n[i] == m[a] && n[j] == m[b]);
        }
    }
}

/// Two sorted tables that hold the same are the same.
pub proof fn lemma_sorted_extensional<V>(m: Seq<(Seq<char>, V)>, n: Seq<(Seq<char>, V)>)
    requires
        sorted(m),
        sorted(n),
        forall|k: Seq<char>| lookup(m, k) == lookup(n, k),
    ensures
        m == n,
    decreases m.len(),
{
    if m.len() == 0 {
        if n.len() > 0 {
            lemma_key_pos_is(n, n[0].0, 0);
            assert(lookup(m, n[0].0) is None);
        }
        assert(m =~= n);
    } else {
        let k = m[0].0;
        lemma_key_pos_is(m, k, 0);
        assert(lookup(n, k) == Some(m[0].1));
        lemma_key_pos(n, k);
        let q = key_pos(n, k);
        assert(n.len() > 0);
        if q > 0 {
            let k2 = n[0].0;
            lemma_key_pos_is(n, k2, 0);
            lemma_key_pos(m, k2);
            let p = key_pos(m, k2);
            assert(lookup(m, k2) is Some);
            assert(m[p].0 == k2);
            assert(precedes(n[0].0, n[q].0));
            if p > 0 {
                assert(precedes(m[0].0, m[p].0));
                text::lemma_precedes_transitive(k, k2, k);
            }
            text::lemma_precedes_irreflexive(k);
        }
        assert(m[0] == n[0]);
        let m1 = m.skip(1);
        let n1 = n.skip(1);
        assert forall|i: int, j: int| 0 <= i < j < m1.len() implies precedes(
            (#[trigger] m1[i]).0,
            (#[trigger] m1[j]).0,
        ) by {
            assert(m1[i] == m[i + 1] && m1[j] == m[j + 1]);
        }
        assert forall|i: int, j: int| 0 <= i < j < n1.len() implies precedes(
            (#[trigger] n1[i]).0,
            (#[trigger] n1[j]).0,
        ) by {
            assert(n1[i] == n[i + 1] && n1[j] == n[j + 1]);
        }
        assert forall|x: Seq<char>| lookup(m1, x) == lookup(n1, x) by {
            lemma_key_pos(m1, x);
            lemma_key_pos(n1, x);
            if x == k {
                if key_pos(m1, x) < m1.len() {
                    assert(m1[key_pos(m1, x)] == m[key_pos(m1, x) + 1]);
                    assert(precedes(m[0].0, m[key_pos(m1, x) + 1].0));
                    text::lemma_precedes_irreflexive(k);
                }
                if key_pos(n1, x) < n1.len() {
                    assert(n1[key_pos(n1, x)] == n[key_pos(n1, x) + 1]);
                    assert(precedes(n[0].0, n[key_pos(n1, x) + 1].0));
                    text::lemma_precedes_irreflexive(k);
                }
            } else {
                assert(key_pos(m, x) == 1 + key_pos(m1, x));
                assert(key_pos(n, x) == 1 + key_pos(n1, x));
                assert(lookup(m, x) == lookup(n, x));
            }
        }
        lemma_sorted_extensional(m1, n1);
        assert(m =~= seq![m[0]] + m1);
        assert(n =~= seq![n[0]] + n1);
    }
}

/// An array is well-formed exactly when its items are.
pub proof fn lemma_array_well_formed<L: Leaf>(list: Seq<Tree<L>>)
    ensures
        well_formed(Tree::Array(list)) == (forall|i: int|
            0 <= i < list.len() ==> well_formed(#[trigger] list[i])),
{
    let t = Tree::Array(list);
    if well_formed(t) {
        assert forall|i: int| 0 <= i < list.len() implies well_formed(#[trigger] list[i]) by {
            assert(t->Array_0[i] == list[i]);
        }
    }
}

/// What a well-formed table holds is well-formed.
pub proof fn lemma_well_formed_lookup<L: Leaf>(m: Seq<(Seq<char>, Tree<L>)>, key: Seq<char>)
    requires
        well_formed(Tree::Table(m)),
    ensures
        lookup(m, key) matches Some(v) ==> well_formed(v),
{
    lemma_key_pos(m, key);
    if key_pos(m, key) < m.len() {
        assert(well_formed(m[key_pos(m, key)].1));
    }
}

/// Setting a key to a well-formed value keeps a table well-formed.
pub proof fn lemma_well_formed_with_key<L: Leaf>(
    m: Seq<(Seq<char>, Tree<L>)>,
    key: Seq<char>,
    value: Tree<L>,
)
    requires
        well_formed(Tree::Table(m)),
        well_formed(value),
    ensures
        well_formed(Tree::Table(with_key(m, key, value))),
{
    let n = with_key(m, key, value);
    lemma_key_pos(m, key);
    lemma_slot(m, key);
    lemma_with_key(m, key, value);
    assert forall|i: int| 0 <= i < n.len() implies well_formed((#[trigger] n[i]).1) by {
        if n[i] != (key, value) {
            if key_pos(m, key) < m.len() || i < slot(m, key) {
                assert(n[i] == m[i]);
            } else {
                assert(n[i] == m[i - 1]);
            }
        }
    }
}

/// Taking a key out keeps a table well-formed.
pub proof fn lemma_well_formed_without_key<L: Leaf>(
    m: Seq<(Seq<char>, Tree<L>)>,
    key: Seq<char>,
)
    requires
        well_formed(Tree::Table(m)),
    ensures
        well_formed(Tree::Table(without_key(m, key))),
{
    let n = without_key(m, key);
    lemma_key_pos(m, key);
    lemma_without_key(m, key);
    assert forall|i: int| 0 <= i < n.len() implies well_formed((#[trigger] n[i]).1) by {
        if i < key_pos(m, key) {
            assert(n[i] == m[i]);
        } else {
            assert(n[i] == m[i + 1]);
        }
    }
}

/// The first entry with a key.
pub fn find_key<L>(m: &Vec<(String, Node<L>)>, key: &str) -> (r: Option<usize>)
    ensures
        match r {
            Some(i) => i < m@.len() && key_pos(entries(m@), key@) == i,
            None => key_pos(entries(m@), key@) == m@.len(),
        },
{
    let mut i: usize = 0;
    while i < m.len()
        invariant
            i <= m@.len(),
            forall|j: int| 0 <= j < i ==> (#[trigger] entries(m@)[j]).0 != key@,
        decreases m@.len() - i,
    {
        if text::same(m[i].0.as_str(), key) {
            proof {
                lemma_key_pos_is(entries(m@), key@, i as int);
            }
            return Some(i);
        }
        i += 1;
    }
    proof {
        lemma_key_pos_is(entries(m@), key@, i as int);
    }
    None
}

/// Where a new key belongs.
fn find_slot<L>(m: &Vec<(String, Node<L>)>, key: &str) -> (r: usize)
    ensures
        r <= m@.len(),
        slot(entries(m@), key@) == r,
{
    let mut i: usize = 0;
    assert(entries(m@).skip(0) =~= entries(m@));
    while i < m.len() && text::before(m[i].0.as_str(), key)
        invariant
            i <= m@.len(),
            slot(entries(m@), key@) == i + slot(entries(m@).skip(i as int), key@),
        decreases m@.len() - i,
    {
        assert(entries(m@).skip(i as int).skip(1) =~= entries(m@).skip(i + 1));
        i += 1;
    }
    i
}

/// Sets `key` to `value`.
pub fn set_key<L>(m: &mut Vec<(String, Node<L>)>, key: &str, value: Node<L>)
    ensures
        entries(final(m)@) == with_key(entries(old(m)@), key@, value@),
{
    let ghost before = m@;
    match find_key(m, key) {
        Some(i) => {
            let name = text::owned(key);
            m.set(i, (name, value));
            assert(entries(m@) =~= entries(before).update(i as int, (key@, value@)));
        },
        None => {
            let i = find_slot(m, key);
            let name = text::owned(key);
            m.insert(i, (name, value));
            assert(entries(m@) =~= entries(before).insert(i as int, (key@, value@)));
        },
    }
}

impl<L> Node<L> {
    /// The value under a key.
    pub fn get<'a>(&'a self, key: &str) -> (r: Option<&'a Node<L>>)
        ensures
            opt_tree(r) == field(self@, key@),
    {
        broadcast use lemma_table_view;

        match self {
            Node::Table(m) => match find_key(m, key) {
                Some(i) => {
                    assert(entries(m@)[i as int].1 == m@[i as int].1@);
                    Some(&m[i].1)
                },
                None => None,
            },
            _ => None,
        }
    }

    /// The text that this node is.
    pub fn as_str<'a>(&'a self) -> (r: Option<&'a str>)
        ensures
            text::opt_str(r) == as_text(Some(self@)),
    {
        match self {
            Node::Text(s) => Some(s.as_str()),
            _ => None,
        }
    }

    /// The text under a key.
    pub fn get_str<'a>(&'a self, key: &str) -> (r: Option<&'a str>)
        ensures
            text::opt_str(r) == text_field(self@, key@),
    {
        match self.get(key) {
            Some(n) => n.as_str(),
            None => None,
        }
    }
}

/// A text node.
pub fn text_node<L>(s: &str) -> (r: Node<L>)
    ensures
        r@ == Tree::<L>::Text(s@),
{
    Node::Text(text::owned(s))
}

} // verus!
