//! JSON documents as trees, and their text form through `serde_json`.

use crate::text;
use crate::text::texts;
use crate::tree::{
    entries, lemma_array_view, lemma_array_well_formed, lemma_table_view,
    lemma_well_formed_with_key, set_key, sorted, text_node, views, well_formed, with_key, Leaf,
    Node, Tree,
};
use vstd::prelude::*;

verus! {

/// `serde_json::Value`, a JSON document as that crate holds it.
#[verifier::external_type_specification]
#[verifier::external_body]
pub struct ExJsonValue(serde_json::Value);

/// `serde_json::Number`, carried through unread.
#[verifier::external_type_specification]
#[verifier::external_body]
pub struct ExJsonNumber(serde_json::Number);

/// What a JSON document has at its ends besides text.
#[derive(Debug, PartialEq)]
pub enum Scalar {
    Null,
    Bool(bool),
    Number(serde_json::Number),
}

impl Leaf for Scalar {
    open spec fn sound(&self) -> bool {
        true
    }
}

/// A JSON document.
pub type Json = Node<Scalar>;

/// A JSON document in contracts.
pub type JsonTree = Tree<Scalar>;

/// The document that a `serde_json::Value` holds.
pub uninterp spec fn tree_of(v: serde_json::Value) -> JsonTree;

/// What `serde_json::from_str` makes of a text: the document it writes, or the
/// message of the error that it is refused with.
pub uninterp spec fn json_parsed(text: Seq<char>) -> Result<JsonTree, Seq<char>>;

/// The compact text that `serde_json` writes for a document.
pub uninterp spec fn json_text(t: JsonTree) -> Seq<char>;

/// The indented text that `serde_json` writes for a document.
pub uninterp spec fn json_text_pretty(t: JsonTree) -> Result<Seq<char>, Seq<char>>;

/// Keys that `serde_json` keeps for its own use.
pub open spec fn is_reserved(key: Seq<char>) -> bool {
    key == "$serde_json::private::RawValue"@ || key == "$serde_json::private::Number"@
}

/// How deep arrays and objects may nest for `serde_json` to read them.
pub open spec fn levels() -> nat {
    127
}

/// A document that is read as it is written: it nests no deeper than `n` levels,
/// has no reserved key, and each of its numbers is read as it is written. (Of the
/// numbers only some fractions are not: reading may miss their last bit.)
pub open spec fn reads_back(t: JsonTree, n: nat) -> bool
    decreases t,
{
    match t {
        Tree::Leaf(Scalar::Number(_)) => json_parsed(json_text(t)) == Ok::<JsonTree, Seq<char>>(t),
        Tree::Leaf(_) => true,
        Tree::Text(_) => true,
        Tree::Array(s) => n > 0 && forall|i: int|
            0 <= i < s.len() ==> reads_back(#[trigger] s[i], (n - 1) as nat),
        Tree::Table(m) => n > 0 && forall|i: int|
            0 <= i < m.len() ==> !is_reserved((#[trigger] m[i]).0) && reads_back(
                m[i].1,
                (n - 1) as nat,
            ),
    }
}

/// The number that `serde_json` holds for an unsigned integer.
pub uninterp spec fn number_of(n: u64) -> serde_json::Number;

/// `serde_json::Number::clone` gives an equal number.
pub assume_specification[ <serde_json::Number as Clone>::clone ](
    n: &serde_json::Number,
) -> (r: serde_json::Number)
    ensures
        r == *n,
;

/// `serde_json::Number::as_u64` gives an unsigned integer just where the number is
/// the one that `Number::from` makes of it.
pub assume_specification[ serde_json::Number::as_u64 ](n: &serde_json::Number) -> (r: Option<u64>)
    ensures
        forall|k: u64| r == Some(k) <==> *n == #[trigger] number_of(k),
;

/// The top of a `serde_json::Value`.
enum Part<'a> {
    Null,
    Bool(bool),
    Number(&'a serde_json::Number),
    Text(&'a str),
    Array(&'a Vec<serde_json::Value>),
    Object(Vec<(&'a str, &'a serde_json::Value)>),
}

/// The variants of `serde_json::Value` told apart. The entries of an object come
/// in the order of their keys: its map is a `BTreeMap`.
#[verifier::external_body]
fn part_of<'a>(v: &'a serde_json::Value) -> (r: Part<'a>)
    ensures
        match r {
            Part::Null => tree_of(*v) == JsonTree::Leaf(Scalar::Null),
            Part::Bool(b) => tree_of(*v) == JsonTree::Leaf(Scalar::Bool(b)),
            Part::Number(n) => tree_of(*v) == JsonTree::Leaf(Scalar::Number(*n)),
            Part::Text(s) => tree_of(*v) == JsonTree::Text(s@),
            Part::Array(a) => tree_of(*v) == JsonTree::Array(
                Seq::new(a@.len(), |i: int| tree_of(a@[i])),
            ),
            Part::Object(m) => {
                let shown = Seq::new(m@.len(), |i: int| (m@[i].0@, tree_of(*m@[i].1)));
                tree_of(*v) == JsonTree::Table(shown) && sorted(shown)
            },
        },
{
    match v {
        serde_json::Value::Null => Part::Null,
        serde_json::Value::Bool(b) => Part::Bool(*b),
        serde_json::Value::Number(n) => Part::Number(n),
        serde_json::Value::String(s) => Part::Text(s.as_str()),
        serde_json::Value::Array(a) => Part::Array(a),
        serde_json::Value::Object(m) => Part::Object(
            m.iter().map(|(k, x)| (k.as_str(), x)).collect(),
        ),
    }
}

/// The top of a document that is to become a `serde_json::Value`.
enum Whole {
    Null,
    Bool(bool),
    Number(serde_json::Number),
    Text(String),
    Array(Vec<serde_json::Value>),
    Object(Vec<(String, serde_json::Value)>),
}

/// The `serde_json::Value` with the given top. An object's entries become its
/// map, which holds them in the order of their keys.
#[verifier::external_body]
fn assembled(w: Whole) -> (r: serde_json::Value)
    requires
        match w {
            Whole::Object(m) => sorted(Seq::new(m@.len(), |i: int| (m@[i].0@, tree_of(m@[i].1)))),
            _ => true,
        },
    ensures
        tree_of(r) == (match w {
            Whole::Null => JsonTree::Leaf(Scalar::Null),
            Whole::Bool(b) => JsonTree::Leaf(Scalar::Bool(b)),
            Whole::Number(n) => JsonTree::Leaf(Scalar::Number(n)),
            Whole::Text(s) => JsonTree::Text(s@),
            Whole::Array(a) => JsonTree::Array(Seq::new(a@.len(), |i: int| tree_of(a@[i]))),
            Whole::Object(m) => JsonTree::Table(
                Seq::new(m@.len(), |i: int| (m@[i].0@, tree_of(m@[i].1))),
            ),
        }),
{
    match w {
        Whole::Null => serde_json::Value::Null,
        Whole::Bool(b) => serde_json::Value::Bool(b),
        Whole::Number(n) => serde_json::Value::Number(n),
        Whole::Text(s) => serde_json::Value::String(s),
        Whole::Array(a) => serde_json::Value::Array(a),
        Whole::Object(m) => serde_json::Value::Object(m.into_iter().collect()),
    }
}

/// `serde_json::from_str`, read into a `serde_json::Value`; an error becomes its message.
#[verifier::external_body]
fn value_from_str(text: &str) -> (r: Result<serde_json::Value, String>)
    ensures
        match r {
            Ok(v) => json_parsed(text@) == Ok::<JsonTree, Seq<char>>(tree_of(v)),
            Err(e) => json_parsed(text@) == Err::<JsonTree, Seq<char>>(e@),
        },
{
    serde_json::from_str::<serde_json::Value>(text).map_err(|e| e.to_string())
}

/// `serde_json::Value::to_string`: the document without any white space between its parts.
#[verifier::external_body]
fn value_to_string(v: &serde_json::Value) -> (r: String)
    ensures
        r@ == json_text(tree_of(*v)),
{
    v.to_string()
}

/// `serde_json::to_string_pretty`: the document over several lines, indented; an
/// error becomes its message. The text starts with the first character of the
/// document, and with a line feed behind it `serde_json::from_str` gives the
/// document back where that nests no deeper than the reader goes, has no reserved
/// key, and has only numbers that are read as they are written.
#[verifier::external_body]
fn value_to_string_pretty(v: &serde_json::Value) -> (r: Result<String, String>)
    ensures
        match r {
            Ok(s) => json_text_pretty(tree_of(*v)) == Ok::<Seq<char>, Seq<char>>(s@) && s@.len() > 0
                && !text::is_white(s@[0]) && (reads_back(tree_of(*v), levels()) ==> json_parsed(
                s@ + "\n"@,
            ) == Ok::<JsonTree, Seq<char>>(tree_of(*v))),
            Err(e) => json_text_pretty(tree_of(*v)) == Err::<Seq<char>, Seq<char>>(e@),
        },
{
    serde_json::to_string_pretty(v).map_err(|e| e.to_string())
}

/// `serde_json::Number::from` on an unsigned integer.
#[verifier::external_body]
fn number_from(n: u64) -> (r: serde_json::Number)
    ensures
        r == number_of(n),
{
    serde_json::Number::from(n)
}

/// The document that a `serde_json::Value` holds, as a tree of this library.
fn lifted(v: &serde_json::Value) -> (r: Json)
    ensures
        r@ == tree_of(*v),
        well_formed(r@),
    decreases tree_of(*v),
{
    broadcast use {lemma_array_view, lemma_table_view};

    let ghost t = tree_of(*v);
    match part_of(v) {
        Part::Null => Node::Leaf(Scalar::Null),
        Part::Bool(b) => Node::Leaf(Scalar::Bool(b)),
        Part::Number(n) => Node::Leaf(Scalar::Number(n.clone())),
        Part::Text(s) => Node::Text(text::owned(s)),
        Part::Array(a) => {
            let mut out: Vec<Json> = Vec::new();
            let mut i: usize = 0;
            while i < a.len()
                invariant
                    i <= a@.len(),
                    t == tree_of(*v),
                    t == JsonTree::Array(Seq::new(a@.len(), |k: int| tree_of(a@[k]))),
                    out@.len() == i,
                    forall|k: int|
                        0 <= k < i ==> (#[trigger] out@[k])@ == tree_of(a@[k]) && well_formed(
                            out@[k]@,
                        ),
                decreases a@.len() - i,
            {
                assert(t->Array_0[i as int] == tree_of(a@[i as int]));
                let item = lifted(&a[i]);
                out.push(item);
                i += 1;
            }
            assert(views(out@) =~= t->Array_0);
            Node::Array(out)
        },
        Part::Object(m) => {
            let mut out: Vec<(String, Json)> = Vec::new();
            let mut i: usize = 0;
            while i < m.len()
                invariant
                    i <= m@.len(),
                    t == tree_of(*v),
                    t == JsonTree::Table(
                        Seq::new(m@.len(), |k: int| (m@[k].0@, tree_of(*m@[k].1))),
                    ),
                    out@.len() == i,
                    forall|k: int|
                        0 <= k < i ==> (#[trigger] out@[k]).0@ == m@[k].0@ && out@[k].1@
                            == tree_of(*m@[k].1) && well_formed(out@[k].1@),
                decreases m@.len() - i,
            {
                assert(t->Table_0[i as int] == (m@[i as int].0@, tree_of(*m@[i as int].1)));
                let (key, value) = m[i];
                proof {
                    let m2 = t->Table_0;
                    assert(decreases_to!(t => m2));
                    assert(decreases_to!(m2 => m2[i as int]));
                    assert(decreases_to!(m2[i as int] => m2[i as int].1));
                }
                let item = lifted(value);
                out.push((text::owned(key), item));
                i += 1;
            }
            assert(entries(out@) =~= t->Table_0);
            Node::Table(out)
        },
    }
}

/// The document as a `serde_json::Value`.
fn lowered(j: &Json) -> (r: serde_json::Value)
    requires
        well_formed(j@),
    ensures
        tree_of(r) == j@,
    decreases j,
{
    broadcast use {lemma_array_view, lemma_table_view};

    match j {
        Node::Leaf(Scalar::Null) => assembled(Whole::Null),
        Node::Leaf(Scalar::Bool(b)) => assembled(Whole::Bool(*b)),
        Node::Leaf(Scalar::Number(n)) => assembled(Whole::Number(n.clone())),
        Node::Text(s) => assembled(Whole::Text(s.clone())),
        Node::Array(v) => {
            let mut out: Vec<serde_json::Value> = Vec::new();
            let mut i: usize = 0;
            while i < v.len()
                invariant
                    i <= v@.len(),
                    *j == Node::Array(*v),
                    well_formed(j@),
                    out@.len() == i,
                    forall|k: int| 0 <= k < i ==> tree_of(#[trigger] out@[k]) == v@[k]@,
                decreases v@.len() - i,
            {
                assert(j@->Array_0[i as int] == v@[i as int]@);
                assert(well_formed(j@->Array_0[i as int]));
                let item = lowered(&v[i]);
                out.push(item);
                i += 1;
            }
            assert(Seq::new(out@.len(), |k: int| tree_of(out@[k])) =~= views(v@));
            assembled(Whole::Array(out))
        },
        Node::Table(v) => {
            let mut out: Vec<(String, serde_json::Value)> = Vec::new();
            let mut i: usize = 0;
            while i < v.len()
                invariant
                    i <= v@.len(),
                    *j == Node::Table(*v),
                    well_formed(j@),
                    out@.len() == i,
                    forall|k: int|
                        0 <= k < i ==> (#[trigger] out@[k]).0@ == v@[k].0@ && tree_of(out@[k].1)
                            == v@[k].1@,
                decreases v@.len() - i,
            {
                assert(j@->Table_0[i as int].1 == v@[i as int].1@);
                assert(well_formed(j@->Table_0[i as int].1));
                let item = lowered(&v[i].1);
                out.push((v[i].0.clone(), item));
                i += 1;
            }
            assert(Seq::new(out@.len(), |k: int| (out@[k].0@, tree_of(out@[k].1))) =~= entries(v@));
            assembled(Whole::Object(out))
        },
    }
}

/// Reads a JSON text.
pub fn parse(text: &str) -> (r: Result<Json, String>)
    ensures
        match r {
            Ok(j) => json_parsed(text@) == Ok::<JsonTree, Seq<char>>(j@) && well_formed(j@),
            Err(e) => json_parsed(text@) == Err::<JsonTree, Seq<char>>(e@),
        },
{
    match value_from_str(text) {
        Ok(v) => Ok(lifted(&v)),
        Err(e) => Err(e),
    }
}

/// Writes a document as one line of JSON.
pub fn render(j: &Json) -> (r: String)
    requires
        well_formed(j@),
    ensures
        r@ == json_text(j@),
{
    let v = lowered(j);
    value_to_string(&v)
}

/// Writes a document as indented JSON.
pub fn render_pretty(j: &Json) -> (r: Result<String, String>)
    requires
        well_formed(j@),
    ensures
        match r {
            Ok(s) => json_text_pretty(j@) == Ok::<Seq<char>, Seq<char>>(s@) && s@.len() > 0
                && !text::is_white(s@[0]) && (reads_back(j@, levels()) ==> json_parsed(s@ + "\n"@)
                == Ok::<JsonTree, Seq<char>>(j@)),
            Err(e) => json_text_pretty(j@) == Err::<Seq<char>, Seq<char>>(e@),
        },
{
    let v = lowered(j);
    value_to_string_pretty(&v)
}

/// An unsigned number in a document.
pub open spec fn number_tree(n: u64) -> JsonTree {
    JsonTree::Leaf(Scalar::Number(number_of(n)))
}

/// An unsigned number as a document.
pub fn number(n: u64) -> (r: Json)
    ensures
        r@ == number_tree(n),
{
    Node::Leaf(Scalar::Number(number_from(n)))
}

/// Whether a document is an unsigned number.
pub fn is_number(j: &Json, n: u64) -> (r: bool)
    ensures
        r == (j@ == number_tree(n)),
{
    match j {
        Node::Leaf(Scalar::Number(m)) => match m.as_u64() {
            Some(k) => {
                assert(*m == number_of(k));
                k == n
            },
            None => false,
        },
        _ => false,
    }
}

/// A truth value as a document.
pub fn boolean(b: bool) -> (r: Json)
    ensures
        r@ == JsonTree::Leaf(Scalar::Bool(b)),
{
    Node::Leaf(Scalar::Bool(b))
}

/// `null`.
pub fn null() -> (r: Json)
    ensures
        r@ == JsonTree::Leaf(Scalar::Null),
{
    Node::Leaf(Scalar::Null)
}

/// A copy of a document.
pub fn copy(j: &Json) -> (r: Json)
    ensures
        r@ == j@,
    decreases j,
{
    broadcast use {lemma_array_view, lemma_table_view};

    match j {
        Node::Leaf(Scalar::Null) => Node::Leaf(Scalar::Null),
        Node::Leaf(Scalar::Bool(b)) => Node::Leaf(Scalar::Bool(*b)),
        Node::Leaf(Scalar::Number(n)) => Node::Leaf(Scalar::Number(n.clone())),
        Node::Text(s) => Node::Text(s.clone()),
        Node::Array(v) => {
            let mut out: Vec<Json> = Vec::new();
            let mut i: usize = 0;
            while i < v.len()
                invariant
                    i <= v@.len(),
                    *j == Node::Array(*v),
                    out@.len() == i,
                    forall|k: int| 0 <= k < i ==> (#[trigger] out@[k])@ == v@[k]@,
                decreases v@.len() - i,
            {
                proof {
                    let j2 = *j;
                    assert(decreases_to!(j2 => j2->Array_0));
                    assert(decreases_to!(v@ => v@[i as int]));
                }
                let item = copy(&v[i]);
                out.push(item);
                i += 1;
            }
            assert(views(out@) =~= views(v@));
            Node::Array(out)
        },
        Node::Table(v) => {
            let mut out: Vec<(String, Json)> = Vec::new();
            let mut i: usize = 0;
            while i < v.len()
                invariant
                    i <= v@.len(),
                    *j == Node::Table(*v),
                    out@.len() == i,
                    forall|k: int|
                        0 <= k < i ==> (#[trigger] out@[k]).0@ == v@[k].0@ && out@[k].1@
                            == v@[k].1@,
                decreases v@.len() - i,
            {
                proof {
                    let j2 = *j;
                    assert(decreases_to!(j2 => j2->Table_0));
                    assert(decreases_to!(v@ => v@[i as int]));
                    assert(decreases_to!(v@[i as int] => v@[i as int].1));
                }
                let item = copy(&v[i].1);
                out.push((v[i].0.clone(), item));
                i += 1;
            }
            assert(entries(out@) =~= entries(v@));
            Node::Table(out)
        },
    }
}

/// Sets a key of a well-formed table to a well-formed value.
pub fn put(m: &mut Vec<(String, Json)>, key: &str, value: Json)
    requires
        well_formed(JsonTree::Table(entries(old(m)@))),
        well_formed(value@),
    ensures
        entries(final(m)@) == with_key(entries(old(m)@), key@, value@),
        well_formed(JsonTree::Table(entries(final(m)@))),
{
    proof {
        lemma_well_formed_with_key(entries(m@), key@, value@);
    }
    set_key(m, key, value);
}

/// An empty table.
pub fn no_entries() -> (r: Vec<(String, Json)>)
    ensures
        entries(r@) == Seq::<(Seq<char>, JsonTree)>::empty(),
        well_formed(JsonTree::Table(entries(r@))),
{
    let m: Vec<(String, Json)> = Vec::new();
    assert(entries(m@) =~= Seq::empty());
    m
}

/// Texts as an array.
pub open spec fn text_array(list: Seq<Seq<char>>) -> JsonTree {
    Tree::Array(Seq::new(list.len(), |i: int| JsonTree::Text(list[i])))
}

/// Texts as an array.
pub fn text_list(list: &Vec<String>) -> (r: Json)
    ensures
        r@ == text_array(texts(list@)),
        well_formed(r@),
{
    let mut items: Vec<Json> = Vec::new();
    let mut i: usize = 0;
    while i < list.len()
        invariant
            i <= list@.len(),
            items@.len() == i,
            forall|k: int| 0 <= k < i ==> (#[trigger] items@[k])@ == JsonTree::Text(list@[k]@),
        decreases list@.len() - i,
    {
        items.push(text_node(list[i].as_str()));
        i += 1;
    }
    proof {
        lemma_array_view(items);
        assert(views(items@) =~= Seq::new(
            texts(list@).len(),
            |k: int| JsonTree::Text(texts(list@)[k]),
        ));
        lemma_array_well_formed(views(items@));
    }
    Node::Array(items)
}

} // verus!
