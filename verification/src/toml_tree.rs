//! TOML documents as trees, and their text form through the `toml` crate.

use crate::text;
use crate::tree::{entries, lemma_array_view, lemma_table_view, sorted, views, well_formed};
use crate::tree::{Leaf, Node, Tree};
use vstd::prelude::*;

verus! {

/// `toml::Value`, a TOML document as that crate holds it.
#[verifier::external_type_specification]
#[verifier::external_body]
pub struct ExTomlValue(toml::Value);

/// What a TOML document has at its ends besides text. Booleans, floats and dates
/// are carried through unread.
#[derive(Debug, PartialEq)]
pub enum TomlScalar {
    Integer(i64),
    Other(toml::Value),
}

impl Leaf for TomlScalar {
    /// A value carried through is one that stands for itself alone.
    open spec fn sound(&self) -> bool {
        match self {
            TomlScalar::Integer(_) => true,
            TomlScalar::Other(v) => toml_tree_of(*v) == TomlTree::Leaf(TomlScalar::Other(*v)),
        }
    }
}

/// A TOML document.
pub type Toml = Node<TomlScalar>;

/// A TOML document in contracts.
pub type TomlTree = Tree<TomlScalar>;

/// The document that a `toml::Value` holds.
pub uninterp spec fn toml_tree_of(v: toml::Value) -> TomlTree;

/// What `toml::from_str` makes of a text: the document it writes, or the message
/// of the error that it is refused with.
pub uninterp spec fn toml_parsed(text: Seq<char>) -> Result<TomlTree, Seq<char>>;

/// The text that `toml::to_string_pretty` writes for a document.
pub uninterp spec fn toml_text_pretty(t: TomlTree) -> Result<Seq<char>, Seq<char>>;

/// `toml::Value::clone` gives an equal value.
pub assume_specification[ <toml::Value as Clone>::clone ](v: &toml::Value) -> (r: toml::Value)
    ensures
        r == *v,
;

/// The top of a `toml::Value`.
enum Part<'a> {
    Integer(i64),
    Other(&'a toml::Value),
    Text(&'a str),
    Array(&'a Vec<toml::Value>),
    Table(Vec<(&'a str, &'a toml::Value)>),
}

/// The variants of `toml::Value` told apart. The entries of a table come in the
/// order of their keys: its map is a `BTreeMap`.
#[verifier::external_body]
fn part_of<'a>(v: &'a toml::Value) -> (r: Part<'a>)
    ensures
        match r {
            Part::Integer(n) => toml_tree_of(*v) == TomlTree::Leaf(TomlScalar::Integer(n)),
            Part::Other(x) => x == v && toml_tree_of(*v) == TomlTree::Leaf(TomlScalar::Other(*v)),
            Part::Text(s) => toml_tree_of(*v) == TomlTree::Text(s@),
            Part::Array(a) => toml_tree_of(*v) == TomlTree::Array(
                Seq::new(a@.len(), |i: int| toml_tree_of(a@[i])),
            ),
            Part::Table(m) => {
                let shown = Seq::new(m@.len(), |i: int| (m@[i].0@, toml_tree_of(*m@[i].1)));
                toml_tree_of(*v) == TomlTree::Table(shown) && sorted(shown)
            },
        },
{
    match v {
        toml::Value::Integer(n) => Part::Integer(*n),
        toml::Value::Float(_) => Part::Other(v),
        toml::Value::Boolean(_) => Part::Other(v),
        toml::Value::Datetime(_) => Part::Other(v),
        toml::Value::String(s) => Part::Text(s.as_str()),
        toml::Value::Array(a) => Part::Array(a),
        toml::Value::Table(m) => Part::Table(m.iter().map(|(k, x)| (k.as_str(), x)).collect()),
    }
}

/// The top of a document that is to become a `toml::Value`.
enum Whole {
    Integer(i64),
    Text(String),
    Array(Vec<toml::Value>),
    Table(Vec<(String, toml::Value)>),
}

/// The `toml::Value` with the given top. A table's entries become its map, which
/// holds them in the order of their keys.
#[verifier::external_body]
fn assembled(w: Whole) -> (r: toml::Value)
    requires
        match w {
            Whole::Table(m) => sorted(
                Seq::new(m@.len(), |i: int| (m@[i].0@, toml_tree_of(m@[i].1))),
            ),
            _ => true,
        },
    ensures
        toml_tree_of(r) == (match w {
            Whole::Integer(n) => TomlTree::Leaf(TomlScalar::Integer(n)),
            Whole::Text(s) => TomlTree::Text(s@),
            Whole::Array(a) => TomlTree::Array(Seq::new(a@.len(), |i: int| toml_tree_of(a@[i]))),
            Whole::Table(m) => TomlTree::Table(
                Seq::new(m@.len(), |i: int| (m@[i].0@, toml_tree_of(m@[i].1))),
            ),
        }),
{
    match w {
        Whole::Integer(n) => toml::Value::Integer(n),
        Whole::Text(s) => toml::Value::String(s),
        Whole::Array(a) => toml::Value::Array(a),
        Whole::Table(m) => toml::Value::Table(m.into_iter().collect()),
    }
}

/// `toml::from_str`, read into a `toml::Value`; an error becomes its message.
#[verifier::external_body]
fn value_from_str(text: &str) -> (r: Result<toml::Value, String>)
    ensures
        match r {
            Ok(v) => toml_parsed(text@) == Ok::<TomlTree, Seq<char>>(toml_tree_of(v)),
            Err(e) => toml_parsed(text@) == Err::<TomlTree, Seq<char>>(e@),
        },
{
    toml::from_str::<toml::Value>(text).map_err(|e| e.to_string())
}

/// `toml::to_string_pretty`; an error becomes its message.
#[verifier::external_body]
fn value_to_string_pretty(v: &toml::Value) -> (r: Result<String, String>)
    ensures
        match r {
            Ok(s) => toml_text_pretty(toml_tree_of(*v)) == Ok::<Seq<char>, Seq<char>>(s@),
            Err(e) => toml_text_pretty(toml_tree_of(*v)) == Err::<Seq<char>, Seq<char>>(e@),
        },
{
    toml::to_string_pretty(v).map_err(|e| e.to_string())
}

/// The document that a `toml::Value` holds, as a tree of this library.
fn lifted(v: &toml::Value) -> (r: Toml)
    ensures
        r@ == toml_tree_of(*v),
        well_formed(r@),
    decreases toml_tree_of(*v),
{
    broadcast use {lemma_array_view, lemma_table_view};

    let ghost t = toml_tree_of(*v);
    match part_of(v) {
        Part::Integer(n) => Node::Leaf(TomlScalar::Integer(n)),
        Part::Other(x) => Node::Leaf(TomlScalar::Other(x.clone())),
        Part::Text(s) => Node::Text(text::owned(s)),
        Part::Array(a) => {
            let mut out: Vec<Toml> = Vec::new();
            let mut i: usize = 0;
            while i < a.len()
                invariant
                    i <= a@.len(),
                    t == toml_tree_of(*v),
                    t == TomlTree::Array(Seq::new(a@.len(), |k: int| toml_tree_of(a@[k]))),
                    out@.len() == i,
                    forall|k: int|
                        0 <= k < i ==> (#[trigger] out@[k])@ == toml_tree_of(a@[k]) && well_formed(
                            out@[k]@,
                        ),
                decreases a@.len() - i,
            {
                assert(t->Array_0[i as int] == toml_tree_of(a@[i as int]));
                let item = lifted(&a[i]);
                out.push(item);
                i += 1;
            }
            assert(views(out@) =~= t->Array_0);
            Node::Array(out)
        },
        Part::Table(m) => {
            let mut out: Vec<(String, Toml)> = Vec::new();
            let mut i: usize = 0;
            while i < m.len()
                invariant
                    i <= m@.len(),
                    t == toml_tree_of(*v),
                    t == TomlTree::Table(
                        Seq::new(m@.len(), |k: int| (m@[k].0@, toml_tree_of(*m@[k].1))),
                    ),
                    out@.len() == i,
                    forall|k: int|
                        0 <= k < i ==> (#[trigger] out@[k]).0@ == m@[k].0@ && out@[k].1@
                            == toml_tree_of(*m@[k].1) && well_formed(out@[k].1@),
                decreases m@.len() - i,
            {
                assert(t->Table_0[i as int] == (m@[i as int].0@, toml_tree_of(*m@[i as int].1)));
                let (key, value) = m[i];
                proof {
                    let m2 = t->Table_0;
                    assert(decreases_to!(t => m2));
                    assert(decreases_to!(m2 => m2[i as int]));
                    assert(decreases_to!(m2[i as int] => m2[i as int].1));
                }
                let item = lifted(value);
                out.push((text::owned(key), item));
                i += 1;
            }
            assert(entries(out@) =~= t->Table_0);
            Node::Table(out)
        },
    }
}

/// The document as a `toml::Value`.
fn lowered(j: &Toml) -> (r: toml::Value)
    requires
        well_formed(j@),
    ensures
        toml_tree_of(r) == j@,
    decreases j,
{
    broadcast use {lemma_array_view, lemma_table_view};

    match j {
        Node::Leaf(TomlScalar::Integer(n)) => assembled(Whole::Integer(*n)),
        Node::Leaf(TomlScalar::Other(x)) => x.clone(),
        Node::Text(s) => assembled(Whole::Text(s.clone())),
        Node::Array(v) => {
            let mut out: Vec<toml::Value> = Vec::new();
            let mut i: usize = 0;
            while i < v.len()
                invariant
                    i <= v@.len(),
                    *j == Node::Array(*v),
                    well_formed(j@),
                    out@.len() == i,
                    forall|k: int| 0 <= k < i ==> toml_tree_of(#[trigger] out@[k]) == v@[k]@,
                decreases v@.len() - i,
            {
                assert(j@->Array_0[i as int] == v@[i as int]@);
                assert(well_formed(j@->Array_0[i as int]));
                let item = lowered(&v[i]);
                out.push(item);
                i += 1;
            }
            assert(Seq::new(out@.len(), |k: int| toml_tree_of(out@[k])) =~= views(v@));
            assembled(Whole::Array(out))
        },
        Node::Table(v) => {
            let mut out: Vec<(String, toml::Value)> = Vec::new();
            let mut i: usize = 0;
            while i < v.len()
                invariant
                    i <= v@.len(),
                    *j == Node::Table(*v),
                    well_formed(j@),
                    out@.len() == i,
                    forall|k: int|
                        0 <= k < i ==> (#[trigger] out@[k]).0@ == v@[k].0@ && toml_tree_of(out@[k].1)
                            == v@[k].1@,
                decreases v@.len() - i,
            {
                assert(j@->Table_0[i as int].1 == v@[i as int].1@);
                assert(well_formed(j@->Table_0[i as int].1));
                let item = lowered(&v[i].1);
                out.push((v[i].0.clone(), item));
                i += 1;
            }
            assert(Seq::new(out@.len(), |k: int| (out@[k].0@, toml_tree_of(out@[k].1))) =~= entries(v@));
            assembled(Whole::Table(out))
        },
    }
}

/// Reads a TOML text.
pub fn parse(text: &str) -> (r: Result<Toml, String>)
    ensures
        match r {
            Ok(d) => toml_parsed(text@) == Ok::<TomlTree, Seq<char>>(d@) && well_formed(d@),
            Err(e) => toml_parsed(text@) == Err::<TomlTree, Seq<char>>(e@),
        },
{
    match value_from_str(text) {
        Ok(v) => Ok(lifted(&v)),
        Err(e) => Err(e),
    }
}

/// Writes a document as TOML.
pub fn render_pretty(d: &Toml) -> (r: Result<String, String>)
    requires
        well_formed(d@),
    ensures
        match r {
            Ok(s) => toml_text_pretty(d@) == Ok::<Seq<char>, Seq<char>>(s@),
            Err(e) => toml_text_pretty(d@) == Err::<Seq<char>, Seq<char>>(e@),
        },
{
    let v = lowered(d);
    value_to_string_pretty(&v)
}

} // verus!
