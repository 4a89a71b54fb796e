//! Kimi's `config.toml`: one `[[hooks]]` array of rules, each with an event, a
//! matcher, a command and a timeout, and nothing else.

use crate::commands::install::{
    command_for, hook_command, kimi_events, kimi_hooks, lemma_command_is_ours, pairs,
    REPORT_TIMEOUT_SECS,
};
use crate::hook_laws::{lemma_foreign, lemma_foreign_well_formed};
use crate::hooks;
use crate::hooks::{foreign, is_owned};
use crate::text;
use crate::toml_tree;
use crate::toml_tree::{toml_parsed, toml_text_pretty, Toml, TomlScalar, TomlTree};
use crate::tree;
use crate::tree::{
    entries, field, lemma_array_view, lemma_array_well_formed, lemma_key_pos, lemma_sorted_extensional,
    lemma_table_view, lemma_well_formed_lookup, lemma_well_formed_with_key,
    lemma_well_formed_without_key, lemma_with_key, lemma_without_key, lookup, set_key, sorted,
    text_node, views, well_formed, with_key, without_key, Node, Tree,
};
use vstd::prelude::*;

verus! {

/// The rule for an event.
pub open spec fn rule(exe: Seq<char>, event: Seq<char>, matcher: Seq<char>) -> TomlTree {
    Tree::Table(
        with_key(
            with_key(
                with_key(
                    with_key(Seq::empty(), "event"@, TomlTree::Text(event)),
                    "command"@,
                    TomlTree::Text(hook_command(exe, "kimi"@, false)),
                ),
                "matcher"@,
                TomlTree::Text(matcher),
            ),
            "timeout"@,
            TomlTree::Leaf(TomlScalar::Integer(REPORT_TIMEOUT_SECS as i64)),
        ),
    )
}

/// Our rules, one for each event.
pub open spec fn rules(exe: Seq<char>) -> Seq<TomlTree> {
    Seq::new(kimi_events().len(), |i: int| rule(exe, kimi_events()[i].0, kimi_events()[i].1))
}

/// The rules that stand in a document.
pub open spec fn rules_in(t: TomlTree) -> Seq<TomlTree> {
    match field(t, "hooks"@) {
        Some(Tree::Array(list)) => list,
        _ => Seq::empty(),
    }
}

/// How many of the rules in a document are ours.
pub open spec fn owned_rules(t: TomlTree) -> nat {
    (rules_in(t).len() - foreign(rules_in(t)).len()) as nat
}

/// A document without our rules, and without the array where it is empty then.
pub open spec fn kimi_stripped(t: TomlTree) -> TomlTree {
    match t {
        Tree::Table(root) => match lookup(root, "hooks"@) {
            Some(Tree::Array(list)) => if foreign(list).len() == 0 {
                Tree::Table(without_key(root, "hooks"@))
            } else {
                Tree::Table(with_key(root, "hooks"@, Tree::Array(foreign(list))))
            },
            _ => t,
        },
        _ => t,
    }
}

/// A document takes rules: it is a table, and its `hooks` are an array or absent.
pub open spec fn takes_rules(t: TomlTree) -> bool {
    match t {
        Tree::Table(root) => match lookup(root, "hooks"@) {
            None => true,
            Some(Tree::Array(_)) => true,
            _ => false,
        },
        _ => false,
    }
}

/// A document in which our rules are exactly the current ones.
pub open spec fn kimi_installed(t: TomlTree, exe: Seq<char>) -> TomlTree {
    let s = kimi_stripped(t);
    if takes_rules(s) {
        Tree::Table(with_key(s->Table_0, "hooks"@, Tree::Array(rules_in(s) + rules(exe))))
    } else {
        s
    }
}

/// Reads Kimi's configuration; a missing and a blank file are an empty one.
pub open spec fn toml_read(raw: Option<Seq<char>>, path: Seq<char>) -> Result<
    TomlTree,
    Seq<char>,
> {
    match raw {
        Some(s) => if text::trimmed(s).len() == 0 {
            Ok(TomlTree::Table(Seq::empty()))
        } else {
            match toml_parsed(s) {
                Ok(t) => Ok(t),
                Err(e) => Err(path + " is not valid TOML: "@ + e),
            }
        },
        None => Ok(TomlTree::Table(Seq::empty())),
    }
}

fn empty_table() -> (r: Toml)
    ensures
        r@ == TomlTree::Table(Seq::empty()),
        well_formed(r@),
{
    broadcast use lemma_table_view;

    let m: Vec<(String, Toml)> = Vec::new();
    assert(entries(m@) =~= Seq::empty());
    Node::Table(m)
}

/// Reads Kimi's configuration from what its file holds, if there is one.
pub fn read_toml(raw: Option<&str>, path: &str) -> (r: Result<Toml, String>)
    ensures
        match r {
            Ok(d) => toml_read(text::opt_str(raw), path@) == Ok::<TomlTree, Seq<char>>(d@)
                && well_formed(d@),
            Err(e) => toml_read(text::opt_str(raw), path@) == Err::<TomlTree, Seq<char>>(e@),
        },
{
    match raw {
        Some(s) => {
            if text::trim(s).as_str().is_empty() {
                Ok(empty_table())
            } else {
                match toml_tree::parse(s) {
                    Ok(d) => Ok(d),
                    Err(e) => Err(text::concat3(path, " is not valid TOML: ", e.as_str())),
                }
            }
        },
        None => Ok(empty_table()),
    }
}

/// What is written to the file: the document and a line feed.
pub open spec fn toml_written(t: TomlTree) -> Result<Seq<char>, Seq<char>> {
    match toml_text_pretty(t) {
        Ok(s) => Ok(s + "\n"@),
        Err(e) => Err(e),
    }
}

/// The text of the file for a document.
pub fn write_toml(d: &Toml) -> (r: Result<String, String>)
    requires
        well_formed(d@),
    ensures
        match r {
            Ok(s) => toml_written(d@) == Ok::<Seq<char>, Seq<char>>(s@),
            Err(e) => toml_written(d@) == Err::<Seq<char>, Seq<char>>(e@),
        },
{
    match toml_tree::render_pretty(d) {
        Ok(s) => Ok(text::concat2(s.as_str(), "\n")),
        Err(e) => Err(e),
    }
}

/// Builds the rule for an event.
fn rule_node(exe: &str, event: &str, matcher: &str) -> (r: Toml)
    ensures
        r@ == rule(exe@, event@, matcher@),
{
    broadcast use lemma_table_view;

    let mut m: Vec<(String, Toml)> = Vec::new();
    assert(entries(m@) =~= Seq::empty());
    set_key(&mut m, "event", text_node(event));
    set_key(&mut m, "command", Node::Text(command_for(exe, "kimi", false)));
    set_key(&mut m, "matcher", text_node(matcher));
    set_key(&mut m, "timeout", Node::Leaf(TomlScalar::Integer(REPORT_TIMEOUT_SECS as i64)));
    Node::Table(m)
}

/// Takes every rule of ours out, with the array where it is empty then, and says
/// how many there were.
pub fn strip_hooks(value: &mut Toml) -> (r: usize)
    ensures
        final(value)@ == kimi_stripped(old(value)@),
        r == owned_rules(old(value)@),
{
    broadcast use {lemma_table_view, lemma_array_view};

    let mut taken = Node::Leaf(TomlScalar::Integer(0));
    std::mem::swap(value, &mut taken);
    match taken {
        Node::Table(root) => {
            let mut root = root;
            let ghost shown = entries(root@);
            match tree::find_key(&root, "hooks") {
                Some(i) => {
                    let (key, list) = root.remove(i);
                    proof {
                        assert(shown[i as int] == (key@, list@));
                        lemma_key_pos(shown, "hooks"@);
                    }
                    match list {
                        Node::Array(list) => {
                            let before = list.len();
                            proof {
                                hooks::lemma_foreign_len(views(list@));
                            }
                            let left = hooks::drop_owned(list);
                            let gone = before - left.len();
                            if left.len() > 0 {
                                let ghost left_view = Node::Array(left)@;
                                root.insert(i, (key, Node::Array(left)));
                                assert(entries(root@) =~= shown.update(
                                    i as int,
                                    ("hooks"@, left_view),
                                ));
                            } else {
                                assert(entries(root@) =~= shown.remove(i as int));
                            }
                            *value = Node::Table(root);
                            gone
                        },
                        other => {
                            root.insert(i, (key, other));
                            assert(entries(root@) =~= shown);
                            *value = Node::Table(root);
                            0
                        },
                    }
                },
                None => {
                    *value = Node::Table(root);
                    0
                },
            }
        },
        other => {
            *value = other;
            0
        },
    }
}

/// Puts our rules in, one for each event, in place of any of ours that are there,
/// and says how many were written.
pub fn install_hooks(value: &mut Toml, exe: &str) -> (r: usize)
    ensures
        final(value)@ == kimi_installed(old(value)@, exe@),
        r == if takes_rules(kimi_stripped(old(value)@)) {
            kimi_events().len()
        } else {
            0
        },
{
    broadcast use {lemma_table_view, lemma_array_view};

    strip_hooks(value);
    let ghost clean = value@;
    let mut taken = Node::Leaf(TomlScalar::Integer(0));
    std::mem::swap(value, &mut taken);
    match taken {
        Node::Table(root) => {
            let mut root = root;
            let ghost shown = entries(root@);
            let mut list: Vec<Toml> = Vec::new();
            assert(views(list@) =~= Seq::empty());
            match tree::find_key(&root, "hooks") {
                Some(i) => {
                    let (key, old_list) = root.remove(i);
                    proof {
                        assert(shown[i as int] == (key@, old_list@));
                        lemma_key_pos(shown, "hooks"@);
                    }
                    match old_list {
                        Node::Array(l) => {
                            list = l;
                            root.insert(i, (key, Node::Array(Vec::new())));
                        },
                        other => {
                            root.insert(i, (key, other));
                            assert(entries(root@) =~= shown);
                            *value = Node::Table(root);
                            return 0;
                        },
                    }
                },
                None => {},
            }
            let ghost start = views(list@);
            assert(start =~= rules_in(clean));
            push_rules(&mut list, exe);
            let ghost filled = Node::Array(list)@;
            let ghost middle = entries(root@);
            set_key(&mut root, "hooks", Node::Array(list));
            proof {
                lemma_key_pos(shown, "hooks"@);
                let p = tree::key_pos(shown, "hooks"@);
                if p < shown.len() {
                    assert forall|j: int| 0 <= j < p implies (#[trigger] middle[j]).0
                        != "hooks"@ by {
                        assert(middle[j] == shown[j]);
                    }
                    tree::lemma_key_pos_is(middle, "hooks"@, p);
                    assert(entries(root@) =~= shown.update(p, ("hooks"@, filled)));
                } else {
                    assert(middle == shown);
                }
            }
            *value = Node::Table(root);
            kimi_hooks().len()
        },
        other => {
            *value = other;
            0
        },
    }
}

/// Puts our rules at the end of a list.
fn push_rules(list: &mut Vec<Toml>, exe: &str)
    ensures
        views(final(list)@) == views(old(list)@) + rules(exe@),
{
    let ghost start = views(list@);
    let events = kimi_hooks();
    let ghost want = rules(exe@);
    assert(pairs(events@).len() == events@.len());
    let mut i: usize = 0;
    while i < events.len()
        invariant
            i <= events@.len(),
            pairs(events@) == kimi_events(),
            want == rules(exe@),
            views(list@) =~= start + want.take(i as int),
        decreases events@.len() - i,
    {
        let (event, matcher) = events[i];
        assert(pairs(events@)[i as int] == (event@, matcher@));
        let ghost before = list@;
        list.push(rule_node(exe, event, matcher));
        assert(views(list@) =~= views(before).push(want[i as int]));
        i += 1;
    }
    assert(want.take(events@.len() as int) =~= want);
}

/// Whether any rule of ours stands in a document.
pub fn is_installed_in(value: &Toml) -> (r: bool)
    ensures
        r == (owned_rules(value@) > 0),
{
    broadcast use lemma_array_view;

    match value.get("hooks") {
        Some(Node::Array(list)) => {
            proof {
                hooks::lemma_foreign_len(views(list@));
            }
            hooks::any_owned(list)
        },
        _ => false,
    }
}

/// Whether what the file holds has a rule of ours.
pub fn is_installed(raw: Option<&str>) -> (r: bool)
    ensures
        r == match toml_read(text::opt_str(raw), ""@) {
            Ok(t) => owned_rules(t) > 0,
            Err(_) => false,
        },
{
    match read_toml(raw, "") {
        Ok(d) => is_installed_in(&d),
        Err(_) => false,
    }
}

// ---------------------------------------------------------------------------
// Laws
// ---------------------------------------------------------------------------

proof fn lemma_rules(exe: Seq<char>)
    ensures
        forall|i: int|
            0 <= i < rules(exe).len() ==> is_owned(#[trigger] rules(exe)[i]) && well_formed(
                rules(exe)[i],
            ),
{
    reveal_strlit("event");
    reveal_strlit("command");
    reveal_strlit("matcher");
    reveal_strlit("timeout");
    assert("command"@[0] == 'c' && "matcher"@[0] == 'm' && "timeout"@[0] == 't');
    assert("event"@.len() == 5 && "command"@.len() == 7);
    lemma_command_is_ours(exe, "kimi"@, false);
    assert forall|i: int| 0 <= i < rules(exe).len() implies is_owned(#[trigger] rules(exe)[i])
        && well_formed(rules(exe)[i]) by {
        let m0 = Seq::<(Seq<char>, TomlTree)>::empty();
        let v1 = TomlTree::Text(kimi_events()[i].0);
        let m1 = with_key(m0, "event"@, v1);
        let v2 = TomlTree::Text(hook_command(exe, "kimi"@, false));
        let m2 = with_key(m1, "command"@, v2);
        let v3 = TomlTree::Text(kimi_events()[i].1);
        let m3 = with_key(m2, "matcher"@, v3);
        let v4 = TomlTree::Leaf(TomlScalar::Integer(REPORT_TIMEOUT_SECS as i64));
        lemma_with_key(m1, "command"@, v2);
        lemma_with_key(m2, "matcher"@, v3);
        lemma_with_key(m3, "timeout"@, v4);
        lemma_well_formed_with_key(m0, "event"@, v1);
        lemma_well_formed_with_key(m1, "command"@, v2);
        lemma_well_formed_with_key(m2, "matcher"@, v3);
        lemma_well_formed_with_key(m3, "timeout"@, v4);
    }
}

proof fn lemma_foreign_added(a: Seq<TomlTree>, b: Seq<TomlTree>)
    requires
        forall|i: int| 0 <= i < b.len() ==> is_owned(#[trigger] b[i]),
    ensures
        foreign(a + b) == foreign(a),
    decreases b.len(),
{
    if b.len() == 0 {
        assert(a + b =~= a);
    } else {
        let d = b.drop_last();
        assert forall|i: int| 0 <= i < d.len() implies is_owned(#[trigger] d[i]) by {
            assert(d[i] == b[i]);
        }
        lemma_foreign_added(a, d);
        assert((a + b).drop_last() =~= a + d);
        assert((a + b).last() == b[b.len() - 1]);
    }
}

/// What the two operations do, field by field, to a sorted document.
pub proof fn lemma_kimi_fields(t: TomlTree, exe: Seq<char>)
    requires
        t matches Tree::Table(root) ==> sorted(root),
    ensures
        t is Table ==> kimi_stripped(t) is Table && sorted(kimi_stripped(t)->Table_0)
            && kimi_installed(t, exe) is Table && sorted(kimi_installed(t, exe)->Table_0),
        !(t is Table) ==> kimi_stripped(t) == t && kimi_installed(t, exe) == t,
        forall|k: Seq<char>|
            k != "hooks"@ ==> #[trigger] field(kimi_stripped(t), k) == field(t, k) && field(
                kimi_installed(t, exe),
                k,
            ) == field(t, k),
        takes_rules(t) == takes_rules(kimi_stripped(t)),
        takes_rules(t) ==> rules_in(kimi_stripped(t)) == foreign(rules_in(t)) && field(
            kimi_stripped(t),
            "hooks"@,
        ) == (if foreign(rules_in(t)).len() == 0 {
            None
        } else {
            Some(TomlTree::Array(foreign(rules_in(t))))
        }) || field(t, "hooks"@) is None && kimi_stripped(t) == t,
        !takes_rules(t) ==> kimi_stripped(t) == t && kimi_installed(t, exe) == t,
        takes_rules(t) ==> field(kimi_installed(t, exe), "hooks"@) == Some(
            TomlTree::Array(foreign(rules_in(t)) + rules(exe)),
        ),
{
    if let Tree::Table(root) = t {
        if let Some(Tree::Array(list)) = lookup(root, "hooks"@) {
            lemma_with_key(root, "hooks"@, TomlTree::Array(foreign(list)));
            lemma_without_key(root, "hooks"@);
            if foreign(list).len() == 0 {
                assert(foreign(list) =~= Seq::empty());
            }
        }
        let s = kimi_stripped(t);
        lemma_with_key(s->Table_0, "hooks"@, TomlTree::Array(rules_in(s) + rules(exe)));
        if lookup(root, "hooks"@) is None {
            assert(foreign(rules_in(t)) =~= Seq::empty());
        }
        assert(takes_rules(t) ==> rules_in(s) == foreign(rules_in(t)));
    }
}

proof fn lemma_same_document(a: TomlTree, b: TomlTree)
    requires
        a is Table,
        b is Table,
        sorted(a->Table_0),
        sorted(b->Table_0),
        forall|k: Seq<char>| #[trigger] field(a, k) == field(b, k),
    ensures
        a == b,
{
    assert forall|k: Seq<char>| lookup(a->Table_0, k) == lookup(b->Table_0, k) by {
        assert(field(a, k) == field(b, k));
    }
    lemma_sorted_extensional(a->Table_0, b->Table_0);
}

/// Uninstalling after installing leaves what uninstalling alone would have left,
/// installing twice is installing once, an uninstall finds exactly the rules that
/// an install wrote, and no other key of the document is touched by either.
pub proof fn law_kimi_round_trip(t: TomlTree, exe: Seq<char>, key: Seq<char>)
    requires
        well_formed(t),
    ensures
        kimi_stripped(kimi_installed(t, exe)) == kimi_stripped(t),
        kimi_installed(kimi_installed(t, exe), exe) == kimi_installed(t, exe),
        owned_rules(kimi_stripped(t)) == 0,
        takes_rules(t) ==> owned_rules(kimi_installed(t, exe)) == kimi_events().len(),
        key != "hooks"@ ==> field(kimi_stripped(t), key) == field(t, key) && field(
            kimi_installed(t, exe),
            key,
        ) == field(t, key),
        well_formed(kimi_stripped(t)),
        well_formed(kimi_installed(t, exe)),
{
    let s = kimi_stripped(t);
    let w = kimi_installed(t, exe);
    let kept = foreign(rules_in(t));
    lemma_rules(exe);
    lemma_foreign_added(kept, rules(exe));
    lemma_foreign(rules_in(t));
    lemma_kimi_fields(t, exe);
    lemma_kimi_fields(w, exe);
    lemma_kimi_fields(s, exe);
    lemma_kimi_well_formed(t, exe);
    assert(field(s, key) == field(s, key));
    if takes_rules(t) {
        assert(takes_rules(w));
        assert(rules_in(w) == kept + rules(exe));
        assert forall|k: Seq<char>| #[trigger] field(kimi_stripped(w), k) == field(s, k) by {
            if k != "hooks"@ {
                assert(field(kimi_stripped(t), k) == field(t, k));
            } else if field(t, "hooks"@) is None {
                assert(rules_in(t).len() == 0);
                assert(kept.len() == 0);
            }
        }
        lemma_same_document(kimi_stripped(w), s);
        assert forall|k: Seq<char>| #[trigger] field(kimi_installed(w, exe), k) == field(w, k) by {
            if k != "hooks"@ {
                assert(field(kimi_stripped(w), k) == field(w, k));
            }
        }
        lemma_same_document(kimi_installed(w, exe), w);
        assert(rules_in(s) == kept);
    } else {
        assert(rules_in(t) =~= Seq::empty());
    }
}

proof fn lemma_kimi_well_formed(t: TomlTree, exe: Seq<char>)
    requires
        well_formed(t),
    ensures
        well_formed(kimi_stripped(t)),
        well_formed(kimi_installed(t, exe)),
{
    lemma_rules(exe);
    if let Tree::Table(root) = t {
        lemma_well_formed_lookup(root, "hooks"@);
        let none = Seq::<TomlTree>::empty();
        lemma_array_well_formed(none);
        if let Some(Tree::Array(list)) = lookup(root, "hooks"@) {
            lemma_foreign_well_formed(list);
            lemma_well_formed_with_key(root, "hooks"@, TomlTree::Array(foreign(list)));
            lemma_well_formed_without_key(root, "hooks"@);
        }
        let s = kimi_stripped(t);
        lemma_well_formed_lookup(s->Table_0, "hooks"@);
        let all = rules_in(s) + rules(exe);
        lemma_array_well_formed(rules_in(s));
        lemma_array_well_formed(all);
        assert forall|i: int| 0 <= i < all.len() implies well_formed(#[trigger] all[i]) by {
            if i < rules_in(s).len() {
                assert(all[i] == rules_in(s)[i]);
            } else {
                assert(all[i] == rules(exe)[i - rules_in(s).len()]);
            }
        }
        lemma_well_formed_with_key(s->Table_0, "hooks"@, TomlTree::Array(all));
    }
}

} // verus!
