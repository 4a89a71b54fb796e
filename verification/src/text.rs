//! Strings as sequences of characters: what splitting, trimming, searching and
//! number syntax mean, and functions that compute it.
//!
//! Every specification here is over `Seq<char>`, the view of `str` and `String`.

use vstd::prelude::*;

verus! {

// ---------------------------------------------------------------------------
// Building and comparing
// ---------------------------------------------------------------------------

/// `String::push` appends the given character to the end of the string.
pub assume_specification[ String::push ](s: &mut String, c: char)
    ensures
        final(s)@ == old(s)@.push(c),
;

/// The views of a sequence of strings.
pub open spec fn texts(v: Seq<String>) -> Seq<Seq<char>> {
    Seq::new(v.len(), |i: int| v[i]@)
}

/// The view of an optional string.
pub open spec fn opt_text(s: Option<String>) -> Option<Seq<char>> {
    match s {
        Some(t) => Some(t@),
        None => None,
    }
}

/// The view of an optional string slice.
pub open spec fn opt_str(s: Option<&str>) -> Option<Seq<char>> {
    match s {
        Some(t) => Some(t@),
        None => None,
    }
}

/// The characters of a string, one by one.
pub fn chars(s: &str) -> (r: Vec<char>)
    ensures
        r@ == s@,
{
    let mut out: Vec<char> = Vec::new();
    for c in it: s.chars()
        invariant
            out@ == s@.take(it.index() as int),
            it.seq() == s@,
    {
        out.push(c);
    }
    out
}

/// The string made of the characters `from..to` of `v`.
pub fn slice_string(v: &[char], from: usize, to: usize) -> (r: String)
    requires
        from <= to <= v@.len(),
    ensures
        r@ == v@.subrange(from as int, to as int),
{
    let mut out = String::new();
    let mut i: usize = from;
    while i < to
        invariant
            from <= i <= to <= v@.len(),
            out@ == v@.subrange(from as int, i as int),
        decreases to - i,
    {
        out.push(v[i]);
        i += 1;
    }
    out
}

/// An owned copy.
pub fn owned(s: &str) -> (r: String)
    ensures
        r@ == s@,
{
    s.to_owned()
}

/// An owned copy of an optional string.
pub fn owned_opt(s: &Option<String>) -> (r: Option<String>)
    ensures
        r == *s,
{
    match s {
        Some(t) => Some(t.clone()),
        None => None,
    }
}

/// Whether two strings hold the same characters.
pub fn same(a: &str, b: &str) -> (r: bool)
    ensures
        r == (a@ == b@),
{
    let x = chars(a);
    let y = chars(b);
    if x.len() != y.len() {
        return false;
    }
    let mut i: usize = 0;
    while i < x.len()
        invariant
            i <= x@.len(),
            x@.len() == y@.len(),
            x@ == a@,
            y@ == b@,
            forall|j: int| 0 <= j < i ==> x@[j] == y@[j],
        decreases x@.len() - i,
    {
        if x[i] != y[i] {
            assert(a@[i as int] != b@[i as int]);
            return false;
        }
        i += 1;
    }
    assert(a@ =~= b@);
    true
}

/// Whether a list holds a string with these characters.
pub fn list_holds(list: &Vec<String>, s: &str) -> (r: bool)
    ensures
        r == texts(list@).contains(s@),
{
    let mut i: usize = 0;
    while i < list.len()
        invariant
            i <= list@.len(),
            forall|j: int| 0 <= j < i ==> texts(list@)[j] != s@,
        decreases list@.len() - i,
    {
        if same(list[i].as_str(), s) {
            assert(texts(list@)[i as int] == s@);
            return true;
        }
        i += 1;
    }
    false
}

/// `a` followed by `b`.
pub fn concat2(a: &str, b: &str) -> (r: String)
    ensures
        r@ == a@ + b@,
{
    let mut out = a.to_owned();
    out.append(b);
    out
}

/// `a`, `b` and `c` in a row.
pub fn concat3(a: &str, b: &str, c: &str) -> (r: String)
    ensures
        r@ == a@ + b@ + c@,
{
    let mut out = a.to_owned();
    out.append(b);
    out.append(c);
    out
}

/// The parts in order with `sep` between each two of them.
pub open spec fn joined(parts: Seq<Seq<char>>, sep: Seq<char>) -> Seq<char>
    decreases parts.len(),
{
    if parts.len() == 0 {
        Seq::empty()
    } else if parts.len() == 1 {
        parts[0]
    } else {
        joined(parts.drop_last(), sep) + sep + parts.last()
    }
}

/// Joins `parts` with `sep` between them.
pub fn join(parts: &Vec<String>, sep: &str) -> (r: String)
    ensures
        r@ == joined(texts(parts@), sep@),
{
    let mut out = String::new();
    let mut i: usize = 0;
    while i < parts.len()
        invariant
            i <= parts@.len(),
            out@ == joined(texts(parts@).take(i as int), sep@),
        decreases parts@.len() - i,
    {
        proof {
            let next = texts(parts@).take(i + 1);
            assert(next.drop_last() =~= texts(parts@).take(i as int));
            assert(next.last() == parts@[i as int]@);
        }
        if i > 0 {
            out.append(sep);
        } else {
            assert(Seq::<char>::empty() + parts@[0]@ =~= parts@[0]@);
        }
        out.append(parts[i].as_str());
        i += 1;
    }
    assert(texts(parts@).take(parts@.len() as int) =~= texts(parts@));
    out
}

// ---------------------------------------------------------------------------
// Single characters
// ---------------------------------------------------------------------------

/// The characters with the Unicode property `White_Space`.
pub open spec fn is_white(c: char) -> bool {
    ||| '\u{9}' <= c <= '\u{d}'
    ||| c == '\u{20}'
    ||| c == '\u{85}'
    ||| c == '\u{a0}'
    ||| c == '\u{1680}'
    ||| '\u{2000}' <= c <= '\u{200a}'
    ||| c == '\u{2028}'
    ||| c == '\u{2029}'
    ||| c == '\u{202f}'
    ||| c == '\u{205f}'
    ||| c == '\u{3000}'
}

/// Whether `c` is white space.
pub fn white(c: char) -> (r: bool)
    ensures
        r == is_white(c),
{
    ('\u{9}' <= c && c <= '\u{d}') || c == '\u{20}' || c == '\u{85}' || c == '\u{a0}' || c
        == '\u{1680}' || ('\u{2000}' <= c && c <= '\u{200a}') || c == '\u{2028}' || c == '\u{2029}'
        || c == '\u{202f}' || c == '\u{205f}' || c == '\u{3000}'
}

/// ASCII upper case letters become lower case; everything else is kept.
pub open spec fn lower_char(c: char) -> char {
    if 'A' <= c <= 'Z' {
        ((c as u8) + 32) as char
    } else {
        c
    }
}

/// A string with its ASCII upper case letters made lower case.
pub open spec fn lower(s: Seq<char>) -> Seq<char> {
    Seq::new(s.len(), |i: int| lower_char(s[i]))
}

/// The lower case of every character, in a vector.
pub fn lower_chars(v: &Vec<char>) -> (r: Vec<char>)
    ensures
        r@ == lower(v@),
{
    let mut out: Vec<char> = Vec::new();
    let mut i: usize = 0;
    while i < v.len()
        invariant
            i <= v@.len(),
            out@ == lower(v@).take(i as int),
        decreases v@.len() - i,
    {
        let c = v[i];
        if 'A' <= c && c <= 'Z' {
            out.push((c as u8 + 32) as char);
        } else {
            out.push(c);
        }
        i += 1;
    }
    out
}

/// A string with its ASCII upper case letters made lower case.
pub fn lower_string(s: &str) -> (r: String)
    ensures
        r@ == lower(s@),
{
    let v = chars(s);
    let low = lower_chars(&v);
    let r = slice_string(low.as_slice(), 0, low.len());
    assert(r@ =~= lower(s@));
    r
}

/// A string with every character that is `a` or `b` replaced by `to`.
pub open spec fn replaced2(s: Seq<char>, a: char, b: char, to: char) -> Seq<char> {
    Seq::new(
        s.len(),
        |i: int|
            if s[i] == a || s[i] == b {
                to
            } else {
                s[i]
            },
    )
}

/// Replaces each `a` and each `b` by `to`.
pub fn replace2(s: &str, a: char, b: char, to: char) -> (r: String)
    ensures
        r@ == replaced2(s@, a, b, to),
{
    let v = chars(s);
    let mut out = String::new();
    let mut i: usize = 0;
    while i < v.len()
        invariant
            i <= v@.len(),
            v@ == s@,
            out@ == replaced2(s@, a, b, to).take(i as int),
        decreases v@.len() - i,
    {
        if v[i] == a || v[i] == b {
            out.push(to);
        } else {
            out.push(v[i]);
        }
        i += 1;
    }
    out
}

// ---------------------------------------------------------------------------
// Trimming
// ---------------------------------------------------------------------------

/// What is left of `s` once white space is taken off its front.
pub open spec fn trimmed_start(s: Seq<char>) -> Seq<char>
    decreases s.len(),
{
    if s.len() > 0 && is_white(s[0]) {
        trimmed_start(s.skip(1))
    } else {
        s
    }
}

/// What is left of `s` once white space is taken off its end.
pub open spec fn trimmed_end(s: Seq<char>) -> Seq<char>
    decreases s.len(),
{
    if s.len() > 0 && is_white(s.last()) {
        trimmed_end(s.drop_last())
    } else {
        s
    }
}

/// `s` without white space at either end.
pub open spec fn trimmed(s: Seq<char>) -> Seq<char> {
    trimmed_end(trimmed_start(s))
}

/// What is left of `s` once every `c` is taken off its end.
pub open spec fn without_trailing(s: Seq<char>, c: char) -> Seq<char>
    decreases s.len(),
{
    if s.len() > 0 && s.last() == c {
        without_trailing(s.drop_last(), c)
    } else {
        s
    }
}

/// What is left of `s` once every `c` is taken off its front.
pub open spec fn without_leading(s: Seq<char>, c: char) -> Seq<char>
    decreases s.len(),
{
    if s.len() > 0 && s[0] == c {
        without_leading(s.skip(1), c)
    } else {
        s
    }
}

proof fn lemma_trimmed_start_within(s: Seq<char>)
    ensures
        trimmed_start(s).len() <= s.len(),
        trimmed_start(s) == s.skip(s.len() - trimmed_start(s).len()),
    decreases s.len(),
{
    if s.len() > 0 && is_white(s[0]) {
        lemma_trimmed_start_within(s.skip(1));
        let n = trimmed_start(s).len();
        assert(s.skip(1).skip(s.len() - 1 - n) =~= s.skip(s.len() - n));
    } else {
        assert(s.skip(0) =~= s);
    }
}

proof fn lemma_trimmed_end_within(s: Seq<char>)
    ensures
        trimmed_end(s).len() <= s.len(),
        trimmed_end(s) == s.take(trimmed_end(s).len() as int),
    decreases s.len(),
{
    if s.len() > 0 && is_white(s.last()) {
        lemma_trimmed_end_within(s.drop_last());
        let n = trimmed_end(s).len() as int;
        assert(s.drop_last().take(n) =~= s.take(n));
    } else {
        assert(s.take(s.len() as int) =~= s);
    }
}

/// What is left of a string without white space at its ends is a part of it.
pub proof fn lemma_trimmed_within(s: Seq<char>)
    ensures
        exists|k: int|
            0 <= k <= s.len() - trimmed(s).len() && #[trigger] s.subrange(
                k,
                k + trimmed(s).len(),
            ) == trimmed(s),
{
    lemma_trimmed_start_within(s);
    lemma_trimmed_end_within(trimmed_start(s));
    let k = s.len() - trimmed_start(s).len();
    assert(s.subrange(k, k + trimmed(s).len()) =~= trimmed(s));
}

/// A text that starts with something other than white space is not blank.
pub proof fn lemma_trimmed_not_blank(s: Seq<char>)
    requires
        s.len() > 0,
        !is_white(s[0]),
    ensures
        trimmed(s).len() > 0,
{
    lemma_trimmed_end_not_blank(s);
}

proof fn lemma_trimmed_end_not_blank(s: Seq<char>)
    requires
        s.len() > 0,
        !is_white(s[0]),
    ensures
        trimmed_end(s).len() > 0,
    decreases s.len(),
{
    if is_white(s.last()) {
        assert(s.drop_last()[0] == s[0]);
        lemma_trimmed_end_not_blank(s.drop_last());
    }
}

/// A string with no white space in it has none at its ends.
pub proof fn lemma_trimmed_same(s: Seq<char>)
    requires
        forall|i: int| 0 <= i < s.len() ==> !is_white(#[trigger] s[i]),
    ensures
        trimmed(s) == s,
{
}

/// The bounds of `v[from..to]` without white space at either end.
pub fn trim_bounds(v: &Vec<char>, from: usize, to: usize) -> (r: (usize, usize))
    requires
        from <= to <= v@.len(),
    ensures
        from <= r.0 <= r.1 <= to,
        v@.subrange(r.0 as int, r.1 as int) == trimmed(v@.subrange(from as int, to as int)),
{
    let ghost whole = v@.subrange(from as int, to as int);
    let mut i: usize = from;
    while i < to && white(v[i])
        invariant
            from <= i <= to <= v@.len(),
            trimmed_start(v@.subrange(i as int, to as int)) == trimmed_start(whole),
        decreases to - i,
    {
        assert(v@.subrange(i as int, to as int).skip(1) =~= v@.subrange(i + 1, to as int));
        i += 1;
    }
    let ghost front = v@.subrange(i as int, to as int);
    assert(front == trimmed_start(whole));
    let mut j: usize = to;
    while j > i && white(v[j - 1])
        invariant
            from <= i <= j <= to <= v@.len(),
            trimmed_end(v@.subrange(i as int, j as int)) == trimmed_end(front),
        decreases j,
    {
        assert(v@.subrange(i as int, j as int).drop_last() =~= v@.subrange(i as int, j - 1));
        j -= 1;
    }
    (i, j)
}

/// The string without white space at either end.
pub fn trim(s: &str) -> (r: String)
    ensures
        r@ == trimmed(s@),
{
    let v = chars(s);
    let (i, j) = trim_bounds(&v, 0, v.len());
    assert(v@.subrange(0, v@.len() as int) =~= s@);
    slice_string(v.as_slice(), i, j)
}

/// The string without any `c` at its end.
pub fn trim_end_char(s: &str, c: char) -> (r: String)
    ensures
        r@ == without_trailing(s@, c),
{
    let v = chars(s);
    let mut j: usize = v.len();
    assert(v@.take(j as int) =~= s@);
    while j > 0 && v[j - 1] == c
        invariant
            j <= v@.len(),
            v@ == s@,
            without_trailing(v@.take(j as int), c) == without_trailing(s@, c),
        decreases j,
    {
        assert(v@.take(j as int).drop_last() =~= v@.take(j - 1));
        j -= 1;
    }
    assert(v@.subrange(0, j as int) =~= v@.take(j as int));
    slice_string(v.as_slice(), 0, j)
}

/// The string without any `c` at its front.
pub fn trim_start_char(s: &str, c: char) -> (r: String)
    ensures
        r@ == without_leading(s@, c),
{
    let v = chars(s);
    let mut i: usize = 0;
    assert(v@.skip(0) =~= s@);
    while i < v.len() && v[i] == c
        invariant
            i <= v@.len(),
            v@ == s@,
            without_leading(v@.skip(i as int), c) == without_leading(s@, c),
        decreases v@.len() - i,
    {
        assert(v@.skip(i as int).skip(1) =~= v@.skip(i + 1));
        i += 1;
    }
    assert(v@.subrange(i as int, v@.len() as int) =~= v@.skip(i as int));
    slice_string(v.as_slice(), i, v.len())
}

/// What is left of `s` once `pat` is taken off its end as often as it stands there.
pub open spec fn without_suffix(s: Seq<char>, pat: Seq<char>) -> Seq<char>
    decreases s.len(),
{
    if pat.len() > 0 && stands_at(s, pat, s.len() - pat.len()) {
        without_suffix(s.take(s.len() - pat.len()), pat)
    } else {
        s
    }
}

/// The string without any `pat` at its end.
pub fn trim_end_text(s: &str, pat: &str) -> (r: String)
    ensures
        r@ == without_suffix(s@, pat@),
{
    let v = chars(s);
    let p = chars(pat);
    let mut j: usize = v.len();
    assert(v@.take(j as int) =~= s@);
    while p.len() > 0 && p.len() <= j && at(&v, &p, j - p.len())
        invariant
            j <= v@.len(),
            v@ == s@,
            p@ == pat@,
            without_suffix(v@.take(j as int), pat@) == without_suffix(s@, pat@),
        decreases j,
    {
        proof {
            let cut = v@.take(j as int);
            let k = j - p@.len();
            assert(cut.subrange(k, j as int) =~= v@.subrange(k, j as int));
            assert(stands_at(cut, pat@, cut.len() - pat@.len()));
            assert(cut.take(k) =~= v@.take(k));
        }
        j -= p.len();
    }
    proof {
        let cut = v@.take(j as int);
        if pat@.len() > 0 && stands_at(cut, pat@, cut.len() - pat@.len()) {
            let k = j - p@.len();
            assert(cut.subrange(k, j as int) =~= v@.subrange(k, j as int));
            assert(stands_at(v@, p@, k));
        }
        assert(v@.subrange(0, j as int) =~= cut);
    }
    slice_string(v.as_slice(), 0, j)
}

// ---------------------------------------------------------------------------
// Searching
// ---------------------------------------------------------------------------

/// `pat` stands in `s` at position `i`.
pub open spec fn stands_at(s: Seq<char>, pat: Seq<char>, i: int) -> bool {
    &&& 0 <= i
    &&& i + pat.len() <= s.len()
    &&& s.subrange(i, i + pat.len()) == pat
}

/// `pat` stands somewhere in `s`.
pub open spec fn holds(s: Seq<char>, pat: Seq<char>) -> bool {
    exists|i: int| #[trigger] stands_at(s, pat, i)
}

/// `s` begins with `pat`.
pub open spec fn begins(s: Seq<char>, pat: Seq<char>) -> bool {
    stands_at(s, pat, 0)
}

/// The first position at or after `from` at which `pat` stands in `s`.
pub open spec fn found_from(s: Seq<char>, pat: Seq<char>, from: int) -> Option<int>
    decreases s.len() + 1 - from,
{
    if from < 0 || from + pat.len() > s.len() {
        None
    } else if stands_at(s, pat, from) {
        Some(from)
    } else {
        found_from(s, pat, from + 1)
    }
}

/// The position of the first `c` in `s`, the length of `s` where there is none.
pub open spec fn pos(s: Seq<char>, c: char) -> int
    decreases s.len(),
{
    if s.len() == 0 {
        0
    } else if s[0] == c {
        0
    } else {
        1 + pos(s.skip(1), c)
    }
}

/// The position of the last `c` in `s`, `-1` where there is none.
pub open spec fn last_pos(s: Seq<char>, c: char) -> int
    decreases s.len(),
{
    if s.len() == 0 {
        -1
    } else if s.last() == c {
        s.len() - 1
    } else {
        last_pos(s.drop_last(), c)
    }
}

/// `pos` is in bounds, a `c` stands there, and none before it.
pub proof fn lemma_pos(s: Seq<char>, c: char)
    ensures
        0 <= pos(s, c) <= s.len(),
        pos(s, c) < s.len() ==> s[pos(s, c)] == c,
        forall|j: int| 0 <= j < pos(s, c) ==> s[j] != c,
    decreases s.len(),
{
    if s.len() > 0 && s[0] != c {
        lemma_pos(s.skip(1), c);
        assert forall|j: int| 0 <= j < pos(s, c) implies s[j] != c by {
            if j > 0 {
                assert(s.skip(1)[j - 1] == s[j]);
            }
        }
    }
}

/// The first position with `c` is `pos`.
pub proof fn lemma_pos_is(s: Seq<char>, c: char, i: int)
    requires
        0 <= i <= s.len(),
        forall|j: int| 0 <= j < i ==> s[j] != c,
        i < s.len() ==> s[i] == c,
    ensures
        pos(s, c) == i,
{
    lemma_pos(s, c);
    if pos(s, c) < i {
        assert(s[pos(s, c)] == c);
    }
}

/// `last_pos` is in bounds, a `c` stands there, and none after it.
pub proof fn lemma_last_pos(s: Seq<char>, c: char)
    ensures
        -1 <= last_pos(s, c) < s.len(),
        last_pos(s, c) >= 0 ==> s[last_pos(s, c)] == c,
        forall|j: int| last_pos(s, c) < j < s.len() ==> s[j] != c,
    decreases s.len(),
{
    if s.len() > 0 && s.last() != c {
        lemma_last_pos(s.drop_last(), c);
        assert forall|j: int| last_pos(s, c) < j < s.len() implies s[j] != c by {
            if j < s.len() - 1 {
                assert(s.drop_last()[j] == s[j]);
            }
        }
    }
}

/// `found_from` gives a position of `pat` and none stands before it.
pub proof fn lemma_found_from(s: Seq<char>, pat: Seq<char>, from: int)
    requires
        0 <= from,
    ensures
        match found_from(s, pat, from) {
            Some(i) => {
                &&& from <= i
                &&& stands_at(s, pat, i)
                &&& forall|j: int| from <= j < i ==> !stands_at(s, pat, j)
            },
            None => forall|j: int| from <= j ==> !stands_at(s, pat, j),
        },
    decreases s.len() + 1 - from,
{
    if from + pat.len() <= s.len() && !stands_at(s, pat, from) {
        lemma_found_from(s, pat, from + 1);
    }
}

/// Whether `pat` stands in `v` at position `i`.
pub fn at(v: &Vec<char>, pat: &Vec<char>, i: usize) -> (r: bool)
    ensures
        r == stands_at(v@, pat@, i as int),
{
    if i > v.len() || pat.len() > v.len() - i {
        return false;
    }
    let mut k: usize = 0;
    while k < pat.len()
        invariant
            k <= pat@.len(),
            i + pat@.len() <= v.len(),
            forall|j: int| 0 <= j < k ==> v@[i + j] == pat@[j],
        decreases pat@.len() - k,
    {
        if v[i + k] != pat[k] {
            assert(v@.subrange(i as int, i + pat@.len())[k as int] != pat@[k as int]);
            return false;
        }
        k += 1;
    }
    assert(v@.subrange(i as int, i + pat@.len()) =~= pat@);
    true
}

/// The first position at or after `from` at which `pat` stands in `v`.
pub fn find(v: &Vec<char>, pat: &Vec<char>, from: usize) -> (r: Option<usize>)
    requires
        from <= v@.len(),
    ensures
        match r {
            Some(i) => found_from(v@, pat@, from as int) == Some(i as int),
            None => found_from(v@, pat@, from as int) is None,
        },
{
    let mut i: usize = from;
    while i <= v.len() && pat.len() <= v.len() - i
        invariant
            from <= i <= v@.len() + 1,
            found_from(v@, pat@, i as int) == found_from(v@, pat@, from as int),
        decreases v@.len() + 1 - i,
    {
        if at(v, pat, i) {
            return Some(i);
        }
        if i == v.len() {
            assert(v@.subrange(i as int, i as int) =~= pat@);
            return None;
        }
        i += 1;
    }
    None
}

/// Whether `pat` stands anywhere in `s`.
pub fn contains(s: &str, pat: &str) -> (r: bool)
    ensures
        r == holds(s@, pat@),
{
    let v = chars(s);
    let p = chars(pat);
    proof {
        lemma_found_from(s@, pat@, 0);
    }
    match find(&v, &p, 0) {
        Some(i) => {
            assert(stands_at(s@, pat@, i as int));
            true
        },
        None => {
            assert forall|j: int| !stands_at(s@, pat@, j) by {
                if j >= 0 {
                }
            }
            false
        },
    }
}

/// Whether `s` begins with `pat`.
pub fn starts_with(s: &str, pat: &str) -> (r: bool)
    ensures
        r == begins(s@, pat@),
{
    let v = chars(s);
    let p = chars(pat);
    at(&v, &p, 0)
}

/// What follows `pat` at the front of `s`.
pub open spec fn after_prefix(s: Seq<char>, pat: Seq<char>) -> Option<Seq<char>> {
    if begins(s, pat) {
        Some(s.skip(pat.len() as int))
    } else {
        None
    }
}

/// Takes `pat` off the front of `s`.
pub fn strip_prefix(s: &str, pat: &str) -> (r: Option<String>)
    ensures
        opt_text(r) == after_prefix(s@, pat@),
{
    let v = chars(s);
    let p = chars(pat);
    if at(&v, &p, 0) {
        assert(v@.subrange(p@.len() as int, v@.len() as int) =~= s@.skip(pat@.len() as int));
        Some(slice_string(v.as_slice(), p.len(), v.len()))
    } else {
        None
    }
}

/// `s` ends with `pat`.
pub open spec fn ends(s: Seq<char>, pat: Seq<char>) -> bool {
    stands_at(s, pat, s.len() - pat.len())
}

/// Whether `s` ends with `pat`.
pub fn ends_with(s: &str, pat: &str) -> (r: bool)
    ensures
        r == ends(s@, pat@),
{
    let v = chars(s);
    let p = chars(pat);
    p.len() <= v.len() && at(&v, &p, v.len() - p.len())
}

/// What stands before `pat` at the end of `s`.
pub open spec fn before_suffix(s: Seq<char>, pat: Seq<char>) -> Option<Seq<char>> {
    if ends(s, pat) {
        Some(s.take(s.len() - pat.len()))
    } else {
        None
    }
}

/// Takes `pat` off the end of `s`.
pub fn strip_suffix(s: &str, pat: &str) -> (r: Option<String>)
    ensures
        opt_text(r) == before_suffix(s@, pat@),
{
    let v = chars(s);
    let p = chars(pat);
    if p.len() <= v.len() && at(&v, &p, v.len() - p.len()) {
        let end = v.len() - p.len();
        assert(v@.subrange(0, end as int) =~= s@.take(end as int));
        Some(slice_string(v.as_slice(), 0, end))
    } else {
        None
    }
}

/// The position of the first `c` of `v` at or after `from`, `v.len()` where there is none.
pub fn char_from(v: &Vec<char>, c: char, from: usize) -> (r: usize)
    requires
        from <= v@.len(),
    ensures
        from <= r <= v@.len(),
        r == from + pos(v@.skip(from as int), c),
        r < v@.len() ==> v@[r as int] == c,
        forall|j: int| from <= j < r ==> v@[j] != c,
{
    let mut i: usize = from;
    while i < v.len() && v[i] != c
        invariant
            from <= i <= v@.len(),
            forall|j: int| from <= j < i ==> v@[j] != c,
        decreases v@.len() - i,
    {
        i += 1;
    }
    proof {
        let rest = v@.skip(from as int);
        assert forall|j: int| 0 <= j < i - from implies rest[j] != c by {
            assert(rest[j] == v@[from + j]);
        }
        if i < v@.len() {
            assert(rest[i - from] == v@[i as int]);
        }
        lemma_pos_is(rest, c, i - from);
    }
    i
}

/// The position of the last `c` of `v`.
pub fn last_char(v: &Vec<char>, c: char) -> (r: Option<usize>)
    ensures
        match r {
            Some(i) => i < v@.len() && last_pos(v@, c) == i,
            None => last_pos(v@, c) == -1,
        },
{
    let mut j: usize = v.len();
    assert(v@.take(j as int) =~= v@);
    while j > 0
        invariant
            j <= v@.len(),
            last_pos(v@.take(j as int), c) == last_pos(v@, c),
        decreases j,
    {
        if v[j - 1] == c {
            return Some(j - 1);
        }
        assert(v@.take(j as int).drop_last() =~= v@.take(j - 1));
        j -= 1;
    }
    None
}

// ---------------------------------------------------------------------------
// Splitting
// ---------------------------------------------------------------------------

/// What stands before and after the first `pat` in `s`.
pub open spec fn cut_once(s: Seq<char>, pat: Seq<char>) -> Option<(Seq<char>, Seq<char>)> {
    match found_from(s, pat, 0) {
        Some(i) => Some((s.take(i), s.skip(i + pat.len()))),
        None => None,
    }
}

/// What stands before and after the last `c` in `s`.
pub open spec fn cut_last(s: Seq<char>, c: char) -> Option<(Seq<char>, Seq<char>)> {
    if last_pos(s, c) < 0 {
        None
    } else {
        Some((s.take(last_pos(s, c)), s.skip(last_pos(s, c) + 1)))
    }
}

/// The view of an optional pair of strings.
pub open spec fn opt_pair(p: Option<(String, String)>) -> Option<(Seq<char>, Seq<char>)> {
    match p {
        Some(q) => Some((q.0@, q.1@)),
        None => None,
    }
}

/// Splits at the first `pat`.
pub fn split_once(s: &str, pat: &str) -> (r: Option<(String, String)>)
    ensures
        opt_pair(r) == cut_once(s@, pat@),
{
    let v = chars(s);
    let p = chars(pat);
    proof {
        lemma_found_from(s@, pat@, 0);
    }
    let len = v.len();
    match find(&v, &p, 0) {
        Some(i) => {
            let a = slice_string(v.as_slice(), 0, i);
            let b = slice_string(v.as_slice(), i + p.len(), len);
            assert(a@ =~= s@.take(i as int));
            assert(b@ =~= s@.skip(i + pat@.len()));
            Some((a, b))
        },
        None => None,
    }
}

/// Splits at the last `c`.
pub fn rsplit_once(s: &str, c: char) -> (r: Option<(String, String)>)
    ensures
        opt_pair(r) == cut_last(s@, c),
{
    let v = chars(s);
    let len = v.len();
    match last_char(&v, c) {
        Some(i) => {
            let a = slice_string(v.as_slice(), 0, i);
            let b = slice_string(v.as_slice(), i + 1, len);
            assert(a@ =~= s@.take(i as int));
            assert(b@ =~= s@.skip(i + 1));
            Some((a, b))
        },
        None => None,
    }
}

/// What stands after the last `c` in `s`; all of `s` where there is none.
pub open spec fn after_last(s: Seq<char>, c: char) -> Seq<char> {
    s.skip(last_pos(s, c) + 1)
}

/// The part of `s` after its last `c`.
pub fn tail_after(s: &str, c: char) -> (r: String)
    ensures
        r@ == after_last(s@, c),
{
    let v = chars(s);
    let len = v.len();
    match last_char(&v, c) {
        Some(i) => {
            assert(v@.subrange(i + 1, v@.len() as int) =~= s@.skip(i + 1));
            slice_string(v.as_slice(), i + 1, len)
        },
        None => {
            assert(s@.skip(0) =~= s@);
            s.to_owned()
        },
    }
}

/// The pieces of `s` between one `c` and the next.
pub open spec fn pieces(s: Seq<char>, c: char) -> Seq<Seq<char>>
    decreases s.len(),
    via pieces_decreases
{
    if pos(s, c) >= s.len() {
        seq![s]
    } else {
        seq![s.take(pos(s, c))] + pieces(s.skip(pos(s, c) + 1), c)
    }
}

#[via_fn]
proof fn pieces_decreases(s: Seq<char>, c: char) {
    lemma_pos(s, c);
}

/// Splits at every `c`.
pub fn split_char(s: &str, c: char) -> (r: Vec<String>)
    ensures
        texts(r@) == pieces(s@, c),
{
    let v = chars(s);
    let mut out: Vec<String> = Vec::new();
    let mut start: usize = 0;
    assert(v@.skip(0) =~= s@);
    assert(texts(out@) + pieces(s@, c) =~= pieces(s@, c));
    loop
        invariant
            start <= v@.len(),
            v@ == s@,
            texts(out@) + pieces(v@.skip(start as int), c) == pieces(s@, c),
        decreases v@.len() - start,
    {
        let end = char_from(&v, c, start);
        let ghost rest = v@.skip(start as int);
        let ghost before = out@;
        let piece = slice_string(v.as_slice(), start, end);
        assert(piece@ =~= rest.take(pos(rest, c)));
        out.push(piece);
        assert(texts(out@) =~= texts(before).push(piece@));
        if end >= v.len() {
            assert(piece@ =~= rest);
            assert(texts(out@) =~= texts(before) + seq![rest]);
            return out;
        }
        proof {
            assert(rest.skip(pos(rest, c) + 1) =~= v@.skip(end + 1));
            assert(texts(out@) + pieces(v@.skip(end + 1), c) =~= texts(before) + (seq![
                rest.take(pos(rest, c)),
            ] + pieces(v@.skip(end + 1), c)));
        }
        start = end + 1;
    }
}

/// A line without the carriage return that its line feed may have had before it.
pub open spec fn chomped(line: Seq<char>) -> Seq<char> {
    if line.len() > 0 && line.last() == '\r' {
        line.drop_last()
    } else {
        line
    }
}

/// The lines of `s`: each ends at a line feed, or a carriage return and a line
/// feed, which is no part of it; the last may end with the text.
pub open spec fn line_seq(s: Seq<char>) -> Seq<Seq<char>>
    decreases s.len(),
    via line_seq_decreases
{
    if s.len() == 0 {
        Seq::empty()
    } else if pos(s, '\n') >= s.len() {
        seq![s]
    } else {
        seq![chomped(s.take(pos(s, '\n')))] + line_seq(s.skip(pos(s, '\n') + 1))
    }
}

#[via_fn]
proof fn line_seq_decreases(s: Seq<char>) {
    lemma_pos(s, '\n');
}

/// The lines of a string.
pub fn lines(s: &str) -> (r: Vec<String>)
    ensures
        texts(r@) == line_seq(s@),
{
    let v = chars(s);
    let mut out: Vec<String> = Vec::new();
    let mut start: usize = 0;
    assert(v@.skip(0) =~= s@);
    assert(texts(out@) + line_seq(s@) =~= line_seq(s@));
    while start < v.len()
        invariant
            start <= v@.len(),
            v@ == s@,
            texts(out@) + line_seq(v@.skip(start as int)) == line_seq(s@),
        decreases v@.len() - start,
    {
        let end = char_from(&v, '\n', start);
        let ghost rest = v@.skip(start as int);
        let ghost before = out@;
        if end >= v.len() {
            let line = slice_string(v.as_slice(), start, end);
            assert(line@ =~= rest);
            out.push(line);
            assert(texts(out@) =~= texts(before) + seq![rest]);
            return out;
        }
        let stop = if end > start && v[end - 1] == '\r' {
            end - 1
        } else {
            end
        };
        let line = slice_string(v.as_slice(), start, stop);
        proof {
            let raw = rest.take(pos(rest, '\n'));
            assert(raw =~= v@.subrange(start as int, end as int));
            assert(line@ =~= chomped(raw));
        }
        out.push(line);
        proof {
            assert(texts(out@) =~= texts(before).push(line@));
            assert(rest.skip(pos(rest, '\n') + 1) =~= v@.skip(end + 1));
            assert(texts(out@) + line_seq(v@.skip(end + 1)) =~= texts(before) + (seq![line@]
                + line_seq(v@.skip(end + 1))));
        }
        start = end + 1;
    }
    assert(v@.skip(start as int) =~= Seq::<char>::empty());
    assert(texts(out@) + Seq::<Seq<char>>::empty() =~= texts(out@));
    out
}

/// How many characters at the front of `s` are not white space.
pub open spec fn word_len(s: Seq<char>) -> int
    decreases s.len(),
{
    if s.len() > 0 && !is_white(s[0]) {
        1 + word_len(s.skip(1))
    } else {
        0
    }
}

/// The words of `s`: its longest runs of characters that are not white space.
pub open spec fn word_seq(s: Seq<char>) -> Seq<Seq<char>>
    decreases s.len(),
    via word_seq_decreases
{
    if s.len() == 0 {
        Seq::empty()
    } else if is_white(s[0]) {
        word_seq(s.skip(1))
    } else {
        seq![s.take(word_len(s))] + word_seq(s.skip(word_len(s)))
    }
}

#[via_fn]
proof fn word_seq_decreases(s: Seq<char>) {
    lemma_word_len(s);
    if s.len() > 0 {
        lemma_word_len(s.skip(1));
    }
}

proof fn lemma_word_len(s: Seq<char>)
    ensures
        0 <= word_len(s) <= s.len(),
    decreases s.len(),
{
    if s.len() > 0 && !is_white(s[0]) {
        lemma_word_len(s.skip(1));
    }
}

/// The words of a string.
pub fn words(s: &str) -> (r: Vec<String>)
    ensures
        texts(r@) == word_seq(s@),
{
    let v = chars(s);
    let mut out: Vec<String> = Vec::new();
    let mut i: usize = 0;
    assert(v@.skip(0) =~= s@);
    assert(texts(out@) + word_seq(s@) =~= word_seq(s@));
    while i < v.len()
        invariant
            i <= v@.len(),
            v@ == s@,
            texts(out@) + word_seq(v@.skip(i as int)) == word_seq(s@),
        decreases v@.len() - i,
    {
        let ghost rest = v@.skip(i as int);
        if white(v[i]) {
            assert(rest.skip(1) =~= v@.skip(i + 1));
            i += 1;
        } else {
            let mut j: usize = i;
            while j < v.len() && !white(v[j])
                invariant
                    i <= j <= v@.len(),
                    word_len(v@.skip(i as int)) == (j - i) + word_len(v@.skip(j as int)),
                decreases v@.len() - j,
            {
                assert(v@.skip(j as int).skip(1) =~= v@.skip(j + 1));
                j += 1;
            }
            let ghost before = out@;
            let word = slice_string(v.as_slice(), i, j);
            proof {
                lemma_word_len(v@.skip(j as int).skip(1));
                assert(word_len(rest) == j - i);
                assert(word@ =~= rest.take(j - i));
                assert(rest.skip(j - i) =~= v@.skip(j as int));
            }
            out.push(word);
            proof {
                assert(texts(out@) =~= texts(before).push(word@));
                assert(texts(out@) + word_seq(v@.skip(j as int)) =~= texts(before) + (seq![word@]
                    + word_seq(v@.skip(j as int))));
            }
            i = j;
        }
    }
    assert(v@.skip(i as int) =~= Seq::<char>::empty());
    assert(texts(out@) + Seq::<Seq<char>>::empty() =~= texts(out@));
    out
}

// ---------------------------------------------------------------------------
// Numbers
// ---------------------------------------------------------------------------

/// `c` is one of the ten decimal digits.
pub open spec fn is_digit(c: char) -> bool {
    '0' <= c <= '9'
}

/// The number that a string of decimal digits stands for.
pub open spec fn digits_value(s: Seq<char>) -> nat
    decreases s.len(),
{
    if s.len() == 0 {
        0
    } else {
        digits_value(s.drop_last()) * 10 + (s.last() as int - '0' as int) as nat
    }
}

/// Every character of `s` is a decimal digit.
pub open spec fn all_digits(s: Seq<char>) -> bool {
    forall|i: int| 0 <= i < s.len() ==> is_digit(#[trigger] s[i])
}

/// The unsigned number that `s` writes in decimal, with an optional `+` before
/// it, where it is at most `max`.
pub open spec fn parsed_number(s: Seq<char>, max: nat) -> Option<nat> {
    let d = if s.len() > 0 && s[0] == '+' {
        s.skip(1)
    } else {
        s
    };
    if d.len() > 0 && all_digits(d) && digits_value(d) <= max {
        Some(digits_value(d))
    } else {
        None
    }
}

proof fn lemma_digits_value_grows(s: Seq<char>, i: int)
    requires
        0 <= i <= s.len(),
    ensures
        digits_value(s.take(i)) <= digits_value(s),
    decreases s.len() - i,
{
    if i < s.len() {
        lemma_digits_value_grows(s, i + 1);
        assert(s.take(i + 1).drop_last() =~= s.take(i));
    } else {
        assert(s.take(i) =~= s);
    }
}

/// Reads an unsigned decimal number that is at most `max`.
pub fn parse_number(s: &str, max: u32) -> (r: Option<u32>)
    ensures
        match r {
            Some(n) => parsed_number(s@, max as nat) == Some(n as nat),
            None => parsed_number(s@, max as nat) is None,
        },
{
    let v = chars(s);
    let start: usize = if v.len() > 0 && v[0] == '+' {
        1
    } else {
        0
    };
    let ghost d = if s@.len() > 0 && s@[0] == '+' {
        s@.skip(1)
    } else {
        s@
    };
    assert(d =~= v@.skip(start as int));
    if start >= v.len() {
        return None;
    }
    let mut acc: u64 = 0;
    let mut i: usize = start;
    assert(d.take(0) =~= Seq::<char>::empty());
    while i < v.len()
        invariant
            start <= i <= v@.len(),
            start <= 1,
            d == v@.skip(start as int),
            d.len() == v@.len() - start,
            acc <= max,
            acc == digits_value(d.take(i - start)),
            forall|j: int| 0 <= j < i - start ==> is_digit(#[trigger] d[j]),
            parsed_number(s@, max as nat) == (if d.len() > 0 && all_digits(d) && digits_value(d)
                <= max {
                Some(digits_value(d))
            } else {
                None
            }),
        decreases v@.len() - i,
    {
        let c = v[i];
        assert(d[i - start] == c);
        if !('0' <= c && c <= '9') {
            return None;
        }
        acc = acc * 10 + (c as u64 - '0' as u64);
        proof {
            assert(d.take(i - start + 1).drop_last() =~= d.take(i - start));
            assert(d.take(i - start + 1).last() == c);
            assert(acc == digits_value(d.take(i - start + 1)));
        }
        if acc > max as u64 {
            proof {
                lemma_digits_value_grows(d, i - start + 1);
            }
            return None;
        }
        i += 1;
    }
    assert(d.take(d.len() as int) =~= d);
    Some(acc as u32)
}

/// Reads a 16-bit unsigned number.
pub fn parse_u16(s: &str) -> (r: Option<u16>)
    ensures
        match r {
            Some(n) => parsed_number(s@, 65535) == Some(n as nat),
            None => parsed_number(s@, 65535) is None,
        },
{
    match parse_number(s, 65535) {
        Some(n) => Some(n as u16),
        None => None,
    }
}

/// The decimal digit `d`.
pub open spec fn digit_char(d: nat) -> char {
    (('0' as u8) + d) as char
}

/// `n` written in decimal, without leading zeros.
pub open spec fn decimal(n: nat) -> Seq<char>
    decreases n,
{
    if n < 10 {
        seq![digit_char(n)]
    } else {
        decimal(n / 10).push(digit_char(n % 10))
    }
}

/// Appends `n` in decimal.
pub fn push_decimal(out: &mut String, n: u64)
    ensures
        final(out)@ == old(out)@ + decimal(n as nat),
    decreases n,
{
    if n >= 10 {
        push_decimal(out, n / 10);
    }
    let ghost before = out@;
    let d: u8 = (n % 10) as u8;
    out.push((48u8 + d) as char);
    proof {
        if n >= 10 {
            assert(out@ =~= old(out)@ + decimal(n as nat));
        } else {
            assert(out@ =~= old(out)@ + decimal(n as nat));
        }
    }
}

/// `n` in decimal.
pub fn number(n: u64) -> (r: String)
    ensures
        r@ == decimal(n as nat),
{
    let mut out = String::new();
    push_decimal(&mut out, n);
    assert(Seq::<char>::empty() + decimal(n as nat) =~= decimal(n as nat));
    out
}

// ---------------------------------------------------------------------------
// Order
// ---------------------------------------------------------------------------

/// `a` comes before `b` in the order of their characters.
pub open spec fn precedes(a: Seq<char>, b: Seq<char>) -> bool
    decreases a.len(),
{
    if b.len() == 0 {
        false
    } else if a.len() == 0 {
        true
    } else if a[0] != b[0] {
        a[0] < b[0]
    } else {
        precedes(a.skip(1), b.skip(1))
    }
}

/// No string comes before itself.
pub proof fn lemma_precedes_irreflexive(a: Seq<char>)
    ensures
        !precedes(a, a),
    decreases a.len(),
{
    if a.len() > 0 {
        lemma_precedes_irreflexive(a.skip(1));
    }
}

/// The order is transitive.
pub proof fn lemma_precedes_transitive(a: Seq<char>, b: Seq<char>, c: Seq<char>)
    requires
        precedes(a, b),
        precedes(b, c),
    ensures
        precedes(a, c),
    decreases a.len(),
{
    if a.len() > 0 && b.len() > 0 && c.len() > 0 && a[0] == b[0] && b[0] == c[0] {
        lemma_precedes_transitive(a.skip(1), b.skip(1), c.skip(1));
    }
}

/// Of two different strings one comes before the other.
pub proof fn lemma_precedes_total(a: Seq<char>, b: Seq<char>)
    ensures
        precedes(a, b) || precedes(b, a) || a == b,
    decreases a.len(),
{
    if a.len() > 0 && b.len() > 0 && a[0] == b[0] {
        lemma_precedes_total(a.skip(1), b.skip(1));
        if a.skip(1) == b.skip(1) {
            assert(a =~= seq![a[0]] + a.skip(1));
            assert(b =~= seq![b[0]] + b.skip(1));
        }
    } else if a.len() == 0 && b.len() == 0 {
        assert(a =~= b);
    }
}

/// Whether `a` comes before `b`.
pub fn before(a: &str, b: &str) -> (r: bool)
    ensures
        r == precedes(a@, b@),
{
    let x = chars(a);
    let y = chars(b);
    let mut i: usize = 0;
    assert(x@.skip(0) =~= a@);
    assert(y@.skip(0) =~= b@);
    while i < x.len() && i < y.len()
        invariant
            i <= x@.len(),
            i <= y@.len(),
            precedes(x@.skip(i as int), y@.skip(i as int)) == precedes(a@, b@),
        decreases x@.len() - i,
    {
        if x[i] != y[i] {
            return x[i] < y[i];
        }
        assert(x@.skip(i as int).skip(1) =~= x@.skip(i + 1));
        assert(y@.skip(i as int).skip(1) =~= y@.skip(i + 1));
        i += 1;
    }
    i < y.len()
}

// ---------------------------------------------------------------------------
// Sorting
// ---------------------------------------------------------------------------

/// No text comes after one that it precedes.
pub open spec fn in_order(s: Seq<Seq<char>>) -> bool {
    forall|i: int, j: int| 0 <= i < j < s.len() ==> !precedes(#[trigger] s[j], #[trigger] s[i])
}

/// Two lists have the same texts, each as often.
pub open spec fn same_texts(a: Seq<Seq<char>>, b: Seq<Seq<char>>) -> bool {
    a.to_multiset() == b.to_multiset()
}

proof fn lemma_insert_in_order(s: Seq<Seq<char>>, at: int, t: Seq<char>)
    requires
        in_order(s),
        0 <= at <= s.len(),
        forall|j: int| 0 <= j < at ==> !precedes(t, #[trigger] s[j]),
        at < s.len() ==> precedes(t, s[at]),
    ensures
        in_order(s.insert(at, t)),
{
    let r = s.insert(at, t);
    assert forall|i: int, j: int| 0 <= i < j < r.len() implies !precedes(
        #[trigger] r[j],
        #[trigger] r[i],
    ) by {
        if i < at && j < at {
            assert(r[i] == s[i] && r[j] == s[j]);
        } else if j == at {
            assert(r[i] == s[i]);
        } else if i == at {
            assert(r[j] == s[j - 1]);
            if precedes(s[j - 1], t) {
                if j - 1 > at {
                    lemma_precedes_transitive(s[j - 1], t, s[at]);
                    assert(!precedes(s[j - 1], s[at]));
                } else {
                    lemma_precedes_transitive(t, s[at], t);
                    lemma_precedes_irreflexive(t);
                }
            }
        } else if i < at {
            assert(r[i] == s[i] && r[j] == s[j - 1]);
        } else {
            assert(r[i] == s[i - 1] && r[j] == s[j - 1]);
        }
    }
}

/// The same texts in order.
pub fn sort(v: &Vec<String>) -> (r: Vec<String>)
    ensures
        in_order(texts(r@)),
        same_texts(texts(r@), texts(v@)),
{
    let mut out: Vec<String> = Vec::new();
    let mut i: usize = 0;
    assert(texts(out@) =~= texts(v@).take(0));
    while i < v.len()
        invariant
            i <= v@.len(),
            in_order(texts(out@)),
            texts(out@).to_multiset() == texts(v@).take(i as int).to_multiset(),
        decreases v@.len() - i,
    {
        let ghost before = texts(out@);
        let ghost t = v@[i as int]@;
        let mut at: usize = 0;
        while at < out.len() && !self::before(v[i].as_str(), out[at].as_str())
            invariant
                at <= out@.len(),
                i < v@.len(),
                before == texts(out@),
                forall|j: int| 0 <= j < at ==> !precedes(v@[i as int]@, #[trigger] before[j]),
            decreases out@.len() - at,
        {
            assert(before[at as int] == out@[at as int]@);
            at += 1;
        }
        if at < out.len() {
            assert(before[at as int] == out@[at as int]@);
        }
        out.insert(at, v[i].clone());
        proof {
            assert(texts(out@) =~= before.insert(at as int, t));
            lemma_insert_in_order(before, at as int, t);
            lemma_insert_multiset(before, at as int, t);
            assert(texts(v@).take(i + 1) =~= texts(v@).take(i as int).insert(i as int, t));
            lemma_insert_multiset(texts(v@).take(i as int), i as int, t);
        }
        i += 1;
    }
    assert(texts(v@).take(v@.len() as int) =~= texts(v@));
    out
}

proof fn lemma_insert_multiset(s: Seq<Seq<char>>, at: int, t: Seq<char>)
    requires
        0 <= at <= s.len(),
    ensures
        s.insert(at, t).to_multiset() == s.to_multiset().insert(t),
{
    broadcast use vstd::seq_lib::group_to_multiset_ensures;

    let a = s.take(at);
    let b = s.skip(at);
    assert(s =~= a + b);
    assert(s.insert(at, t) =~= a.push(t) + b);
    vstd::seq_lib::lemma_multiset_commutative(a, b);
    vstd::seq_lib::lemma_multiset_commutative(a.push(t), b);
    assert(s.insert(at, t).to_multiset() =~= s.to_multiset().insert(t));
}

} // verus!
