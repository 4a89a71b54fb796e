//! Laws of texts: searching, cutting, trimming, splitting and numbers.

use crate::text::{
    after_last, after_prefix, all_digits, before_suffix, begins, cut_last, cut_once, decimal,
    digit_char, digits_value, ends, found_from, holds, in_order, is_digit, is_white, joined,
    last_pos, lemma_found_from, lemma_last_pos, lemma_pos_is, line_seq, lower, parsed_number,
    pieces, precedes, same_texts, stands_at, trimmed, trimmed_end, word_len, word_seq,
};
use vstd::prelude::*;

verus! {

// ---------------------------------------------------------------------------
// Searching
// ---------------------------------------------------------------------------

/// A search finds the first place at which the pattern stands.
pub proof fn law_search_finds_the_first(s: Seq<char>, pat: Seq<char>, from: int, at: int)
    requires
        0 <= from <= at,
        at + pat.len() <= s.len(),
        s.subrange(at, at + pat.len()) == pat,
        forall|j: int| from <= j < at ==> #[trigger] s.subrange(j, j + pat.len()) != pat,
    ensures
        found_from(s, pat, from) == Some(at),
{
    lemma_found_from(s, pat, from);
    assert(stands_at(s, pat, at));
    match found_from(s, pat, from) {
        Some(i) => {
            if i < at {
                assert(s.subrange(i, i + pat.len()) != pat);
            }
        },
        None => {},
    }
}

/// A search finds nothing just where the pattern stands nowhere.
pub proof fn law_search_misses_nothing(s: Seq<char>, pat: Seq<char>)
    ensures
        found_from(s, pat, 0) is None <==> forall|j: int|
            0 <= j && j + pat.len() <= s.len() ==> #[trigger] s.subrange(j, j + pat.len()) != pat,
        holds(s, pat) <==> exists|j: int|
            0 <= j && j + pat.len() <= s.len() && #[trigger] s.subrange(j, j + pat.len()) == pat,
{
    lemma_found_from(s, pat, 0);
    if found_from(s, pat, 0) is None {
        assert forall|j: int| 0 <= j && j + pat.len() <= s.len() implies #[trigger] s.subrange(
            j,
            j + pat.len(),
        ) != pat by {
            assert(!stands_at(s, pat, j));
        }
    }
    if exists|j: int|
        0 <= j && j + pat.len() <= s.len() && #[trigger] s.subrange(j, j + pat.len()) == pat {
        let j = choose|j: int|
            0 <= j && j + pat.len() <= s.len() && #[trigger] s.subrange(j, j + pat.len()) == pat;
        assert(stands_at(s, pat, j));
    }
    if holds(s, pat) {
        let j = choose|j: int| #[trigger] stands_at(s, pat, j);
        assert(s.subrange(j, j + pat.len()) == pat);
    }
}

/// A text is cut at the first place of a pattern, and nothing of it is lost.
pub proof fn law_cut_is_at_the_first(a: Seq<char>, pat: Seq<char>, b: Seq<char>)
    requires
        forall|j: int|
            0 <= j < a.len() ==> #[trigger] (a + pat + b).subrange(j, j + pat.len()) != pat,
    ensures
        cut_once(a + pat + b, pat) == Some((a, b)),
{
    let s = a + pat + b;
    let at = a.len() as int;
    assert(s.subrange(at, at + pat.len()) =~= pat);
    law_search_finds_the_first(s, pat, 0, at);
    assert(s.take(at) =~= a);
    assert(s.skip(at + pat.len()) =~= b);
}

/// A text that does not hold the pattern is not cut.
pub proof fn law_cut_needs_the_pattern(s: Seq<char>, pat: Seq<char>)
    ensures
        cut_once(s, pat) is Some <==> holds(s, pat),
        cut_once(s, pat) matches Some((a, b)) ==> s == a + pat + b,
{
    lemma_found_from(s, pat, 0);
    match found_from(s, pat, 0) {
        Some(i) => {
            assert(stands_at(s, pat, i));
            assert(s =~= s.take(i) + s.subrange(i, i + pat.len()) + s.skip(i + pat.len()));
        },
        None => {},
    }
}

/// A text is cut at the last of a character, whatever stands before it.
pub proof fn law_last_cut(a: Seq<char>, c: char, b: Seq<char>)
    requires
        !b.contains(c),
    ensures
        cut_last(a + seq![c] + b, c) == Some((a, b)),
        after_last(a + seq![c] + b, c) == b,
        cut_last(b, c) is None,
        after_last(b, c) == b,
{
    let s = a + seq![c] + b;
    lemma_last_pos(s, c);
    lemma_last_pos(b, c);
    if last_pos(b, c) >= 0 {
        assert(b.contains(b[last_pos(b, c)]));
    }
    assert(s[a.len() as int] == c);
    if last_pos(s, c) > a.len() {
        assert(b[last_pos(s, c) - a.len() - 1] == c);
    }
    assert(s.take(a.len() as int) =~= a);
    assert(s.skip(a.len() as int + 1) =~= b);
}

// ---------------------------------------------------------------------------
// White space and case
// ---------------------------------------------------------------------------

/// Blanks, tabs and line ends are white space, and so are the spaces of other
/// scripts; what can be seen of ASCII is not, nor is what has no width.
pub proof fn law_white_space(c: char)
    ensures
        is_white(' ') && is_white('\t') && is_white('\n') && is_white('\r'),
        is_white('\u{b}') && is_white('\u{c}') && is_white('\u{85}') && is_white('\u{a0}'),
        is_white('\u{1680}') && is_white('\u{2028}') && is_white('\u{2029}'),
        is_white('\u{202f}') && is_white('\u{205f}') && is_white('\u{3000}'),
        '\u{2000}' <= c <= '\u{200a}' ==> is_white(c),
        '!' <= c <= '~' ==> !is_white(c),
        c < '\t' || '\r' < c < ' ' ==> !is_white(c),
        '\u{200b}' <= c <= '\u{2027}' ==> !is_white(c),
        c > '\u{3000}' ==> !is_white(c),
{
}

/// Trimming takes white space off both ends, all of it and nothing else.
pub proof fn law_trim(a: Seq<char>, s: Seq<char>, b: Seq<char>)
    requires
        forall|i: int| 0 <= i < a.len() ==> is_white(#[trigger] a[i]),
        forall|i: int| 0 <= i < b.len() ==> is_white(#[trigger] b[i]),
        s.len() > 0 ==> !is_white(s[0]) && !is_white(s.last()),
    ensures
        trimmed(a + s + b) == s,
    decreases a.len() + b.len(),
{
    if a.len() > 0 {
        assert((a + s + b)[0] == a[0]);
        assert((a + s + b).skip(1) =~= a.skip(1) + s + b);
        law_trim(a.skip(1), s, b);
    } else if s.len() == 0 {
        assert(a + s + b =~= b);
        lemma_blank(b);
    } else {
        assert(a + s + b =~= s + b);
        assert((s + b)[0] == s[0]);
        lemma_trimmed_end(s, b);
    }
}

proof fn lemma_blank(b: Seq<char>)
    requires
        forall|i: int| 0 <= i < b.len() ==> is_white(#[trigger] b[i]),
    ensures
        trimmed(b) == Seq::<char>::empty(),
    decreases b.len(),
{
    if b.len() > 0 {
        lemma_blank(b.skip(1));
        assert(is_white(b[0]));
    } else {
        assert(b =~= Seq::<char>::empty());
    }
}

proof fn lemma_trimmed_end(s: Seq<char>, b: Seq<char>)
    requires
        s.len() > 0,
        !is_white(s.last()),
        forall|i: int| 0 <= i < b.len() ==> is_white(#[trigger] b[i]),
    ensures
        trimmed_end(s + b) == s,
    decreases b.len(),
{
    if b.len() > 0 {
        assert((s + b).last() == b.last());
        assert(is_white(b[b.len() - 1]));
        assert((s + b).drop_last() =~= s + b.drop_last());
        lemma_trimmed_end(s, b.drop_last());
    } else {
        assert(s + b =~= s);
    }
}

/// Lower case touches the letters from A to Z alone: each becomes the letter at the
/// same place of the small alphabet, and every other character stays.
pub proof fn law_lower(s: Seq<char>, i: int)
    requires
        0 <= i < s.len(),
    ensures
        lower(s).len() == s.len(),
        'A' <= s[i] <= 'Z' ==> lower(s)[i] as int == s[i] as int - 'A' as int + 'a' as int,
        !('A' <= s[i] <= 'Z') ==> lower(s)[i] == s[i],
{
}

/// A text and its beginning agree on what is lower case.
pub proof fn lemma_lower_take(s: Seq<char>, n: int)
    requires
        0 <= n <= s.len(),
    ensures
        lower(s.take(n)) == lower(s).take(n),
{
    assert(lower(s.take(n)) =~= lower(s).take(n));
}

// ---------------------------------------------------------------------------
// Lines, pieces and words
// ---------------------------------------------------------------------------

/// A line ends at a line feed or at a carriage return and a line feed; the next
/// line starts right behind it.
pub proof fn law_lines(line: Seq<char>, rest: Seq<char>)
    requires
        !line.contains('\n'),
    ensures
        line.len() == 0 || line.last() != '\r' ==> line_seq(line + seq!['\n'] + rest) == seq![line]
            + line_seq(rest),
        line_seq(line + seq!['\r', '\n'] + rest) == seq![line] + line_seq(rest),
        line.len() > 0 ==> line_seq(line) == seq![line],
        line_seq(Seq::<char>::empty()) == Seq::<Seq<char>>::empty(),
{
    let n = line.len() as int;
    assert forall|j: int| 0 <= j < n implies line[j] != '\n' by {
        assert(line.contains(line[j]));
    }
    let s = line + seq!['\n'] + rest;
    assert(s[n] == '\n');
    lemma_pos_is(s, '\n', n);
    assert(s.take(n) =~= line);
    assert(s.skip(n + 1) =~= rest);
    let t = line + seq!['\r', '\n'] + rest;
    assert(t[n + 1] == '\n' && t[n] == '\r');
    lemma_pos_is(t, '\n', n + 1);
    assert(t.take(n + 1) =~= line.push('\r'));
    assert(line.push('\r').drop_last() =~= line);
    assert(t.skip(n + 2) =~= rest);
    lemma_pos_is(line, '\n', n);
}

/// A text is split at every one of a character, and nowhere else.
pub proof fn law_pieces(a: Seq<char>, c: char, rest: Seq<char>)
    requires
        !a.contains(c),
    ensures
        pieces(a + seq![c] + rest, c) == seq![a] + pieces(rest, c),
        pieces(a, c) == seq![a],
{
    let n = a.len() as int;
    assert forall|j: int| 0 <= j < n implies a[j] != c by {
        assert(a.contains(a[j]));
    }
    let s = a + seq![c] + rest;
    assert(s[n] == c);
    lemma_pos_is(s, c, n);
    assert(s.take(n) =~= a);
    assert(s.skip(n + 1) =~= rest);
    lemma_pos_is(a, c, n);
}

/// A word ends at white space; white space before it is no part of it.
pub proof fn law_words(word: Seq<char>, c: char, rest: Seq<char>)
    requires
        word.len() > 0,
        forall|i: int| 0 <= i < word.len() ==> !is_white(#[trigger] word[i]),
        is_white(c),
    ensures
        word_seq(word + seq![c] + rest) == seq![word] + word_seq(rest),
        word_seq(word) == seq![word],
        word_seq(seq![c] + rest) == word_seq(rest),
        word_seq(Seq::<char>::empty()) == Seq::<Seq<char>>::empty(),
{
    let n = word.len() as int;
    let s = word + seq![c] + rest;
    assert(s[n] == c);
    lemma_word_len_is(s, n);
    assert(s[0] == word[0]);
    assert(s.take(n) =~= word);
    assert(s.skip(n) =~= seq![c] + rest);
    assert((seq![c] + rest).skip(1) =~= rest);
    assert((seq![c] + rest)[0] == c);
    assert(word_seq(seq![c] + rest) == word_seq(rest));
    lemma_word_len_is(word, n);
    assert(!is_white(word[0]));
    assert(word.take(n) =~= word);
    assert(word.skip(n) =~= Seq::<char>::empty());
    assert(word_seq(word.skip(n)) =~= Seq::<Seq<char>>::empty());
    assert(word_seq(word) == seq![word.take(n)] + word_seq(word.skip(n)));
    assert(seq![word] + Seq::<Seq<char>>::empty() =~= seq![word]);
}

proof fn lemma_word_len_is(s: Seq<char>, n: int)
    requires
        0 <= n <= s.len(),
        forall|i: int| 0 <= i < n ==> !is_white(#[trigger] s[i]),
        n < s.len() ==> is_white(s[n]),
    ensures
        word_len(s) == n,
    decreases s.len(),
{
    if n > 0 {
        assert(!is_white(s[0]));
        assert forall|i: int| 0 <= i < n - 1 implies !is_white(#[trigger] s.skip(1)[i]) by {
            assert(!is_white(s[i + 1]));
        }
        lemma_word_len_is(s.skip(1), n - 1);
    }
}

/// Joining puts the separator between each two parts and nowhere else.
pub proof fn law_joined(parts: Seq<Seq<char>>, part: Seq<char>, sep: Seq<char>)
    ensures
        joined(Seq::empty(), sep) == Seq::<char>::empty(),
        joined(seq![part], sep) == part,
        parts.len() > 0 ==> joined(parts.push(part), sep) == joined(parts, sep) + sep + part,
{
    assert(parts.push(part).drop_last() =~= parts);
}

// ---------------------------------------------------------------------------
// Numbers
// ---------------------------------------------------------------------------

/// What is written in decimal is read back as the same number, as far as it is
/// allowed to go.
pub proof fn law_decimal_reads_back(n: nat, max: nat)
    ensures
        parsed_number(decimal(n), max) == if n <= max {
            Some(n)
        } else {
            None
        },
        decimal(n).len() > 0,
        forall|i: int| 0 <= i < decimal(n).len() ==> '0' <= #[trigger] decimal(n)[i] <= '9',
{
    lemma_decimal(n);
}

proof fn lemma_decimal(n: nat)
    ensures
        decimal(n).len() > 0,
        forall|i: int| 0 <= i < decimal(n).len() ==> '0' <= #[trigger] decimal(n)[i] <= '9',
        digits_value(decimal(n)) == n,
        decimal(n)[0] != '+',
    decreases n,
{
    if n >= 10 {
        lemma_decimal(n / 10);
        let d = decimal(n / 10);
        assert(decimal(n) == d.push(digit_char(n % 10)));
        assert(decimal(n).drop_last() =~= d);
        assert(decimal(n)[0] == d[0]);
    } else {
        assert(decimal(n).drop_last() =~= Seq::<char>::empty());
        reveal_with_fuel(digits_value, 2);
    }
}

/// Two numbers with the same digits are the same number.
pub proof fn law_decimal_is_unique(a: nat, b: nat)
    requires
        decimal(a) == decimal(b),
    ensures
        a == b,
{
    lemma_decimal(a);
    lemma_decimal(b);
}

/// What is no number is not read as one: nothing, anything but digits behind an
/// optional plus sign, and what is above the limit.
pub proof fn law_only_numbers_are_read(s: Seq<char>, max: nat, i: int)
    ensures
        s.len() == 0 ==> parsed_number(s, max) is None,
        0 <= i < s.len() && !('0' <= s[i] <= '9') && (i > 0 || s[0] != '+') ==> parsed_number(
            s,
            max,
        ) is None,
        parsed_number(s, max) matches Some(n) ==> n <= max,
        s.len() > 0 && s[0] != '+' ==> parsed_number(seq!['+'] + s, max) == parsed_number(s, max),
{
    if 0 <= i < s.len() && !('0' <= s[i] <= '9') && (i > 0 || s[0] != '+') {
        if s[0] == '+' {
            assert(s.skip(1)[i - 1] == s[i]);
        }
        let d = if s[0] == '+' {
            s.skip(1)
        } else {
            s
        };
        if all_digits(d) {
            if s[0] == '+' {
                assert(is_digit(d[i - 1]));
            } else {
                assert(is_digit(d[i]));
            }
        }
    }
    assert((seq!['+'] + s).skip(1) =~= s);
}

/// A further digit makes a number ten times what it was, and that digit more.
pub proof fn law_digits(s: Seq<char>, d: char)
    requires
        '0' <= d <= '9',
    ensures
        digits_value(s.push(d)) == digits_value(s) * 10 + (d as int - '0' as int),
        digits_value(Seq::empty()) == 0,
{
    assert(s.push(d).drop_last() =~= s);
}

// ---------------------------------------------------------------------------
// Order
// ---------------------------------------------------------------------------

/// Texts are ordered as in a dictionary: the first place at which two differ
/// decides by the codes of the characters there, and a text comes after its own
/// beginnings.
pub proof fn law_dictionary_order(p: Seq<char>, a: char, s: Seq<char>, b: char, t: Seq<char>)
    ensures
        precedes(p, p + seq![a] + s),
        !precedes(p + seq![a] + s, p),
        a != b ==> (precedes(p + seq![a] + s, p + seq![b] + t) <==> (a as int) < (b as int)),
    decreases p.len(),
{
    let x = p + seq![a] + s;
    let y = p + seq![b] + t;
    if p.len() > 0 {
        assert(x[0] == p[0] && y[0] == p[0]);
        assert(x.skip(1) =~= p.skip(1) + seq![a] + s);
        assert(y.skip(1) =~= p.skip(1) + seq![b] + t);
        law_dictionary_order(p.skip(1), a, s, b, t);
    } else {
        assert(x[0] == a && y[0] == b);
    }
}

/// A sorted list has the texts of the list it was made from, each as often, and none
/// of them comes before one that stands above it.
pub proof fn law_sorted(a: Seq<Seq<char>>, b: Seq<Seq<char>>, i: int, j: int, t: Seq<char>)
    requires
        in_order(a),
        same_texts(a, b),
    ensures
        a.len() == b.len(),
        a.contains(t) <==> b.contains(t),
        0 <= i < j < a.len() ==> a[i] == a[j] || precedes(a[i], a[j]),
{
    broadcast use vstd::seq_lib::group_to_multiset_ensures;

    assert(a.to_multiset().len() == b.to_multiset().len());
    assert(a.to_multiset().count(t) == b.to_multiset().count(t));
    if 0 <= i < j < a.len() {
        crate::text::lemma_precedes_total(a[i], a[j]);
        assert(!precedes(a[j], a[i]));
    }
}

// ---------------------------------------------------------------------------
// Beginnings and ends
// ---------------------------------------------------------------------------

/// A beginning or an end that is there is taken off, and nothing else is.
pub proof fn law_take_off(a: Seq<char>, b: Seq<char>)
    ensures
        after_prefix(a + b, a) == Some(b),
        before_suffix(a + b, b) == Some(a),
        after_prefix(a, b) matches Some(rest) ==> a == b + rest,
        before_suffix(a, b) matches Some(rest) ==> a == rest + b,
        begins(a + b, a),
        ends(a + b, b),
{
    let s = a + b;
    let n = a.len() as int;
    assert(s.subrange(0, n) =~= a);
    assert(s.skip(n) =~= b);
    assert(s.subrange(n, s.len() as int) =~= b);
    assert(s.take(n) =~= a);
    if let Some(rest) = after_prefix(a, b) {
        assert(a =~= a.subrange(0, b.len() as int) + rest);
    }
    if let Some(rest) = before_suffix(a, b) {
        assert(a =~= rest + a.subrange(a.len() - b.len(), a.len() as int));
    }
}

} // verus!
