//! What holds of the functions on text: what they keep, what they take away, and what undoes them.
use vstd::prelude::*;
use vstd::string::*;

use crate::text::{
    begins, digits_value, ends, find_from, hex, index_from, is_digit, is_space, join, joined,
    lemma_index_from, lemma_text_order_total, lines, lowercased, occurs, occurs_at, parsed_uint,
    replaced, split, text_lt, trimmed, trimmed_end, trimmed_start,
};

verus! {

// ---------------------------------------------------------------------------------------------
// White space
// ---------------------------------------------------------------------------------------------
/// Whether a text is made of white space alone.
pub open spec fn is_blank(s: Seq<char>) -> bool {
    forall|i: int| 0 <= i < s.len() ==> is_space(#[trigger] s[i])
}

/// Spaces, tabs and the ends of lines are white space, and so is the space that does not break; the
/// visible characters of ASCII are not.
pub proof fn law_white_space(c: char)
    ensures
        is_space(' '),
        is_space('\t'),
        is_space('\n'),
        is_space('\r'),
        is_space('\u{a0}'),
        is_space('\u{3000}'),
        33 <= c as int && (c as int) < 127 ==> !is_space(c),
{
}

proof fn lemma_trimmed_start(s: Seq<char>)
    ensures
        exists|a: Seq<char>| is_blank(a) && s == #[trigger] (a + trimmed_start(s)),
        trimmed_start(s).len() > 0 ==> !is_space(trimmed_start(s)[0]),
    decreases s.len(),
{
    if s.len() > 0 && is_space(s[0]) {
        let rest = s.skip(1);
        lemma_trimmed_start(rest);
        let a = choose|a: Seq<char>| is_blank(a) && rest == #[trigger] (a + trimmed_start(rest));
        let b = seq![s[0]] + a;
        assert(is_blank(b));
        assert(trimmed_start(s) == trimmed_start(rest));
        assert(s =~= seq![s[0]] + rest);
        assert(s =~= b + trimmed_start(s));
    } else {
        let e = Seq::<char>::empty();
        assert(is_blank(e));
        assert(s =~= e + trimmed_start(s));
    }
}

proof fn lemma_trimmed_end(s: Seq<char>)
    ensures
        exists|b: Seq<char>| is_blank(b) && s == #[trigger] (trimmed_end(s) + b),
        trimmed_end(s).len() > 0 ==> !is_space(trimmed_end(s).last()) && trimmed_end(s)[0] == s[0],
    decreases s.len(),
{
    if s.len() > 0 && is_space(s.last()) {
        let rest = s.drop_last();
        lemma_trimmed_end(rest);
        let b = choose|b: Seq<char>| is_blank(b) && rest == #[trigger] (trimmed_end(rest) + b);
        let c = b.push(s.last());
        assert(is_blank(c));
        assert(trimmed_end(s) == trimmed_end(rest));
        assert(s =~= rest.push(s.last()));
        assert(s =~= trimmed_end(s) + c);
    } else {
        let e = Seq::<char>::empty();
        assert(is_blank(e));
        assert(s =~= trimmed_end(s) + e);
    }
}

/// A trimmed text is the text without white space before it and behind it, and no white space is left
/// at its ends.
pub proof fn law_trimmed_text(s: Seq<char>)
    ensures
        exists|a: Seq<char>, b: Seq<char>|
            is_blank(a) && is_blank(b) && s == #[trigger] (a + trimmed(s) + b),
        trimmed(s).len() > 0 ==> !is_space(trimmed(s)[0]) && !is_space(trimmed(s).last()),
{
    let t = trimmed_start(s);
    lemma_trimmed_start(s);
    lemma_trimmed_end(t);
    let a = choose|a: Seq<char>| is_blank(a) && s == #[trigger] (a + t);
    let b = choose|b: Seq<char>| is_blank(b) && t == #[trigger] (trimmed_end(t) + b);
    assert(s =~= a + trimmed(s) + b);
}

/// Nothing is left of a trimmed text exactly where it is made of white space.
pub proof fn law_blank_text_is_trimmed_away(s: Seq<char>)
    ensures
        trimmed(s).len() == 0 <==> is_blank(s),
{
    law_trimmed_text(s);
    let (a, b) = choose|a: Seq<char>, b: Seq<char>|
        is_blank(a) && is_blank(b) && s == #[trigger] (a + trimmed(s) + b);
    if trimmed(s).len() == 0 {
        assert forall|i: int| 0 <= i < s.len() implies is_space(#[trigger] s[i]) by {
            if i < a.len() {
                assert(s[i] == a[i]);
            } else {
                assert(s[i] == b[i - a.len()]);
            }
        }
    } else {
        assert(s[a.len() as int] == trimmed(s)[0]);
    }
}

/// A text within which a text stands that is not blank is not blank.
pub proof fn lemma_not_blank(s: Seq<char>, t: Seq<char>)
    requires
        occurs(s, t),
        trimmed(t).len() > 0,
    ensures
        trimmed(s).len() > 0,
{
    law_blank_text_is_trimmed_away(s);
    law_blank_text_is_trimmed_away(t);
    let k = choose|k: int| occurs_at(s, t, k);
    if is_blank(s) {
        assert forall|i: int| 0 <= i < t.len() implies is_space(#[trigger] t[i]) by {
            assert(s.subrange(k, k + t.len())[i] == s[k + i]);
            assert(is_space(s[k + i]));
        }
    }
}

// ---------------------------------------------------------------------------------------------
// Where texts stand
// ---------------------------------------------------------------------------------------------
/// A text stands in every text that is made of it with something before it and behind it; it begins
/// one with nothing before it, and ends one with nothing behind it.
pub proof fn law_parts_occur(a: Seq<char>, p: Seq<char>, b: Seq<char>)
    ensures
        occurs(a + p + b, p),
        begins(p + b, p),
        ends(a + p, p),
{
    let n = a.len() as int;
    assert((a + p + b).subrange(n, n + p.len()) =~= p);
    assert(occurs_at(a + p + b, p, n));
    assert((p + b).subrange(0, p.len() as int) =~= p);
    assert((a + p).subrange(n, n + p.len()) =~= p);
}

/// What stands in a part of a text stands in the text.
pub proof fn lemma_occurs_in(a: Seq<char>, s: Seq<char>, b: Seq<char>, t: Seq<char>)
    requires
        occurs(s, t),
    ensures
        occurs(a + s + b, t),
{
    let k = choose|k: int| occurs_at(s, t, k);
    let all = a + s + b;
    let n = a.len() + k;
    assert(all.subrange(n, n + t.len()) =~= t) by {
        assert forall|i: int| 0 <= i < t.len() implies all.subrange(n, n + t.len())[i] == t[i] by {
            assert(all[n + i] == s[k + i]);
            assert(s.subrange(k, k + t.len())[i] == s[k + i]);
        }
    }
    assert(occurs_at(all, t, n));
}

/// A search finds the first place from the given one on where the text stands, and none only where
/// there is none.
pub proof fn law_first_occurrence_is_found(s: Seq<char>, p: Seq<char>, i: int)
    requires
        0 <= i,
    ensures
        match find_from(s, p, i) {
            Some(k) => i <= k && occurs_at(s, p, k) && forall|j: int|
                i <= j < k ==> !#[trigger] occurs_at(s, p, j),
            None => forall|j: int| i <= j ==> !#[trigger] occurs_at(s, p, j),
        },
    decreases s.len() + 1 - i,
{
    if i + p.len() <= s.len() && !occurs_at(s, p, i) {
        law_first_occurrence_is_found(s, p, i + 1);
    }
}

// ---------------------------------------------------------------------------------------------
// Lines and pieces
// ---------------------------------------------------------------------------------------------
/// A line ends at a line feed, which is not part of it, nor is a carriage return before it; what is
/// behind the last line feed is a line where it is not empty.
pub proof fn law_lines_end_at_line_feeds(a: Seq<char>, b: Seq<char>)
    requires
        forall|i: int| 0 <= i < a.len() ==> #[trigger] a[i] != '\n',
    ensures
        a.len() > 0 ==> lines(a) == seq![a],
        a.len() == 0 ==> lines(a).len() == 0,
        (a.len() > 0 && a.last() == '\r') || lines(a + seq!['\n'] + b) == seq![a] + lines(b),
        lines(a + seq!['\r', '\n'] + b) == seq![a] + lines(b),
{
    lemma_index_from(a, '\n', 0);
    let s = a + seq!['\n'] + b;
    lemma_index_from(s, '\n', 0);
    let k = index_from(s, '\n', 0);
    assert(s[a.len() as int] == '\n');
    if k < a.len() {
        assert(s[k] == a[k]);
    }
    assert(s.take(k) =~= a);
    assert(s.skip(k + 1) =~= b);
    let t = a + seq!['\r', '\n'] + b;
    lemma_index_from(t, '\n', 0);
    let m = index_from(t, '\n', 0);
    assert(t[a.len() as int + 1] == '\n');
    if m < a.len() {
        assert(t[m] == a[m]);
    } else if m == a.len() {
        assert(t[m] == '\r');
    }
    assert(m == a.len() + 1);
    assert(t.take(m) =~= a.push('\r'));
    assert(a.push('\r').drop_last() =~= a);
    assert(t.skip(m + 1) =~= b);
}

/// Pieces are what stands between separators, empty ones among them.
pub proof fn law_pieces_stand_between_separators(a: Seq<char>, sep: char, b: Seq<char>)
    requires
        forall|i: int| 0 <= i < a.len() ==> #[trigger] a[i] != sep,
    ensures
        split(a, sep) == seq![a],
        split(a + seq![sep] + b, sep) == seq![a] + split(b, sep),
{
    lemma_index_from(a, sep, 0);
    let s = a + seq![sep] + b;
    lemma_index_from(s, sep, 0);
    let k = index_from(s, sep, 0);
    assert(s[a.len() as int] == sep);
    if k < a.len() {
        assert(s[k] == a[k]);
    }
    assert(s.take(k) =~= a);
    assert(s.skip(k + 1) =~= b);
}

proof fn lemma_joined_prefix(parts: Seq<Seq<char>>, last: Seq<char>, n: nat)
    requires
        n <= parts.len(),
    ensures
        joined(parts.push(last), n) == joined(parts, n),
    decreases n,
{
    if n > 1 {
        lemma_joined_prefix(parts, last, (n - 1) as nat);
    }
}

/// Texts are joined in their order with one space between each two, and nothing else.
pub proof fn law_joined_texts(parts: Seq<Seq<char>>, last: Seq<char>)
    ensures
        join(Seq::empty()) == Seq::<char>::empty(),
        join(seq![last]) == last,
        parts.len() > 0 ==> join(parts.push(last)) == join(parts) + seq![' '] + last,
{
    lemma_joined_prefix(parts, last, parts.len());
}

/// Each of the joined texts stands in what they are joined to.
pub proof fn lemma_joined_occurs(parts: Seq<Seq<char>>, n: nat, i: int, t: Seq<char>)
    requires
        0 <= i < n <= parts.len(),
        occurs(parts[i], t),
    ensures
        occurs(joined(parts, n), t),
    decreases n,
{
    let e = Seq::<char>::empty();
    if n > 1 {
        let before = joined(parts, (n - 1) as nat);
        if i < n - 1 {
            lemma_joined_occurs(parts, (n - 1) as nat, i, t);
            lemma_occurs_in(e, before, seq![' '] + parts[n - 1], t);
            assert(e + before + (seq![' '] + parts[n - 1]) =~= joined(parts, n));
        } else {
            lemma_occurs_in(before + seq![' '], parts[n - 1], e, t);
            assert(before + seq![' '] + parts[n - 1] + e =~= joined(parts, n));
        }
    }
}

// ---------------------------------------------------------------------------------------------
// Replacing
// ---------------------------------------------------------------------------------------------
/// Replacing takes the occurrences one by one from the left, and leaves everything else; a text in
/// which there is none stays as it is.
pub proof fn law_replacing(s: Seq<char>, from: Seq<char>, to: Seq<char>)
    requires
        from.len() > 0,
    ensures
        replaced(from + s, from, to) == to + replaced(s, from, to),
        !occurs(s, from) ==> replaced(s, from, to) == s,
    decreases s.len(),
{
    let all = from + s;
    assert(all.subrange(0, from.len() as int) =~= from);
    assert(all.skip(from.len() as int) =~= s);
    if s.len() > 0 && !occurs(s, from) {
        assert(!occurs_at(s, from, 0));
        let rest = s.skip(1);
        assert forall|k: int| !#[trigger] occurs_at(rest, from, k) by {
            if occurs_at(rest, from, k) {
                assert(s.subrange(k + 1, k + 1 + from.len()) =~= rest.subrange(k, k + from.len()));
                assert(occurs_at(s, from, k + 1));
            }
        }
        law_replacing(rest, from, to);
        assert(seq![s[0]] + rest =~= s);
    }
}

// ---------------------------------------------------------------------------------------------
// Letters and order
// ---------------------------------------------------------------------------------------------
/// The capital letters of ASCII become the small ones, in their places; nothing else changes.
pub proof fn law_small_letters(s: Seq<char>, i: int)
    requires
        crate::text::all_ascii(s),
        0 <= i < s.len(),
    ensures
        lowercased(s).len() == s.len(),
        'A' <= s[i] <= 'Z' ==> lowercased(s)[i] as int == s[i] as int + 32,
        !('A' <= s[i] <= 'Z') ==> lowercased(s)[i] == s[i],
{
}

/// Texts are ordered by the first character in which they differ; the beginning of a text comes before
/// it.
pub proof fn law_texts_are_ordered_by_their_characters(
    p: Seq<char>,
    c: char,
    d: char,
    x: Seq<char>,
    y: Seq<char>,
)
    requires
        (c as int) < d as int,
    ensures
        text_lt(p + seq![c] + x, p + seq![d] + y),
        !text_lt(p + seq![d] + y, p + seq![c] + x),
        text_lt(p, p + seq![c] + x),
        !text_lt(p, p),
    decreases p.len(),
{
    let a = p + seq![c] + x;
    let b = p + seq![d] + y;
    lemma_text_order_total(a, b);
    lemma_text_order_total(p, p);
    if p.len() > 0 {
        law_texts_are_ordered_by_their_characters(p.skip(1), c, d, x, y);
        assert(a.skip(1) =~= p.skip(1) + seq![c] + x);
        assert(b.skip(1) =~= p.skip(1) + seq![d] + y);
    }
}

// ---------------------------------------------------------------------------------------------
// Numbers
// ---------------------------------------------------------------------------------------------
/// A number is read digit by digit, with one sign at most; a text without digits, with anything else
/// among them, or of a number that is too large is none.
pub proof fn law_numbers_are_read(s: Seq<char>, max: nat)
    ensures
        parsed_uint(s, max) matches Some(n) ==> n <= max,
        parsed_uint(Seq::empty(), max) is None,
        parsed_uint(seq!['+'], max) is None,
        s.len() > 0 && s[0] != '+' ==> parsed_uint(seq!['+'] + s, max) == parsed_uint(s, max),
        forall|i: int|
            0 < i < s.len() && !is_digit(#[trigger] s[i]) ==> parsed_uint(s, max) is None,
        9 <= max ==> parsed_uint(seq!['0'], max) == Some(0nat) && parsed_uint(seq!['7'], max) == Some(
            7nat,
        ) && parsed_uint(seq!['9'], max) == Some(9nat),
{
    assert((seq!['+'] + s).skip(1) =~= s);
    assert(seq!['+'].skip(1) =~= Seq::<char>::empty());
    assert forall|i: int| 0 < i < s.len() && !is_digit(#[trigger] s[i]) implies parsed_uint(s, max)
        is None by {
        if s[0] == '+' {
            assert(s.skip(1)[i - 1] == s[i]);
        }
    }
    lemma_one_digit('0', 0);
    lemma_one_digit('7', 7);
    lemma_one_digit('9', 9);
}

proof fn lemma_one_digit(c: char, n: nat)
    requires
        c as int == 48 + n,
        n < 10,
    ensures
        digits_value(seq![c]) == n,
{
    assert(seq![c].drop_last() =~= Seq::<char>::empty());
    assert(digits_value(Seq::<char>::empty()) == 0);
}

/// A digit behind a number makes it ten times as large, and adds its own value.
pub proof fn law_digits_have_places(s: Seq<char>, c: char)
    requires
        is_digit(c),
    ensures
        digits_value(s.push(c)) == 10 * digits_value(s) + (c as int - '0' as int),
{
    assert(s.push(c).drop_last() =~= s);
}

/// A number in hexadecimal has as many digits as asked for; the last is that of the remainder by
/// sixteen, and the others are those of the quotient.
pub proof fn law_hexadecimal(n: nat, width: nat)
    requires
        width > 0,
    ensures
        hex(n, width).len() == width,
        hex(n, width).drop_last() == hex(n / 16, (width - 1) as nat),
        n % 16 < 10 ==> hex(n, width).last() as int == '0' as int + n % 16,
        n % 16 >= 10 ==> hex(n, width).last() as int == 'a' as int + n % 16 - 10,
    decreases width,
{
    if width > 1 {
        law_hexadecimal(n / 16, (width - 1) as nat);
    }
    assert(hex(n, width).drop_last() =~= hex(n / 16, (width - 1) as nat));
}

} // verus!
