//! How tags, comments and literal text change the nesting of a text with markup.
use vstd::prelude::*;

use crate::markup::{behind, deepest, greater, tag_end};
use crate::text::occurs_at;
use crate::text_laws::law_first_occurrence_is_found;

verus! {

/// Whether a text can stand between the angle brackets of a tag that opens an element: it starts as a name
/// does, holds neither a bracket nor quotes, and does not end in a slash.
pub open spec fn is_tag(name: Seq<char>) -> bool {
    &&& name.len() > 0
    &&& name[0] != '!' && name[0] != '?' && name[0] != '/'
    &&& name.last() != '/'
    &&& forall|i: int| 0 <= i < name.len() ==> #[trigger] name[i] != '>' && name[i] != '"' && name[i] != '\''
}

proof fn lemma_tag_end(s: Seq<char>, i: int, end: int)
    requires
        0 <= i <= end < s.len(),
        s[end] == '>',
        forall|k: int| i <= k < end ==> #[trigger] s[k] != '>' && s[k] != '"' && s[k] != '\'',
    ensures
        tag_end(s, i) == end,
    decreases end - i,
{
    if i < end {
        assert(s[i] != '>');
        lemma_tag_end(s, i + 1, end);
    }
}

/// A tag opens an element: what follows it is one level deeper. A tag that ends in a slash counts one
/// level and leaves it at once.
pub proof fn law_tags_open_elements(name: Seq<char>, rest: Seq<char>, depth: nat)
    requires
        is_tag(name),
    ensures
        ({
            let s = seq!['<'] + name + seq!['>'] + rest;
            deepest(s, 0, depth) == deepest(s, name.len() as int + 2, depth + 1)
        }),
        ({
            let s = seq!['<'] + name + seq!['/', '>'] + rest;
            deepest(s, 0, depth) == greater(depth + 1, deepest(s, name.len() as int + 3, depth))
        }),
{
    let n = name.len() as int;
    let s = seq!['<'] + name + seq!['>'] + rest;
    assert(s[1] == name[0] && s[n] == name.last() && s[n + 1] == '>');
    assert forall|k: int| 1 <= k < n + 1 implies #[trigger] s[k] != '>' && s[k] != '"' && s[k] != '\'' by {
        assert(s[k] == name[k - 1]);
    }
    lemma_tag_end(s, 1, n + 1);
    lemma_no_markup_of_its_own(s);
    let t = seq!['<'] + name + seq!['/', '>'] + rest;
    assert(t[1] == name[0] && t[n + 1] == '/' && t[n + 2] == '>');
    assert forall|k: int| 1 <= k < n + 2 implies #[trigger] t[k] != '>' && t[k] != '"' && t[k] != '\'' by {
        if k <= n {
            assert(t[k] == name[k - 1]);
        }
    }
    lemma_tag_end(t, 1, n + 2);
    lemma_no_markup_of_its_own(t);
}

proof fn lemma_no_markup_of_its_own(s: Seq<char>)
    requires
        s.len() > 1,
        s[1] != '!',
    ensures
        !occurs_at(s, seq!['<', '!', '-', '-'], 0),
        !occurs_at(s, seq!['<', '!', '[', 'C', 'D', 'A', 'T', 'A', '['], 0),
{
    let a = seq!['<', '!', '-', '-'];
    let b = seq!['<', '!', '[', 'C', 'D', 'A', 'T', 'A', '['];
    if occurs_at(s, a, 0) {
        assert(s.subrange(0, 4)[1] == a[1]);
    }
    if occurs_at(s, b, 0) {
        assert(s.subrange(0, 9)[1] == b[1]);
    }
}

/// A `>` between quotes does not end a tag.
pub proof fn law_quoted_brackets_end_no_tag(a: Seq<char>, q: char, b: Seq<char>, c: Seq<char>)
    requires
        q == '"' || q == '\'',
        forall|i: int| 0 <= i < a.len() ==> #[trigger] a[i] != '>' && a[i] != '"' && a[i] != '\'',
        forall|i: int| 0 <= i < b.len() ==> #[trigger] b[i] != q,
    ensures
        tag_end(a + seq![q] + b + seq![q] + c, 0) == tag_end(
            a + seq![q] + b + seq![q] + c,
            a.len() as int + b.len() + 2,
        ),
{
    let s = a + seq![q] + b + seq![q] + c;
    lemma_up_to_quote(s, 0, a.len() as int);
    let from = a.len() as int;
    assert(s[from] == q);
    crate::text::lemma_index_from(s, q, from + 1);
    let close = from + 1 + b.len();
    assert(s[close] == q);
    assert forall|k: int| from + 1 <= k < close implies s[k] != q by {
        assert(s[k] == b[k - from - 1]);
    }
    assert(crate::text::index_from(s, q, from + 1) == close);
}

proof fn lemma_up_to_quote(s: Seq<char>, i: int, at: int)
    requires
        0 <= i <= at < s.len(),
        forall|k: int| i <= k < at ==> #[trigger] s[k] != '>' && s[k] != '"' && s[k] != '\'',
    ensures
        tag_end(s, i) == tag_end(s, at),
    decreases at - i,
{
    if i < at {
        assert(s[i] != '>');
        lemma_up_to_quote(s, i + 1, at);
    }
}

/// A closing tag leaves one level: what follows it is one level less deep, and never less than none.
pub proof fn law_closing_tags_close_elements(name: Seq<char>, rest: Seq<char>, depth: nat)
    requires
        !name.contains('>'),
    ensures
        ({
            let s = seq!['<', '/'] + name + seq!['>'] + rest;
            let after = name.len() as int + 3;
            &&& depth > 0 ==> deepest(s, 0, depth) == greater(
                depth,
                deepest(s, after, (depth - 1) as nat),
            )
            &&& deepest(s, 0, 0) == deepest(s, after, 0)
        }),
{
    let s = seq!['<', '/'] + name + seq!['>'] + rest;
    let p = seq!['>'];
    let at = name.len() as int + 2;
    lemma_no_markup_of_its_own(s);
    lemma_found(s, p, 2, at);
    crate::markup::law_open_elements_count(s, at + 1, 0);
}

proof fn lemma_found(s: Seq<char>, p: Seq<char>, i: int, at: int)
    requires
        0 <= i <= at,
        p.len() > 0,
        at + p.len() <= s.len(),
        s.subrange(at, at + p.len()) =~= p,
        forall|k: int| i <= k < at ==> !(#[trigger] occurs_at(s, p, k)) || s[k] != p[0],
    ensures
        forall|k: int| i <= k < at ==> !#[trigger] occurs_at(s, p, k),
        behind(s, p, i) == at + p.len(),
{
    assert forall|k: int| i <= k < at implies !#[trigger] occurs_at(s, p, k) by {
        if occurs_at(s, p, k) {
            assert(s.subrange(k, k + p.len())[0] == p[0]);
        }
    }
    assert(occurs_at(s, p, at));
    law_first_occurrence_is_found(s, p, i);
}

/// Whether a text ends with the given end and does not hold it before.
pub open spec fn ends_first(body: Seq<char>, end: Seq<char>) -> bool {
    forall|k: int| 0 <= k < body.len() ==> !#[trigger] occurs_at(body + end, end, k)
}

proof fn lemma_skipped(head: Seq<char>, body: Seq<char>, end: Seq<char>, rest: Seq<char>)
    requires
        end.len() > 0,
        ends_first(body, end),
    ensures
        behind(head + body + end + rest, end, head.len() as int) == head.len() + body.len() + end.len(),
{
    let s = head + body + end + rest;
    let from = head.len() as int;
    let at = from + body.len();
    assert(s.subrange(at, at + end.len()) =~= end);
    assert forall|k: int| from <= k < at implies !#[trigger] occurs_at(s, end, k) by {
        if occurs_at(s, end, k) {
            let inner = body + end;
            assert(inner.subrange(k - from, k - from + end.len()) =~= s.subrange(k, k + end.len()));
            assert(occurs_at(inner, end, k - from));
        }
    }
    lemma_found(s, end, from, at);
}

/// Comments, literal text and instructions change nothing, whatever they hold.
pub proof fn law_comments_change_nothing(body: Seq<char>, rest: Seq<char>, depth: nat)
    ensures
        ends_first(body, seq!['-', '-', '>']) ==> ({
            let s = seq!['<', '!', '-', '-'] + body + seq!['-', '-', '>'] + rest;
            deepest(s, 0, depth) == deepest(s, body.len() as int + 7, depth)
        }),
        ends_first(body, seq![']', ']', '>']) ==> ({
            let s = seq!['<', '!', '[', 'C', 'D', 'A', 'T', 'A', '['] + body + seq![']', ']', '>'] + rest;
            deepest(s, 0, depth) == deepest(s, body.len() as int + 12, depth)
        }),
        ends_first(body, seq!['?', '>']) ==> ({
            let s = seq!['<', '?'] + body + seq!['?', '>'] + rest;
            deepest(s, 0, depth) == deepest(s, body.len() as int + 4, depth)
        }),
{
    let comment = seq!['<', '!', '-', '-'];
    let literal = seq!['<', '!', '[', 'C', 'D', 'A', 'T', 'A', '['];
    let command = seq!['<', '?'];
    if ends_first(body, seq!['-', '-', '>']) {
        let s = comment + body + seq!['-', '-', '>'] + rest;
        lemma_skipped(comment, body, seq!['-', '-', '>'], rest);
        assert(s.subrange(0, 4) =~= comment);
        assert(occurs_at(s, comment, 0));
    }
    if ends_first(body, seq![']', ']', '>']) {
        let s = literal + body + seq![']', ']', '>'] + rest;
        lemma_skipped(literal, body, seq![']', ']', '>'], rest);
        assert(s.subrange(0, 9) =~= literal);
        assert(occurs_at(s, literal, 0));
        if occurs_at(s, comment, 0) {
            assert(s.subrange(0, 4)[2] == comment[2]);
            assert(s[2] == '[');
        }
    }
    if ends_first(body, seq!['?', '>']) {
        let s = command + body + seq!['?', '>'] + rest;
        lemma_skipped(command, body, seq!['?', '>'], rest);
        assert(s[1] == '?');
        lemma_no_markup_of_its_own(s);
    }
}

} // verus!
