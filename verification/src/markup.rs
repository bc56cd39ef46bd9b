//! How deep the elements of an XML text are nested, without reading it as a document.
use vstd::prelude::*;

use crate::text;
use crate::text::{find_from, index_from, lemma_index_from, occurs_at};

verus! {

/// What a piece of an XML text does to the nesting.
#[derive(Clone, Copy, Debug, PartialEq, Eq, Structural)]
pub enum Change {
    /// Nothing: text, a comment, a processing instruction or literal text.
    Stay,
    /// An element begins.
    Open,
    /// An element begins and ends.
    Leaf,
    /// An element ends.
    Close,
}

/// The place behind the first `p` from `i` on; the end where there is none.
pub open spec fn behind(s: Seq<char>, p: Seq<char>, i: int) -> int {
    match find_from(s, p, i) {
        Some(k) => k + p.len(),
        None => s.len() as int,
    }
}

/// The `>` that ends a tag, from `i` on; one within quotes does not count.
pub open spec fn tag_end(s: Seq<char>, i: int) -> int
    decreases s.len() - i,
{
    if i < 0 || i >= s.len() {
        s.len() as int
    } else if s[i] == '>' {
        i
    } else if s[i] == '"' || s[i] == '\'' {
        let closing = index_from(s, s[i], i + 1);
        if i < closing < s.len() {
            tag_end(s, closing + 1)
        } else {
            s.len() as int
        }
    } else {
        tag_end(s, i + 1)
    }
}

/// The piece of an XML text that starts at `i`: where it ends, and what it does to the nesting.
pub open spec fn piece(s: Seq<char>, i: int) -> (int, Change) {
    if s[i] != '<' {
        (i + 1, Change::Stay)
    } else if occurs_at(s, seq!['<', '!', '-', '-'], i) {
        (behind(s, seq!['-', '-', '>'], i + 4), Change::Stay)
    } else if occurs_at(s, seq!['<', '!', '[', 'C', 'D', 'A', 'T', 'A', '['], i) {
        (behind(s, seq![']', ']', '>'], i + 9), Change::Stay)
    } else if i + 1 < s.len() && s[i + 1] == '?' {
        (behind(s, seq!['?', '>'], i + 2), Change::Stay)
    } else if i + 1 < s.len() && s[i + 1] == '!' {
        (i + 2, Change::Stay)
    } else if i + 1 < s.len() && s[i + 1] == '/' {
        (behind(s, seq!['>'], i + 2), Change::Close)
    } else {
        let end = tag_end(s, i + 1);
        if end >= s.len() {
            (s.len() as int, Change::Open)
        } else if s[end - 1] == '/' {
            (end + 1, Change::Leaf)
        } else {
            (end + 1, Change::Open)
        }
    }
}

/// The larger of two numbers.
pub open spec fn greater(a: nat, b: nat) -> nat {
    if a < b {
        b
    } else {
        a
    }
}

/// How deep the elements of an XML text are nested from `i` on, where `depth` elements are open.
pub open spec fn deepest(s: Seq<char>, i: int, depth: nat) -> nat
    decreases s.len() - i,
{
    if i < 0 || i >= s.len() {
        depth
    } else {
        let (next, change) = piece(s, i);
        if next <= i || next > s.len() {
            depth
        } else {
            match change {
                Change::Stay => deepest(s, next, depth),
                Change::Open => deepest(s, next, depth + 1),
                Change::Leaf => greater(depth + 1, deepest(s, next, depth)),
                Change::Close => greater(
                    depth,
                    deepest(
                        s,
                        next,
                        if depth > 0 {
                            (depth - 1) as nat
                        } else {
                            0
                        },
                    ),
                ),
            }
        }
    }
}

/// How deep the elements of an XML text are nested. Of a text that is no XML document this is at
/// least as deep as its elements are up to the place where it is none.
pub open spec fn nesting(s: Seq<char>) -> nat {
    deepest(s, 0, 0)
}

fn behind_of(s: &Vec<char>, p: &Vec<char>, i: usize) -> (r: usize)
    requires
        i <= s@.len(),
    ensures
        r == behind(s@, p@, i as int),
        i <= r <= s@.len(),
{
    let n: usize = s.len();
    match text::find(s, p, i) {
        Some(k) => k + p.len(),
        None => n,
    }
}

fn tag_end_of(s: &Vec<char>, i: usize) -> (r: usize)
    requires
        i <= s@.len(),
    ensures
        r == tag_end(s@, i as int),
        i <= r <= s@.len(),
{
    let mut k: usize = i;
    while k < s.len()
        invariant
            i <= k <= s@.len(),
            tag_end(s@, i as int) == tag_end(s@, k as int),
        decreases s@.len() - k,
    {
        let c = s[k];
        if c == '>' {
            return k;
        }
        if c == '"' || c == '\'' {
            proof {
                lemma_index_from(s@, c, k + 1);
            }
            let closing = text::index_of(s, c, k + 1);
            if closing >= s.len() {
                return s.len();
            }
            k = closing + 1;
        } else {
            k += 1;
        }
    }
    k
}

fn piece_at(s: &Vec<char>, i: usize) -> (r: (usize, Change))
    requires
        i < s@.len(),
    ensures
        (r.0 as int, r.1) == piece(s@, i as int),
        i < r.0 <= s@.len(),
{
    let n: usize = s.len();
    if s[i] != '<' {
        return (i + 1, Change::Stay);
    }
    let comment: Vec<char> = vec!['<', '!', '-', '-'];
    assert(comment@ =~= seq!['<', '!', '-', '-']);
    if text::stands_at(s, &comment, i) {
        let end: Vec<char> = vec!['-', '-', '>'];
        assert(end@ =~= seq!['-', '-', '>']);
        return (behind_of(s, &end, i + 4), Change::Stay);
    }
    let literal: Vec<char> = vec!['<', '!', '[', 'C', 'D', 'A', 'T', 'A', '['];
    assert(literal@ =~= seq!['<', '!', '[', 'C', 'D', 'A', 'T', 'A', '[']);
    if text::stands_at(s, &literal, i) {
        let end: Vec<char> = vec![']', ']', '>'];
        assert(end@ =~= seq![']', ']', '>']);
        return (behind_of(s, &end, i + 9), Change::Stay);
    }
    if i + 1 < n {
        let second = s[i + 1];
        if second == '?' {
            let end: Vec<char> = vec!['?', '>'];
            assert(end@ =~= seq!['?', '>']);
            return (behind_of(s, &end, i + 2), Change::Stay);
        }
        if second == '!' {
            return (i + 2, Change::Stay);
        }
        if second == '/' {
            let end: Vec<char> = vec!['>'];
            assert(end@ =~= seq!['>']);
            return (behind_of(s, &end, i + 2), Change::Close);
        }
    }
    let end = tag_end_of(s, i + 1);
    if end >= n {
        (n, Change::Open)
    } else if s[end - 1] == '/' {
        (end + 1, Change::Leaf)
    } else {
        (end + 1, Change::Open)
    }
}

/// How deep the elements of an XML text are nested.
pub fn nesting_of(content: &str) -> (r: usize)
    ensures
        r == nesting(content@),
{
    let s = text::chars_of(content);
    let mut i: usize = 0;
    let mut depth: usize = 0;
    let mut most: usize = 0;
    while i < s.len()
        invariant
            i <= s@.len(),
            depth <= i,
            most <= i,
            nesting(s@) == greater(most as nat, deepest(s@, i as int, depth as nat)),
        decreases s@.len() - i,
    {
        let (next, change) = piece_at(&s, i);
        match change {
            Change::Stay => {},
            Change::Open => {
                depth += 1;
            },
            Change::Leaf => {
                if most < depth + 1 {
                    most = depth + 1;
                }
            },
            Change::Close => {
                if most < depth {
                    most = depth;
                }
                if depth > 0 {
                    depth -= 1;
                }
            },
        }
        i = next;
    }
    if most < depth {
        depth
    } else {
        most
    }
}

// ---------------------------------------------------------------------------------------------
// Laws
// ---------------------------------------------------------------------------------------------
/// What is open is counted: the nesting is never less than the elements open on the way.
pub proof fn law_open_elements_count(s: Seq<char>, i: int, depth: nat)
    ensures
        deepest(s, i, depth) >= depth,
    decreases s.len() - i,
{
    if 0 <= i < s.len() {
        let (next, change) = piece(s, i);
        if i < next <= s.len() {
            if change == Change::Stay {
                law_open_elements_count(s, next, depth);
            } else if change == Change::Open {
                law_open_elements_count(s, next, depth + 1);
            }
        }
    }
}

/// A text without markup has no elements.
pub proof fn law_plain_text_is_flat(s: Seq<char>, i: int, depth: nat)
    requires
        !s.contains('<'),
    ensures
        deepest(s, i, depth) == depth,
    decreases s.len() - i,
{
    if 0 <= i < s.len() {
        assert(s.contains(s[i]));
        law_plain_text_is_flat(s, i + 1, depth);
    }
}

} // verus!
