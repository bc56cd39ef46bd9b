//! File paths as text, with `/` between their components.
use vstd::prelude::*;
use vstd::string::*;

use crate::text;
use crate::text::{index_from, last_index_before, lemma_index_from, lemma_last_index_before};

verus! {

// ---------------------------------------------------------------------------------------------
// Components
// ---------------------------------------------------------------------------------------------
/// Whether the part of a path between `from` and `to` counts as a component: not empty, and not
/// `.` except at the very start.
pub open spec fn counts(s: Seq<char>, from: int, to: int) -> bool {
    from < to && (from == 0 || s.subrange(from, to) != seq!['.'])
}

/// Where the components of a path stand, from the part that starts at `i` on.
pub open spec fn component_ranges(s: Seq<char>, i: int) -> Seq<(int, int)>
    decreases s.len() - i,
{
    if i < 0 || i > s.len() {
        Seq::empty()
    } else {
        let to = slash_from(s, i);
        let here = if counts(s, i, to) {
            seq![(i, to)]
        } else {
            Seq::empty()
        };
        if i <= to < s.len() {
            here + component_ranges(s, to + 1)
        } else {
            here
        }
    }
}

/// The first `/` from `i` on, or the end.
pub open spec fn slash_from(s: Seq<char>, i: int) -> int {
    index_from(s, '/', i)
}

/// Where the components of a path stand.
pub open spec fn ranges(s: Seq<char>) -> Seq<(int, int)> {
    component_ranges(s, 0)
}

/// The components of a path; the root is not among them.
pub open spec fn components(s: Seq<char>) -> Seq<Seq<char>> {
    ranges(s).map_values(|r: (int, int)| s.subrange(r.0, r.1))
}

/// Whether a path starts at the root.
pub open spec fn is_rooted(s: Seq<char>) -> bool {
    s.len() > 0 && s[0] == '/'
}

/// The last component, unless it is `.` or `..`.
pub open spec fn name_of(s: Seq<char>) -> Option<Seq<char>> {
    let c = components(s);
    if c.len() == 0 || c.last() == seq!['.'] || c.last() == seq!['.', '.'] {
        None
    } else {
        Some(c.last())
    }
}

/// The last dot of a file name that has something before it.
pub open spec fn extension_dot(name: Seq<char>) -> Option<int> {
    let dot = last_index_before(name, '.', name.len() as int);
    if dot > 0 {
        Some(dot)
    } else {
        None
    }
}

/// The file name without its extension.
pub open spec fn stem_of(s: Seq<char>) -> Option<Seq<char>> {
    match name_of(s) {
        None => None,
        Some(name) => match extension_dot(name) {
            Some(dot) => Some(name.take(dot)),
            None => Some(name),
        },
    }
}

/// What follows the last dot of the file name.
pub open spec fn extension_of(s: Seq<char>) -> Option<Seq<char>> {
    match name_of(s) {
        None => None,
        Some(name) => match extension_dot(name) {
            Some(dot) => Some(name.skip(dot + 1)),
            None => None,
        },
    }
}

/// The path without its last component.
pub open spec fn parent_of(s: Seq<char>) -> Option<Seq<char>> {
    let r = ranges(s);
    if r.len() == 0 {
        None
    } else if r.len() >= 2 {
        Some(s.take(r[r.len() - 2].1))
    } else if is_rooted(s) {
        Some(seq!['/'])
    } else {
        Some(Seq::empty())
    }
}

/// A relative path taken from a directory.
pub open spec fn joined(dir: Seq<char>, rest: Seq<char>) -> Seq<char> {
    if is_rooted(rest) {
        rest
    } else if dir.len() == 0 || dir.last() == '/' {
        dir + rest
    } else {
        dir + seq!['/'] + rest
    }
}

proof fn lemma_ranges_within(s: Seq<char>, i: int)
    ensures
        forall|k: int|
            0 <= k < component_ranges(s, i).len() ==> {
                let r = #[trigger] component_ranges(s, i)[k];
                0 <= i <= r.0 && r.0 < r.1 && r.1 <= s.len()
            },
    decreases s.len() - i,
{
    if 0 <= i <= s.len() {
        lemma_index_from(s, '/', i);
        let to = slash_from(s, i);
        let here = if counts(s, i, to) {
            seq![(i, to)]
        } else {
            Seq::empty()
        };
        if i <= to < s.len() {
            lemma_ranges_within(s, to + 1);
            let rest = component_ranges(s, to + 1);
            assert forall|k: int| 0 <= k < component_ranges(s, i).len() implies {
                let r = #[trigger] component_ranges(s, i)[k];
                0 <= i <= r.0 && r.0 < r.1 && r.1 <= s.len()
            } by {
                if k < here.len() {
                    assert(component_ranges(s, i)[k] == here[k]);
                } else {
                    assert(component_ranges(s, i)[k] == rest[k - here.len()]);
                }
            }
        } else {
            assert(component_ranges(s, i) == here);
        }
    }
}

proof fn lemma_ranges_hold_no_slash(s: Seq<char>, i: int)
    ensures
        forall|k: int, j: int|
            #![trigger component_ranges(s, i)[k], s[j]]
            0 <= k < component_ranges(s, i).len() && component_ranges(s, i)[k].0 <= j
                < component_ranges(s, i)[k].1 ==> s[j] != '/',
    decreases s.len() - i,
{
    if 0 <= i <= s.len() {
        lemma_index_from(s, '/', i);
        let to = slash_from(s, i);
        let here = if counts(s, i, to) {
            seq![(i, to)]
        } else {
            Seq::empty()
        };
        let all = component_ranges(s, i);
        if i <= to < s.len() {
            lemma_ranges_hold_no_slash(s, to + 1);
        }
        assert forall|k: int, j: int|
            #![trigger all[k], s[j]]
            0 <= k < all.len() && all[k].0 <= j < all[k].1 implies s[j] != '/' by {
            if k < here.len() {
                assert(all[k] == here[k]);
            } else {
                assert(all[k] == component_ranges(s, to + 1)[k - here.len()]);
            }
        }
    }
}

/// No component of a path is empty, and none holds a `/`.
pub(crate) proof fn lemma_components_are_plain(s: Seq<char>)
    ensures
        forall|k: int|
            0 <= k < components(s).len() ==> (#[trigger] components(s)[k]).len() > 0
                && !components(s)[k].contains('/'),
{
    lemma_ranges_within(s, 0);
    lemma_ranges_hold_no_slash(s, 0);
    assert forall|k: int| 0 <= k < components(s).len() implies (#[trigger] components(s)[k]).len()
        > 0 && !components(s)[k].contains('/') by {
        let r = component_ranges(s, 0)[k];
        let part = s.subrange(r.0, r.1);
        assert forall|j: int| 0 <= j < part.len() implies part[j] != '/' by {
            assert(part[j] == s[r.0 + j]);
        }
    }
}

proof fn lemma_last_range(s: Seq<char>, name: Seq<char>, i: int)
    requires
        0 <= i <= s.len() - name.len(),
        name.len() > 0,
        !name.contains('/'),
        name != seq!['.'],
        s.skip(s.len() - name.len()) == name,
        i < s.len() - name.len() ==> s[s.len() - name.len() - 1] == '/',
    ensures
        component_ranges(s, i).len() > 0,
        component_ranges(s, i).last() == (s.len() - name.len(), s.len() as int),
    decreases s.len() - i,
{
    let start = s.len() - name.len();
    lemma_index_from(s, '/', i);
    let to = slash_from(s, i);
    if i == start {
        assert forall|j: int| start <= j < s.len() implies s[j] != '/' by {
            assert(s.skip(start)[j - start] == s[j]);
            assert(name.contains(name[j - start]));
        }
        assert(to == s.len());
        assert(s.subrange(i, to) =~= name);
        assert(component_ranges(s, i) =~= seq![(i, to)]);
    } else {
        assert(to < start);
        lemma_last_range(s, name, to + 1);
        let here = if counts(s, i, to) {
            seq![(i, to)]
        } else {
            Seq::empty()
        };
        assert(component_ranges(s, i) == here + component_ranges(s, to + 1));
    }
}

/// A path that is a file name, or ends with it behind a `/`, has it as its last component.
pub(crate) proof fn lemma_last_component(s: Seq<char>, name: Seq<char>)
    requires
        name.len() > 0,
        !name.contains('/'),
        name != seq!['.'],
        s == name || text::ends(s, seq!['/'] + name),
    ensures
        components(s).len() > 0,
        components(s).last() == name,
{
    let start = s.len() - name.len();
    let behind = seq!['/'] + name;
    if s != name {
        let tail = s.subrange(s.len() - behind.len(), s.len() as int);
        assert(tail =~= behind);
        assert(tail[0] == '/');
        assert(s.skip(start) =~= tail.skip(1));
        assert(behind.skip(1) =~= name);
    } else {
        assert(s.skip(0) =~= name);
    }
    lemma_last_range(s, name, 0);
    assert(s.subrange(start, s.len() as int) =~= name);
    assert(components(s).last() == s.subrange(start, s.len() as int));
}

/// A component of a path, by where it stands.
#[derive(Clone, Copy)]
pub struct Range {
    pub from: usize,
    pub to: usize,
}

/// Ranges as mathematical integers.
pub open spec fn range_views(v: Seq<Range>) -> Seq<(int, int)> {
    v.map_values(|r: Range| (r.from as int, r.to as int))
}

fn ranges_of(s: &Vec<char>) -> (r: Vec<Range>)
    ensures
        range_views(r@) == ranges(s@),
        forall|k: int|
            0 <= k < r@.len() ==> (#[trigger] r@[k]).from < r@[k].to && r@[k].to <= s@.len(),
{
    let mut r: Vec<Range> = Vec::new();
    let mut i: usize = 0;
    let mut more = true;
    proof {
        lemma_ranges_within(s@, 0);
    }
    assert(range_views(r@) =~= Seq::empty());
    assert(Seq::<(int, int)>::empty() + ranges(s@) =~= ranges(s@));
    while more
        invariant
            i <= s@.len(),
            more ==> range_views(r@) + component_ranges(s@, i as int) == ranges(s@),
            !more ==> range_views(r@) == ranges(s@),
        decreases s@.len() - i + (if more { 1int } else { 0 }),
    {
        let ghost before = range_views(r@);
        let to = text::index_of(s, '/', i);
        proof {
            lemma_index_from(s@, '/', i as int);
        }
        let dot = to > i && to - i == 1 && s[i] == '.';
        assert(dot == (s@.subrange(i as int, to as int) =~= seq!['.'])) by {
            if to == i + 1 {
                assert(s@.subrange(i as int, to as int) =~= seq![s@[i as int]]);
                assert(seq![s@[i as int]][0] == s@[i as int]);
                assert(seq!['.'][0] == '.');
            } else {
                assert(seq!['.'].len() == 1);
            }
        }
        let ghost here = if counts(s@, i as int, to as int) {
            seq![(i as int, to as int)]
        } else {
            Seq::empty()
        };
        if i < to && (i == 0 || !dot) {
            let item = Range { from: i, to };
            r.push(item);
            assert(range_views(r@) =~= before + here);
        } else {
            assert(range_views(r@) =~= before + here);
        }
        if to < s.len() {
            assert(before + (here + component_ranges(s@, to + 1)) =~= (before + here)
                + component_ranges(s@, to + 1));
            i = to + 1;
        } else {
            more = false;
        }
    }
    proof {
        assert forall|k: int| 0 <= k < r@.len() implies (#[trigger] r@[k]).from < r@[k].to
            && r@[k].to <= s@.len() by {
            assert(range_views(r@)[k] == (r@[k].from as int, r@[k].to as int));
            assert(ranges(s@)[k] == component_ranges(s@, 0)[k]);
        }
    }
    r
}

/// The components of a path.
pub fn components_of(s: &Vec<char>) -> (r: Vec<Vec<char>>)
    ensures
        text::views(r@) == components(s@),
{
    let parts = ranges_of(s);
    let ghost f = |r: (int, int)| s@.subrange(r.0, r.1);
    let mut r: Vec<Vec<char>> = Vec::new();
    let mut i: usize = 0;
    while i < parts.len()
        invariant
            i <= parts@.len(),
            range_views(parts@) == ranges(s@),
            forall|k: int|
                0 <= k < parts@.len() ==> (#[trigger] parts@[k]).from < parts@[k].to && parts@[k].to
                    <= s@.len(),
            f == (|r: (int, int)| s@.subrange(r.0, r.1)),
            text::views(r@) =~= ranges(s@).take(i as int).map_values(f),
        decreases parts@.len() - i,
    {
        let ghost before = r@;
        assert(range_views(parts@)[i as int] == ranges(s@)[i as int]);
        let part = text::slice(s, parts[i].from, parts[i].to);
        proof {
            text::lemma_views_push(r@, part);
            assert(ranges(s@).take(i + 1) =~= ranges(s@).take(i as int).push(
                ranges(s@)[i as int],
            ));
        }
        r.push(part);
        i += 1;
    }
    assert(range_views(parts@).len() == parts@.len());
    assert(ranges(s@).take(i as int) =~= ranges(s@));
    r
}

pub(crate) fn is_dots(s: &Vec<char>) -> (r: bool)
    ensures
        r == (s@ == seq!['.'] || s@ == seq!['.', '.']),
{
    let one = s.len() == 1 && s[0] == '.';
    let two = s.len() == 2 && s[0] == '.' && s[1] == '.';
    assert(one == (s@ =~= seq!['.'])) by {
        assert(seq!['.'].len() == 1 && seq!['.'][0] == '.');
    }
    assert(two == (s@ =~= seq!['.', '.'])) by {
        let d = seq!['.', '.'];
        assert(d.len() == 2 && d[0] == '.' && d[1] == '.');
    }
    one || two
}

/// The last component of a path, unless it is `.` or `..`.
pub fn file_name(s: &Vec<char>) -> (r: Option<Vec<char>>)
    ensures
        match r {
            Some(n) => name_of(s@) == Some(n@),
            None => name_of(s@) is None,
        },
{
    let mut parts = components_of(s);
    let ghost all = parts@;
    assert(text::views(all).len() == all.len());
    match parts.pop() {
        None => None,
        Some(last) => {
            assert(components(s@).last() == last@) by {
                assert(text::views(all)[all.len() - 1] == last@);
            }
            if is_dots(&last) {
                None
            } else {
                Some(last)
            }
        },
    }
}

fn dot_of(name: &Vec<char>) -> (r: Option<usize>)
    ensures
        match r {
            Some(d) => extension_dot(name@) == Some(d as int) && d < name@.len(),
            None => extension_dot(name@) is None,
        },
{
    proof {
        lemma_last_index_before(name@, '.', name@.len() as int);
    }
    match text::last_index_of(name, '.') {
        Some(d) => if d > 0 {
            Some(d)
        } else {
            None
        },
        None => None,
    }
}

/// The file name of a path without its extension.
pub fn file_stem(s: &Vec<char>) -> (r: Option<Vec<char>>)
    ensures
        match r {
            Some(n) => stem_of(s@) == Some(n@),
            None => stem_of(s@) is None,
        },
{
    match file_name(s) {
        None => None,
        Some(name) => match dot_of(&name) {
            Some(dot) => {
                let r = text::slice(&name, 0, dot);
                assert(r@ =~= name@.take(dot as int));
                Some(r)
            },
            None => Some(name),
        },
    }
}

/// What follows the last dot of the file name of a path.
pub fn extension(s: &Vec<char>) -> (r: Option<Vec<char>>)
    ensures
        match r {
            Some(n) => extension_of(s@) == Some(n@),
            None => extension_of(s@) is None,
        },
{
    match file_name(s) {
        None => None,
        Some(name) => match dot_of(&name) {
            Some(dot) => {
                let end: usize = name.len();
                let r = text::slice(&name, dot + 1, end);
                assert(r@ =~= name@.skip(dot + 1));
                Some(r)
            },
            None => None,
        },
    }
}

/// A path without its last component.
pub fn parent(s: &Vec<char>) -> (r: Option<Vec<char>>)
    ensures
        match r {
            Some(p) => parent_of(s@) == Some(p@),
            None => parent_of(s@) is None,
        },
{
    let parts = ranges_of(s);
    assert(range_views(parts@).len() == parts@.len());
    let n = parts.len();
    if n == 0 {
        return None;
    }
    if n >= 2 {
        assert(range_views(parts@)[n - 2] == ranges(s@)[n - 2]);
        let to = parts[n - 2].to;
        let r = text::slice(s, 0, to);
        assert(r@ =~= s@.take(to as int));
        return Some(r);
    }
    let mut r: Vec<char> = Vec::new();
    if s.len() > 0 && s[0] == '/' {
        r.push('/');
        assert(r@ =~= seq!['/']);
    } else {
        assert(r@ =~= Seq::<char>::empty());
    }
    Some(r)
}

/// Takes a path from a directory.
pub fn join(dir: &str, rest: &str) -> (r: String)
    ensures
        r@ == joined(dir@, rest@),
{
    let d = text::chars_of(dir);
    let t = text::chars_of(rest);
    if t.len() > 0 && t[0] == '/' {
        return text::copy(rest);
    }
    let mut r = text::copy(dir);
    if d.len() > 0 && d[d.len() - 1] != '/' {
        r.push('/');
        assert(r@ =~= dir@ + seq!['/']);
    }
    r.append(rest);
    r
}

/// Where the file name of a path ends, and its stem.
pub open spec fn stem_end(s: Seq<char>) -> Option<int> {
    let r = ranges(s);
    match name_of(s) {
        None => None,
        Some(name) => Some(
            match extension_dot(name) {
                Some(dot) => r.last().0 + dot,
                None => r.last().1,
            },
        ),
    }
}

/// A path with another extension; one without a file name stays as it is.
pub open spec fn with_extension_spec(s: Seq<char>, ext: Seq<char>) -> Seq<char> {
    match stem_end(s) {
        None => s,
        Some(end) => if ext.len() == 0 {
            s.take(end)
        } else {
            s.take(end) + seq!['.'] + ext
        },
    }
}

/// Gives a path another extension.
pub fn with_extension(path: &str, ext: &str) -> (r: String)
    ensures
        r@ == with_extension_spec(path@, ext@),
{
    let s = text::chars_of(path);
    match file_name(&s) {
        None => text::copy(path),
        Some(name) => {
            let parts = ranges_of(&s);
            assert(range_views(parts@).len() == parts@.len());
            let n = parts.len();
            assert(n > 0) by {
                assert(components(s@).len() == ranges(s@).len());
            }
            assert(range_views(parts@)[n - 1] == ranges(s@)[n - 1]);
            let last = parts[n - 1];
            assert(components(s@).last() == s@.subrange(last.from as int, last.to as int));
            let end: usize = match dot_of(&name) {
                Some(dot) => last.from + dot,
                None => last.to,
            };
            let kept = text::slice(&s, 0, end);
            assert(kept@ =~= s@.take(end as int));
            let mut r = text::string_of(&kept);
            let e = text::chars_of(ext);
            if e.len() > 0 {
                r.push('.');
                assert(r@ =~= s@.take(end as int) + seq!['.']);
                r.append(ext);
            }
            r
        },
    }
}

} // verus!
