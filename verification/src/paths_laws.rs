//! What holds of paths: how they are put together from directories and names, and taken apart again.
use vstd::prelude::*;
use vstd::string::*;

use crate::paths::{
    component_ranges, components, extension_of, is_rooted, joined, name_of, parent_of, ranges,
    slash_from, stem_of, with_extension_spec,
};
use crate::text;
use crate::text::{last_index_before, lemma_index_from, lemma_last_index_before};

verus! {

/// Whether a text can be the name of a file or of a directory.
pub open spec fn is_name(name: Seq<char>) -> bool {
    &&& name.len() > 0
    &&& forall|i: int| 0 <= i < name.len() ==> #[trigger] name[i] != '/'
    &&& name != seq!['.']
    &&& name != seq!['.', '.']
}

/// A name below a directory.
pub open spec fn below(dir: Seq<char>, name: Seq<char>) -> Seq<char> {
    dir + seq!['/'] + name
}

/// A name with an extension.
pub open spec fn dotted(stem: Seq<char>, ext: Seq<char>) -> Seq<char> {
    stem + seq!['.'] + ext
}

/// Whether a text can be the extension of a name.
pub open spec fn is_extension(ext: Seq<char>) -> bool {
    &&& ext.len() > 0
    &&& forall|i: int| 0 <= i < ext.len() ==> #[trigger] ext[i] != '/' && ext[i] != '.'
}

/// Whether a text can stand before the dot of an extension.
pub open spec fn is_stem(stem: Seq<char>) -> bool {
    &&& stem.len() > 0
    &&& forall|i: int| 0 <= i < stem.len() ==> #[trigger] stem[i] != '/'
}

proof fn lemma_name_alone(s: Seq<char>, from: int)
    requires
        0 <= from < s.len(),
        forall|i: int| from <= i < s.len() ==> #[trigger] s[i] != '/',
        s.skip(from) != seq!['.'],
    ensures
        component_ranges(s, from) == seq![(from, s.len() as int)],
{
    lemma_index_from(s, '/', from);
    let to = slash_from(s, from);
    if to < s.len() {
        assert(s[to] != '/');
    }
    assert(s.subrange(from, to) =~= s.skip(from));
    assert(component_ranges(s, from) =~= seq![(from, s.len() as int)]);
}

proof fn lemma_ranges_below(dir: Seq<char>, name: Seq<char>, i: int)
    requires
        is_name(name),
        0 <= i <= dir.len(),
    ensures
        component_ranges(below(dir, name), i) == component_ranges(dir, i).push(
            (dir.len() as int + 1, below(dir, name).len() as int),
        ),
    decreases dir.len() - i,
{
    let s = below(dir, name);
    let last = (dir.len() as int + 1, s.len() as int);
    lemma_index_from(dir, '/', i);
    lemma_index_from(s, '/', i);
    let to = slash_from(dir, i);
    let at = slash_from(s, i);
    assert(s[dir.len() as int] == '/');
    assert(to == at) by {
        if to < dir.len() {
            assert(s[to] == dir[to]);
            assert(at <= to);
            if at < to {
                assert(s[at] == dir[at]);
            }
        } else {
            assert(at <= dir.len());
            if at < dir.len() {
                assert(s[at] == dir[at]);
            }
        }
    }
    assert(s.subrange(i, to) =~= dir.subrange(i, to));
    if to < dir.len() {
        lemma_ranges_below(dir, name, to + 1);
        assert(component_ranges(s, i) =~= component_ranges(dir, i).push(last));
    } else {
        assert forall|k: int| dir.len() + 1 <= k < s.len() implies #[trigger] s[k] != '/' by {
            assert(s[k] == name[k - dir.len() - 1]);
        }
        assert(s.skip(dir.len() as int + 1) =~= name);
        lemma_name_alone(s, dir.len() as int + 1);
        assert(component_ranges(s, i) =~= component_ranges(dir, i).push(last));
    }
}

proof fn lemma_dir_ranges(dir: Seq<char>, name: Seq<char>, i: int)
    requires
        0 <= i <= dir.len(),
    ensures
        forall|k: int|
            0 <= k < component_ranges(dir, i).len() ==> {
                let r = #[trigger] component_ranges(dir, i)[k];
                i <= r.0 < r.1 <= dir.len()
            },
    decreases dir.len() - i,
{
    lemma_index_from(dir, '/', i);
    let to = slash_from(dir, i);
    if to < dir.len() {
        lemma_dir_ranges(dir, name, to + 1);
        let all = component_ranges(dir, i);
        let rest = component_ranges(dir, to + 1);
        let n = all.len() - rest.len();
        assert forall|k: int| 0 <= k < all.len() implies {
            let r = #[trigger] all[k];
            i <= r.0 < r.1 <= dir.len()
        } by {
            if k >= n {
                assert(all[k] == rest[k - n]);
            }
        }
    }
}

/// A name below a directory is one more component, whatever the directory.
pub proof fn law_components_below(dir: Seq<char>, name: Seq<char>)
    requires
        is_name(name),
    ensures
        components(below(dir, name)) == components(dir).push(name),
        components(name) == seq![name],
        is_rooted(below(dir, name)) <==> dir.len() == 0 || is_rooted(dir),
{
    let s = below(dir, name);
    lemma_ranges_below(dir, name, 0);
    lemma_dir_ranges(dir, name, 0);
    let a = components(s);
    let b = components(dir).push(name);
    assert(a.len() == b.len());
    assert forall|k: int| 0 <= k < a.len() implies a[k] =~= b[k] by {
        if k < ranges(dir).len() {
            let r = component_ranges(dir, 0)[k];
            assert(component_ranges(s, 0)[k] == r);
            assert(s.subrange(r.0, r.1) =~= dir.subrange(r.0, r.1));
        } else {
            assert(s.subrange(dir.len() as int + 1, s.len() as int) =~= name);
        }
    }
    assert(a =~= b);
    assert(name.skip(0) =~= name);
    lemma_name_alone(name, 0);
    assert(name.subrange(0, name.len() as int) =~= name);
    assert(components(name) =~= seq![name]);
}

/// The file name of a path is what stands behind its last slash.
pub proof fn law_file_name(dir: Seq<char>, name: Seq<char>)
    requires
        is_name(name),
    ensures
        name_of(below(dir, name)) == Some(name),
        name_of(name) == Some(name),
{
    law_components_below(dir, name);
    assert(components(dir).push(name).last() == name);
}

proof fn lemma_dotted(stem: Seq<char>, ext: Seq<char>)
    requires
        is_stem(stem),
        is_extension(ext),
    ensures
        is_name(dotted(stem, ext)),
        last_index_before(dotted(stem, ext), '.', dotted(stem, ext).len() as int) == stem.len(),
        dotted(stem, ext).take(stem.len() as int) == stem,
        dotted(stem, ext).skip(stem.len() as int + 1) == ext,
{
    let name = dotted(stem, ext);
    assert forall|i: int| 0 <= i < name.len() implies #[trigger] name[i] != '/' by {
        if i < stem.len() {
            assert(name[i] == stem[i]);
        } else if i > stem.len() {
            assert(name[i] == ext[i - stem.len() - 1]);
        }
    }
    assert(name.len() >= 3);
    lemma_last_index_before(name, '.', name.len() as int);
    let k = last_index_before(name, '.', name.len() as int);
    assert(name[stem.len() as int] == '.');
    if k > stem.len() {
        assert(name[k] == ext[k - stem.len() - 1]);
    }
    assert(k == stem.len());
    assert(name.take(stem.len() as int) =~= stem);
    assert(name.skip(stem.len() as int + 1) =~= ext);
}

/// The extension of a path is what stands behind the last dot of its name, and the stem what stands before
/// it; a name without a dot, or with one only at its start, has no extension.
pub proof fn law_stem_and_extension(dir: Seq<char>, stem: Seq<char>, ext: Seq<char>, name: Seq<char>)
    requires
        is_stem(stem),
        is_extension(ext),
        is_name(name),
        forall|i: int| 0 < i < name.len() ==> #[trigger] name[i] != '.',
    ensures
        extension_of(below(dir, dotted(stem, ext))) == Some(ext),
        stem_of(below(dir, dotted(stem, ext))) == Some(stem),
        extension_of(dotted(stem, ext)) == Some(ext),
        stem_of(dotted(stem, ext)) == Some(stem),
        extension_of(below(dir, name)) is None,
        stem_of(below(dir, name)) == Some(name),
        stem_of(name) == Some(name),
{
    lemma_dotted(stem, ext);
    law_file_name(dir, dotted(stem, ext));
    law_file_name(dir, name);
    lemma_last_index_before(name, '.', name.len() as int);
}

/// The parent of a path is the directory that its name stands below.
pub proof fn law_parent(dir: Seq<char>, own: Seq<char>, name: Seq<char>)
    requires
        is_name(own),
        is_name(name),
    ensures
        parent_of(below(below(dir, own), name)) == Some(below(dir, own)),
        parent_of(below(own, name)) == Some(own),
        parent_of(below(Seq::empty(), name)) == Some(seq!['/']),
        parent_of(name) == Some(Seq::<char>::empty()),
        parent_of(Seq::empty()) is None,
{
    let d = below(dir, own);
    lemma_ranges_below(dir, own, 0);
    lemma_ranges_below(d, name, 0);
    let s = below(d, name);
    let r = ranges(s);
    assert(r[r.len() - 2].1 == d.len());
    assert(s.take(d.len() as int) =~= d);
    assert(own.skip(0) =~= own);
    lemma_name_alone(own, 0);
    lemma_ranges_below(own, name, 0);
    assert(below(own, name).take(own.len() as int) =~= own);
    let e = Seq::<char>::empty();
    lemma_ranges_below(e, name, 0);
    lemma_index_from(e, '/', 0);
    assert(component_ranges(e, 0) =~= Seq::empty());
    assert(ranges(below(e, name)).len() == 1);
    assert(below(e, name)[0] == '/');
    assert(name.skip(0) =~= name);
    lemma_name_alone(name, 0);
    assert(!is_rooted(name));
}

/// A relative path taken from a directory stands below it, with one slash between them; an absolute path
/// stays as it is.
pub proof fn law_joined_paths(dir: Seq<char>, rest: Seq<char>)
    requires
        rest.len() > 0,
    ensures
        rest[0] == '/' ==> joined(dir, rest) == rest,
        rest[0] != '/' && dir.len() > 0 && dir.last() != '/' ==> joined(dir, rest) == below(dir, rest),
        rest[0] != '/' ==> joined(dir + seq!['/'], rest) == below(dir, rest),
        rest[0] != '/' ==> joined(Seq::empty(), rest) == rest,
{
    assert((dir + seq!['/']).last() == '/');
    assert(dir + seq!['/'] + rest =~= below(dir, rest));
    assert(Seq::<char>::empty() + rest =~= rest);
}

/// Another extension takes the place of the one that a path has, and nothing else changes.
pub proof fn law_other_extension(dir: Seq<char>, stem: Seq<char>, ext: Seq<char>, other: Seq<char>)
    requires
        is_stem(stem),
        is_extension(ext),
        other.len() > 0,
    ensures
        with_extension_spec(below(dir, dotted(stem, ext)), other) == below(dir, dotted(stem, other)),
{
    let name = dotted(stem, ext);
    lemma_dotted(stem, ext);
    law_file_name(dir, name);
    lemma_ranges_below(dir, name, 0);
    let s = below(dir, name);
    let end = dir.len() + 1 + stem.len() as int;
    assert(s.take(end) =~= below(dir, stem));
    assert(s.take(end) + seq!['.'] + other =~= below(dir, dotted(stem, other)));
}

/// What goes with a document stands beside it under the same name.
pub proof fn law_sidecars_stand_beside_their_document(
    dir: Seq<char>,
    own: Seq<char>,
    stem: Seq<char>,
    ext: Seq<char>,
)
    requires
        is_name(own),
        is_stem(stem),
        is_extension(ext),
    ensures
        crate::pdf::synctex::sidecars(below(below(dir, own), dotted(stem, ext))) == Some(
            (
                below(below(dir, own), stem + ".synctex.gz"@),
                below(below(dir, own), stem + ".synctex"@),
            ),
        ),
{
    let d = below(dir, own);
    lemma_dotted(stem, ext);
    law_file_name(d, dotted(stem, ext));
    law_parent(dir, own, dotted(stem, ext));
    law_components_below(dir, own);
    assert(d.last() == own.last());
    assert(own[own.len() - 1] != '/');
    assert((stem + ".synctex.gz"@)[0] == stem[0]);
    assert((stem + ".synctex"@)[0] == stem[0]);
    law_joined_paths(d, stem + ".synctex.gz"@);
    law_joined_paths(d, stem + ".synctex"@);
}

} // verus!
