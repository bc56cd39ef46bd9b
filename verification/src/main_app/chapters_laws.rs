//! How far a place in a book is, which chapters count, and where paths and links lead.
use vstd::prelude::*;
use vstd::string::*;
use vstd::utf8::{decode_utf8, valid_utf8};

use crate::main_app::chapters::{
    backmatter, chapter_by_href, chapter_of_file, counted_nodes, encoded_run, hex_value, lemma_run_fits,
    link_destination, names_file, nodes_done, normalized_href, normalized_title, percent_decoded,
    place_href, printed_number, spine_index, sum_of, title_from_path, toc_chapter, without_fragment,
    without_leading, word_end, words, ChapterText, TocItem,
};
use crate::main_app::state::TocDestination;
use crate::paths_laws::{below, dotted, is_extension, is_stem, law_stem_and_extension};
use crate::text;
use crate::text::{begins, decimal, ends, is_space, latin1, occurs_at, trimmed_start};

verus! {

// ---------------------------------------------------------------------------------------------
// Progress
// ---------------------------------------------------------------------------------------------
/// At the beginning of a book nothing of it is done; each node adds one; a chapter that is read to its end
/// leads to the beginning of the next; and behind the last chapter all nodes are done.
pub proof fn law_nodes_are_counted(counts: Seq<usize>, chapter: usize, node: usize)
    requires
        chapter < counts.len(),
    ensures
        nodes_done(counts, 0, 0) == 0,
        node < counts[chapter as int] ==> nodes_done(counts, chapter, (node + 1) as usize)
            == nodes_done(counts, chapter, node) + 1,
        node >= counts[chapter as int] && chapter < usize::MAX ==> nodes_done(counts, chapter, node)
            == nodes_done(counts, (chapter + 1) as usize, 0),
        counts.len() <= usize::MAX ==> nodes_done(counts, counts.len() as usize, node) == sum_of(
            counts,
            counts.len(),
        ),
        sum_of(counts, 0) == 0,
        sum_of(counts, chapter as nat + 1) == sum_of(counts, chapter as nat) + counts[chapter as int],
{
}

/// A chapter counts with all its blocks, unless it could not be read or its markup or title says that it
/// only refers to others.
pub proof fn law_chapters_count(chapter: ChapterText)
    ensures
        counted_nodes(None) == 0,
        ({
            let marked = exists|i: int|
                occurs_at(chapter.html@, "epub:type=\"index\""@, i) || occurs_at(
                    chapter.html@,
                    "epub:type=\"glossary\""@,
                    i,
                ) || occurs_at(chapter.html@, "epub:type=\"bibliography\""@, i);
            &&& marked ==> counted_nodes(Some(chapter)) == 0
            &&& !marked && chapter.title is None ==> counted_nodes(Some(chapter)) == chapter.blocks
            &&& !marked && chapter.title is Some && !backmatter(
                normalized_title(chapter.title->0@),
            ) ==> counted_nodes(Some(chapter)) == chapter.blocks
            &&& chapter.title is Some && backmatter(normalized_title(chapter.title->0@))
                ==> counted_nodes(Some(chapter)) == 0
        }),
{
    let h = chapter.html@;
    if crate::main_app::chapters::marked_backmatter(h) {
        let i = if text::occurs(h, "epub:type=\"index\""@) {
            choose|i: int| occurs_at(h, "epub:type=\"index\""@, i)
        } else if text::occurs(h, "epub:type=\"glossary\""@) {
            choose|i: int| occurs_at(h, "epub:type=\"glossary\""@, i)
        } else {
            choose|i: int| occurs_at(h, "epub:type=\"bibliography\""@, i)
        };
        assert(occurs_at(h, "epub:type=\"index\""@, i) || occurs_at(h, "epub:type=\"glossary\""@, i)
            || occurs_at(h, "epub:type=\"bibliography\""@, i));
    }
}

/// The titles of chapters that only refer to others; other titles of one word, and titles that say what is
/// listed behind more words, are of chapters with content.
pub proof fn law_titles_of_backmatter(title: Seq<char>)
    ensures
        backmatter("index"@),
        backmatter("glossary"@),
        backmatter("bibliography"@),
        backmatter("works cited"@),
        backmatter("further reading"@),
        backmatter("list of figures"@),
        backmatter("list of tables"@),
        backmatter("list of illustrations"@),
        !title.contains(' ') && title != "index"@ && title != "glossary"@ && title != "bibliography"@
            ==> !backmatter(title),
        title.len() > 21 && !ends(title, "index"@) && !ends(title, "glossary"@) && !ends(
            title,
            "bibliography"@,
        ) ==> !backmatter(title),
{
    reveal_strlit("index");
    reveal_strlit("glossary");
    reveal_strlit("bibliography");
    reveal_strlit("works cited");
    reveal_strlit("further reading");
    reveal_strlit("list of figures");
    reveal_strlit("list of tables");
    reveal_strlit("list of illustrations");
    text::lemma_index_from(title, ' ', 0);
    let at = text::index_from(title, ' ', 0);
    if 0 < at < title.len() {
        assert(title[at] == ' ');
        assert(title.contains(' '));
        let rest = title.skip(at + 1);
        assert(title.subrange(title.len() - rest.len(), title.len() as int) =~= rest);
        assert(rest.len() <= title.len());
    }
    if title == "works cited"@ {
        assert(title[5] == ' ');
    }
    if title == "further reading"@ {
        assert(title[7] == ' ');
    }
    if title == "list of figures"@ || title == "list of tables"@ || title == "list of illustrations"@ {
        assert(title[4] == ' ');
    }
}

/// A text without its white space.
pub open spec fn closed_up(s: Seq<char>) -> Seq<char>
    decreases s.len(),
{
    if s.len() == 0 {
        Seq::empty()
    } else if is_space(s[0]) {
        closed_up(s.skip(1))
    } else {
        seq![s[0]] + closed_up(s.skip(1))
    }
}

/// Texts one behind the other.
pub open spec fn in_a_row(parts: Seq<Seq<char>>) -> Seq<char>
    decreases parts.len(),
{
    if parts.len() == 0 {
        Seq::empty()
    } else {
        parts[0] + in_a_row(parts.skip(1))
    }
}

proof fn lemma_closed_start(s: Seq<char>)
    ensures
        closed_up(trimmed_start(s)) == closed_up(s),
        trimmed_start(s).len() <= s.len(),
        trimmed_start(s).len() > 0 ==> !is_space(trimmed_start(s)[0]),
    decreases s.len(),
{
    if s.len() > 0 && is_space(s[0]) {
        lemma_closed_start(s.skip(1));
    }
}

proof fn lemma_closed_word(s: Seq<char>)
    ensures
        word_end(s) <= s.len(),
        closed_up(s) == s.take(word_end(s) as int) + closed_up(s.skip(word_end(s) as int)),
        forall|i: int| 0 <= i < word_end(s) ==> !is_space(#[trigger] s[i]),
    decreases s.len(),
{
    if s.len() == 0 || is_space(s[0]) {
        assert(s.skip(0) =~= s);
        assert(s.take(0) + closed_up(s) =~= closed_up(s));
    } else {
        let t = s.skip(1);
        lemma_closed_word(t);
        let n = word_end(t) as int;
        assert(s.skip(n + 1) =~= t.skip(n));
        assert(s.take(n + 1) =~= seq![s[0]] + t.take(n));
        assert(seq![s[0]] + (t.take(n) + closed_up(t.skip(n))) =~= (seq![s[0]] + t.take(n)) + closed_up(
            t.skip(n),
        ));
        assert forall|i: int| 0 <= i < word_end(s) implies !is_space(#[trigger] s[i]) by {
            if i > 0 {
                assert(s[i] == t[i - 1]);
            }
        }
    }
}

/// The words of a text are not empty, hold no white space, and are together the whole text but for its
/// white space.
pub proof fn law_words_are_the_text(s: Seq<char>)
    ensures
        in_a_row(words(s)) == closed_up(s),
        forall|i: int, j: int|
            #![trigger words(s)[i][j]]
            0 <= i < words(s).len() && 0 <= j < words(s)[i].len() ==> !is_space(words(s)[i][j]),
        forall|i: int| #![trigger words(s)[i]] 0 <= i < words(s).len() ==> words(s)[i].len() > 0,
    decreases s.len(),
{
    let t = trimmed_start(s);
    lemma_closed_start(s);
    lemma_closed_word(t);
    if t.len() > 0 {
        let n = word_end(t) as int;
        let first = t.take(n);
        let rest = words(t.skip(n));
        assert(n > 0);
        law_words_are_the_text(t.skip(n));
        assert(words(s) =~= seq![first] + rest);
        assert(words(s).skip(1) =~= rest);
        assert forall|i: int, j: int|
            #![trigger words(s)[i][j]]
            0 <= i < words(s).len() && 0 <= j < words(s)[i].len() implies !is_space(words(s)[i][j]) by {
            if i == 0 {
                assert(words(s)[i][j] == t[j]);
            } else {
                assert(words(s)[i] == rest[i - 1]);
                assert(!is_space(rest[i - 1][j]));
            }
        }
        assert forall|i: int| #![trigger words(s)[i]] 0 <= i < words(s).len() implies words(
            s,
        )[i].len() > 0 by {
            if i > 0 {
                assert(words(s)[i] == rest[i - 1]);
            }
        }
    }
}

// ---------------------------------------------------------------------------------------------
// Percent encoding
// ---------------------------------------------------------------------------------------------
/// The sixteen digits, small and capital; other characters are none.
pub proof fn law_digits_of_bytes(n: int, c: char)
    requires
        0 <= n < 16,
    ensures
        n < 10 ==> hex_value((48 + n) as char) == Some(n as nat),
        n >= 10 ==> hex_value((87 + n) as char) == Some(n as nat) && hex_value((55 + n) as char)
            == Some(n as nat),
        (c as int) < 48 || 57 < c as int && (c as int) < 65 || 70 < c as int && (c as int) < 97 || (
        c as int) > 102 ==> hex_value(c) is None,
{
}

/// A percent sign and two digits stand for the character of that number where it is below 128, whatever
/// follows that is not encoded itself; a lone byte that is no character in UTF-8 stands for the character
/// of its number too.
pub proof fn law_encoded_bytes_are_read(a: char, b: char, high: nat, low: nat, rest: Seq<char>)
    requires
        hex_value(a) == Some(high),
        hex_value(b) == Some(low),
        rest.len() > 0 ==> rest[0] != '%',
    ensures
        percent_decoded(seq!['%', a, b] + rest) == seq![(16 * high + low) as char] + percent_decoded(
            rest,
        ),
{
    let s = seq!['%', a, b] + rest;
    let byte = (high * 16 + low) as u8;
    let c = (16 * high + low) as char;
    assert(s.skip(3) =~= rest);
    assert(encoded_run(rest) =~= Seq::empty());
    assert(encoded_run(s) =~= seq![byte]);
    lemma_run_fits(s);
    assert(s.skip(3 * encoded_run(s).len() as int) =~= rest);
    let bytes = seq![byte];
    if high * 16 + low < 128 {
        assert(byte & 0x7f == byte) by (bit_vector)
            requires
                byte < 128,
        ;
        assert(vstd::utf8::pop_first_scalar(bytes) =~= Seq::empty());
        reveal_with_fuel(vstd::utf8::valid_utf8, 2);
        reveal_with_fuel(vstd::utf8::decode_utf8, 2);
        assert(valid_utf8(bytes));
        assert(decode_utf8(bytes) =~= seq![c]);
    } else {
        reveal_with_fuel(vstd::utf8::valid_utf8, 2);
        assert(!valid_utf8(bytes));
        assert(latin1(bytes) =~= seq![c]);
    }
}

/// A percent sign behind which no two digits stand is kept, and so are the two characters behind it.
pub proof fn law_other_percent_signs_are_kept(a: char, b: char, rest: Seq<char>)
    requires
        hex_value(a) is None || hex_value(b) is None,
    ensures
        percent_decoded(seq!['%', a, b] + rest) == seq!['%', a, b] + percent_decoded(rest),
        percent_decoded(seq!['%']) == seq!['%'],
        percent_decoded(seq!['%', a]) == seq!['%', a],
{
    let s = seq!['%', a, b] + rest;
    assert(s.skip(3) =~= rest);
    assert(s.take(3) =~= seq!['%', a, b]);
}

// ---------------------------------------------------------------------------------------------
// Paths in a book
// ---------------------------------------------------------------------------------------------
proof fn lemma_leading_before(s: Seq<char>, tail: Seq<char>, p: Seq<char>)
    requires
        tail.len() > 0,
        tail[0] == '#',
        !p.contains('#'),
    ensures
        without_leading(s + tail, p) == without_leading(s, p) + tail,
        without_leading(s, p).len() <= s.len(),
        !s.contains('#') ==> !without_leading(s, p).contains('#'),
    decreases s.len(),
{
    let n = p.len() as int;
    if n > 0 && begins(s, p) {
        assert((s + tail).subrange(0, n) =~= s.subrange(0, n));
        assert((s + tail).skip(n) =~= s.skip(n) + tail);
        lemma_leading_before(s.skip(n), tail, p);
        if !s.contains('#') && s.skip(n).contains('#') {
            let i = choose|i: int| 0 <= i < s.skip(n).len() && s.skip(n)[i] == '#';
            assert(s[i + n] == '#');
        }
    } else if n > 0 && begins(s + tail, p) {
        assert(s.len() < n) by {
            if s.len() >= n {
                assert(s.subrange(0, n) =~= (s + tail).subrange(0, n));
            }
        }
        assert((s + tail)[s.len() as int] == '#');
        assert((s + tail).subrange(0, n)[s.len() as int] == p[s.len() as int]);
        assert(p.contains('#'));
    }
}

/// Where in a file a path leads, and the steps up before it, make no difference to which file it is.
pub proof fn law_same_file(path: Seq<char>, fragment: Seq<char>)
    ensures
        !path.contains('#') ==> normalized_href(path + seq!['#'] + fragment) == normalized_href(path),
        normalized_href("../"@ + path) == normalized_href(path),
        path.len() > 0 && path[0] != '.' ==> normalized_href("./"@ + path) == normalized_href(path),
        path.len() > 0 && path[0] != '.' ==> normalized_href("OEBPS/"@ + path) == normalized_href(path),
        path.len() > 0 && path[0] != '.' && path[0] != 'O' && !path.contains('#') && !path.contains('%')
            ==> normalized_href(path) == path,
{
    reveal_strlit("../");
    reveal_strlit("./");
    reveal_strlit("OEBPS/");
    let up = "../"@;
    let here = "./"@;
    let root = "OEBPS/"@;
    let tail = seq!['#'] + fragment;
    if !path.contains('#') {
        assert(path + seq!['#'] + fragment =~= path + tail);
        lemma_leading_before(path, tail, up);
        let a = without_leading(path, up);
        lemma_leading_before(a, tail, here);
        let b = without_leading(a, here);
        lemma_leading_before(b, tail, root);
        let c = without_leading(b, root);
        lemma_fragment_cut(c, tail);
        lemma_no_fragment(c);
    }
    assert((up + path).subrange(0, 3) =~= up);
    assert((up + path).skip(3) =~= path);
    if path.len() > 0 && path[0] != '.' {
        let s = here + path;
        assert(s.subrange(0, 2) =~= here);
        assert(s.skip(2) =~= path);
        assert(s[1] == '/');
        if begins(s, up) {
            assert(s.subrange(0, 3)[1] == up[1]);
        }
        if begins(path, here) {
            assert(path.subrange(0, 2)[0] == here[0]);
        }
        if begins(path, up) {
            assert(path.subrange(0, 3)[0] == up[0]);
        }
        assert(without_leading(s, up) == s);
        assert(without_leading(path, here) == path);
        assert(without_leading(s, here) == path);
        let t = root + path;
        assert(t.subrange(0, 6) =~= root);
        assert(t.skip(6) =~= path);
        if begins(t, up) {
            assert(t.subrange(0, 3)[0] == up[0]);
        }
        if begins(t, here) {
            assert(t.subrange(0, 2)[0] == here[0]);
        }
        assert(without_leading(t, up) == t && without_leading(t, here) == t);
        if path[0] != 'O' && !path.contains('#') && !path.contains('%') {
            if begins(path, root) {
                assert(path.subrange(0, 6)[0] == root[0]);
            }
            lemma_no_fragment(path);
            crate::main_app::chapters::law_plain_text_is_kept(path);
        }
    }
}

proof fn lemma_no_fragment(s: Seq<char>)
    requires
        !s.contains('#'),
    ensures
        without_fragment(s) == s,
{
    text::lemma_index_from(s, '#', 0);
    let at = text::index_from(s, '#', 0);
    if at < s.len() {
        assert(s[at] == '#');
    }
    assert(s.take(s.len() as int) =~= s);
}

proof fn lemma_fragment_cut(s: Seq<char>, tail: Seq<char>)
    requires
        !s.contains('#'),
        tail.len() > 0,
        tail[0] == '#',
    ensures
        without_fragment(s + tail) == s,
{
    let t = s + tail;
    text::lemma_index_from(t, '#', 0);
    let at = text::index_from(t, '#', 0);
    assert(t[s.len() as int] == '#');
    if at < s.len() {
        assert(s[at] == '#');
    }
    assert(t.take(s.len() as int) =~= s);
}

/// Whether a text ends with another.
pub open spec fn has_tail(s: Seq<char>, tail: Seq<char>) -> bool {
    tail.len() <= s.len() && s.skip(s.len() - tail.len()) == tail
}

/// A link leads to the first chapter whose path, as it is compared, ends with the link's or is its end.
pub proof fn law_first_linked_chapter(spine: Seq<Option<String>>, href: Seq<char>, i: int)
    requires
        0 <= i <= spine.len(),
    ensures
        ({
            let leads = |k: int|
                spine[k] is Some && (has_tail(normalized_href(spine[k]->0@), normalized_href(href))
                    || has_tail(normalized_href(href), normalized_href(spine[k]->0@)));
            match spine_index(spine, href, i) {
                Some(k) => i <= k < spine.len() && leads(k) && (forall|j: int|
                    #![trigger spine[j]]
                    i <= j < k ==> !leads(j)),
                None => forall|j: int| #![trigger spine[j]] i <= j < spine.len() ==> !leads(j),
            }
        }),
    decreases spine.len() - i,
{
    if i < spine.len() {
        law_first_linked_chapter(spine, href, i + 1);
        if let Some(p) = spine[i] {
            let a = normalized_href(p@);
            let b = normalized_href(href);
            if b.len() <= a.len() {
                assert(a.skip(a.len() - b.len()) =~= a.subrange(a.len() - b.len(), a.len() as int));
            }
            if a.len() <= b.len() {
                assert(b.skip(b.len() - a.len()) =~= b.subrange(b.len() - a.len(), b.len() as int));
            }
        }
    }
}

/// A remembered path leads to the first chapter whose path contains it or is contained in it.
pub proof fn law_first_remembered_chapter(spine: Seq<Option<String>>, target: Seq<char>, i: int)
    requires
        0 <= i <= spine.len(),
    ensures
        ({
            let leads = |k: int|
                spine[k] is Some && ((exists|a: int| occurs_at(spine[k]->0@, target, a)) || (exists|
                    a: int,
                |
                    occurs_at(target, spine[k]->0@, a)));
            match chapter_by_href(spine, target, i) {
                Some(k) => i <= k < spine.len() && leads(k) && (forall|j: int|
                    #![trigger spine[j]]
                    i <= j < k ==> !leads(j)),
                None => forall|j: int| #![trigger spine[j]] i <= j < spine.len() ==> !leads(j),
            }
        }),
    decreases spine.len() - i,
{
    if i < spine.len() {
        law_first_remembered_chapter(spine, target, i + 1);
    }
}

/// A place is remembered by the path of its chapter, and by the chapter's number where it has none; a book
/// without a title is called by the name of its file.
pub proof fn law_names_of_places(
    spine: Seq<Option<String>>,
    chapter: usize,
    dir: Seq<char>,
    stem: Seq<char>,
    ext: Seq<char>,
)
    requires
        is_stem(stem),
        is_extension(ext),
    ensures
        chapter < spine.len() && spine[chapter as int] is Some ==> place_href(spine, chapter)
            == spine[chapter as int]->0@,
        chapter < spine.len() && spine[chapter as int] is None ==> place_href(spine, chapter)
            == "chapter_"@ + decimal(chapter as nat),
        chapter >= spine.len() ==> place_href(spine, chapter) == "chapter_"@ + decimal(chapter as nat),
        title_from_path(below(dir, dotted(stem, ext))) == stem,
        title_from_path(Seq::empty()) == "book"@,
{
    let plain = seq!['a'];
    assert(plain[0] == 'a' && plain.len() == 1);
    assert(seq!['.'][0] == '.' && seq!['.', '.'].len() == 2);
    law_stem_and_extension(dir, stem, ext, plain);
}

// ---------------------------------------------------------------------------------------------
// The table of contents
// ---------------------------------------------------------------------------------------------
/// An entry names a file by its own path or by one that ends in it behind a slash, wherever in the file it
/// leads; a path of another name does not name it.
pub proof fn law_entries_name_files(dir: Seq<char>, file: Seq<char>, fragment: Seq<char>)
    requires
        !file.contains('#'),
        !dir.contains('#'),
    ensures
        names_file(file, file),
        names_file(file + seq!['#'] + fragment, file),
        names_file(dir + seq!['/'] + file, file),
        names_file(dir + seq!['/'] + file + (seq!['#'] + fragment), file),
        dir.len() > 0 && dir.last() != '/' && !file.contains('/') ==> !names_file(dir + file, file),
{
    let tail = seq!['#'] + fragment;
    lemma_no_fragment(file);
    assert(file + seq!['#'] + fragment =~= file + tail);
    lemma_fragment_cut(file, tail);
    let long = dir + seq!['/'] + file;
    assert(!long.contains('#')) by {
        if long.contains('#') {
            let i = choose|i: int| 0 <= i < long.len() && long[i] == '#';
            if i < dir.len() {
                assert(dir[i] == '#');
            } else if i > dir.len() {
                assert(file[i - dir.len() - 1] == '#');
            }
        }
    }
    lemma_no_fragment(long);
    lemma_fragment_cut(long, tail);
    assert(long.subrange(long.len() - (file.len() + 1), long.len() as int) =~= seq!['/'] + file);
    if dir.len() > 0 && dir.last() != '/' && !file.contains('/') {
        let other = dir + file;
        assert(!other.contains('#')) by {
            if other.contains('#') {
                let i = choose|i: int| 0 <= i < other.len() && other[i] == '#';
                if i < dir.len() {
                    assert(dir[i] == '#');
                } else {
                    assert(file[i - dir.len()] == '#');
                }
            }
        }
        lemma_no_fragment(other);
        let slashed = seq!['/'] + file;
        if ends(other, slashed) {
            assert(other.subrange(other.len() - slashed.len(), other.len() as int)[0] == slashed[0]);
            assert(other[dir.len() - 1] == dir.last());
        }
        assert(other.len() != file.len());
    }
}

/// A file is looked for among the entries in their order, below a section before what follows it; the first
/// entry that names it gives the chapter.
pub proof fn law_contents_are_searched(
    href: String,
    children: Vec<TocItem>,
    rest: Seq<TocItem>,
    file: Seq<char>,
    spine: Seq<Option<String>>,
)
    ensures
        ({
            let chapter = TocItem::Chapter { href };
            let named = TocItem::Section { section_href: Some(href), children };
            let plain = TocItem::Section { section_href: None, children };
            let found = |items: Seq<TocItem>| toc_chapter(items, 0, file, spine);
            let inside = found(children@);
            &&& names_file(href@, file) ==> found(seq![chapter] + rest) == spine_index(spine, href@, 0)
            &&& names_file(href@, file) ==> found(seq![named] + rest) == spine_index(spine, href@, 0)
            &&& !names_file(href@, file) ==> found(seq![chapter] + rest) == found(rest)
            &&& !names_file(href@, file) && inside is Some ==> found(seq![named] + rest) == inside
            &&& !names_file(href@, file) && inside is None ==> found(seq![named] + rest) == found(rest)
            &&& inside is Some ==> found(seq![plain] + rest) == inside
            &&& inside is None ==> found(seq![plain] + rest) == found(rest)
            &&& found(Seq::empty()) is None
        }),
{
    let chapter = TocItem::Chapter { href };
    let named = TocItem::Section { section_href: Some(href), children };
    let plain = TocItem::Section { section_href: None, children };
    lemma_contents_from(chapter, rest, 0, file, spine);
    lemma_contents_from(named, rest, 0, file, spine);
    lemma_contents_from(plain, rest, 0, file, spine);
    assert((seq![chapter] + rest)[0] == chapter);
    assert((seq![named] + rest)[0] == named);
    assert((seq![plain] + rest)[0] == plain);
}

proof fn lemma_contents_from(
    first: TocItem,
    rest: Seq<TocItem>,
    i: nat,
    file: Seq<char>,
    spine: Seq<Option<String>>,
)
    ensures
        toc_chapter(seq![first] + rest, i + 1, file, spine) == toc_chapter(rest, i, file, spine),
    decreases rest.len() - i,
{
    if i < rest.len() {
        assert((seq![first] + rest)[i as int + 1] == rest[i as int]);
        lemma_contents_from(first, rest, i + 1, file, spine);
    }
}

/// The chapter of a file is what the table of contents says; where it says nothing, or there is none, what
/// the spine says.
pub proof fn law_contents_come_before_the_spine(
    items: Seq<TocItem>,
    file: Seq<char>,
    spine: Seq<Option<String>>,
)
    ensures
        chapter_of_file(None, file, spine) == spine_index(spine, file, 0),
        toc_chapter(items, 0, file, spine) is None ==> chapter_of_file(Some(items), file, spine)
            == spine_index(spine, file, 0),
        toc_chapter(items, 0, file, spine) is Some ==> chapter_of_file(Some(items), file, spine)
            == toc_chapter(items, 0, file, spine),
{
}

/// The links of a document's contents: to a printed number, to the page where it was seen, and else to the
/// page of that count; to outside; and all others to chapters.
pub proof fn law_links_of_a_document(
    number: usize,
    seen: Option<usize>,
    pages: usize,
    other: Seq<char>,
    spine: Seq<Option<String>>,
)
    ensures
        ({
            let href = "pdf:printed:"@ + decimal(number as nat);
            let to = |seen: Option<usize>, pages: Option<usize>|
                link_destination(href, seen, pages, spine);
            &&& printed_number(href) == Some(number as nat)
            &&& seen is Some ==> to(seen, Some(pages)) == TocDestination::PdfPage(seen)
            &&& 1 <= number <= pages ==> to(None, Some(pages)) == TocDestination::PdfPage(
                Some((number - 1) as usize),
            )
            &&& number == 0 || number > pages ==> to(None, Some(pages)) == TocDestination::PdfPage(
                None,
            )
            &&& to(seen, None) == TocDestination::PdfPage(None)
        }),
        link_destination("pdf:external:"@ + other, seen, Some(pages), spine) == TocDestination::External,
        other.len() > 0 && other[0] != 'p' ==> link_destination(other, seen, Some(pages), spine)
            == TocDestination::Chapter(
            match spine_index(spine, other, 0) {
                Some(k) => Some(k as usize),
                None => None,
            },
        ) && printed_number(other) is None,
{
    reveal_strlit("pdf:page:");
    reveal_strlit("pdf:printed:");
    reveal_strlit("pdf:external:");
    let page = "pdf:page:"@;
    let printed = "pdf:printed:"@;
    let outside = "pdf:external:"@;
    let href = printed + decimal(number as nat);
    assert(href.subrange(0, 12) =~= printed);
    assert(href.skip(12) =~= decimal(number as nat));
    text::lemma_decimal_reads_back(number as nat, usize::MAX as nat);
    if begins(href, page) {
        assert(href.subrange(0, 9)[5] == page[5]);
    }
    let ext = outside + other;
    assert(ext.subrange(0, 13) =~= outside);
    if begins(ext, page) {
        assert(ext.subrange(0, 9)[4] == page[4]);
    }
    if begins(ext, printed) {
        assert(ext.subrange(0, 12)[4] == printed[4]);
    }
    if other.len() > 0 && other[0] != 'p' {
        if begins(other, page) {
            assert(other.subrange(0, 9)[0] == page[0]);
        }
        if begins(other, printed) {
            assert(other.subrange(0, 12)[0] == printed[0]);
        }
        if begins(other, outside) {
            assert(other.subrange(0, 13)[0] == outside[0]);
        }
    }
}

} // verus!
