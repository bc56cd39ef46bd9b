//! What holds of a SyncTeX file as a whole: how its records are written, how its boxes nest, and where
//! its sources and its text are found.
use vstd::prelude::*;
use vstd::string::*;

use crate::paths;
use crate::paths_laws::{below, dotted, is_extension, is_stem, law_stem_and_extension};
use crate::pdf::synctex::{
    base_name, box_of, element_of, entry_from, forward_from, law_line_itself_is_preferred, leads_to,
    lemma_cut, lemma_entry_from, link_of, names_path, nearby, nearest, path_hash, pdf_identity, scanned,
    tag_by_name, tag_by_path, tag_of, BoxView, Distance, ElementView, IndexView, PageElementView,
    ScanView, ScannerView,
};
use crate::pdf::synctex::{
    command_of, error_text, exponent_from, file_text, gunzipped, is_mantissa, is_numeral,
    listener_reply, reply_text, request, safe_char, socket_name, unsigned, SyncTexError,
};
use crate::text;
use crate::text::{begins, decimal, ends, index_from, lines, parsed_uint, split};

verus! {

// ---------------------------------------------------------------------------------------------
// How records are written
// ---------------------------------------------------------------------------------------------
/// A whole number as a record writes it.
pub open spec fn written(n: int) -> Seq<char> {
    if n < 0 {
        seq!['-'] + decimal((-n) as nat)
    } else {
        decimal(n as nat)
    }
}

/// A source and a line in it, as a record writes them.
pub open spec fn link_text(tag: u32, line: u32) -> Seq<char> {
    decimal(tag as nat) + seq![','] + decimal(line as nat)
}

/// A box with whole numbers as a record writes it.
pub open spec fn box_text(
    tag: u32,
    line: u32,
    h: int,
    v: int,
    width: int,
    height: int,
    depth: int,
) -> Seq<char> {
    link_text(tag, line) + seq![':'] + (written(h) + seq![','] + written(v) + seq![':'] + (written(
        width,
    ) + seq![','] + (written(height) + seq![','] + written(depth))))
}

/// A leaf with whole numbers as a record writes it.
pub open spec fn leaf_text(tag: u32, line: u32, h: int, v: int) -> Seq<char> {
    link_text(tag, line) + seq![':'] + (written(h) + seq![','] + written(v))
}

proof fn lemma_no_exponent(s: Seq<char>, i: int)
    requires
        0 <= i <= s.len(),
        text::all_digits(s),
    ensures
        exponent_from(s, i) == s.len(),
    decreases s.len() - i,
{
    if i < s.len() {
        assert(text::is_digit(s[i]));
        lemma_no_exponent(s, i + 1);
    }
}

proof fn lemma_written(n: int)
    ensures
        is_numeral(written(n)),
        written(n).len() > 0,
        forall|i: int|
            0 <= i < written(n).len() ==> #[trigger] written(n)[i] != ',' && written(n)[i] != ':',
{
    let d = if n < 0 {
        decimal((-n) as nat)
    } else {
        decimal(n as nat)
    };
    let s = written(n);
    text::lemma_decimal_value(if n < 0 {
        (-n) as nat
    } else {
        n as nat
    });
    assert(text::is_digit(d[0]));
    if n < 0 {
        assert(s.skip(1) =~= d);
    }
    assert(unsigned(s) =~= d);
    lemma_no_exponent(d, 0);
    assert(d.take(d.len() as int) =~= d);
    text::lemma_index_from(d, '.', 0);
    if index_from(d, '.', 0) < d.len() {
        assert(text::is_digit(d[index_from(d, '.', 0)]));
    }
    assert(is_mantissa(d));
    assert forall|i: int| 0 <= i < s.len() implies #[trigger] s[i] != ',' && s[i] != ':' by {
        if n < 0 {
            if i > 0 {
                assert(s[i] == d[i - 1]);
                assert(text::is_digit(d[i - 1]));
            }
        } else {
            assert(text::is_digit(d[i]));
        }
    }
}

proof fn lemma_link(tag: u32, line: u32)
    ensures
        link_of(link_text(tag, line)) == Some((tag, line)),
        forall|i: int| 0 <= i < link_text(tag, line).len() ==> #[trigger] link_text(tag, line)[i] != ':',
{
    let a = decimal(tag as nat);
    let b = decimal(line as nat);
    text::lemma_decimal_value(tag as nat);
    text::lemma_decimal_value(line as nat);
    text::lemma_decimal_reads_back(tag as nat, u32::MAX as nat);
    text::lemma_decimal_reads_back(line as nat, u32::MAX as nat);
    assert forall|i: int| 0 <= i < a.len() implies #[trigger] a[i] != ',' by {
        assert(text::is_digit(a[i]));
    }
    lemma_cut(a, ',', b);
    let s = link_text(tag, line);
    assert forall|i: int| 0 <= i < s.len() implies #[trigger] s[i] != ':' by {
        if i < a.len() {
            assert(text::is_digit(a[i]));
        } else if i > a.len() {
            assert(s[i] == b[i - a.len() - 1]);
            assert(text::is_digit(b[i - a.len() - 1]));
        }
    }
}

proof fn lemma_first_piece(a: Seq<char>, b: Seq<char>)
    requires
        forall|i: int| 0 <= i < a.len() ==> #[trigger] a[i] != ',',
    ensures
        split(a + seq![','] + b, ',') == seq![a] + split(b, ','),
{
    let s = a + seq![','] + b;
    lemma_cut(a, ',', b);
    text::lemma_index_from(s, ',', 0);
    let k = index_from(s, ',', 0);
    assert(s[a.len() as int] == ',');
    if k < a.len() {
        assert(s[k] == a[k]);
    }
    assert(k == a.len());
    assert(s.take(k) =~= a);
    assert(s.skip(k + 1) =~= b);
}

proof fn lemma_only_piece(a: Seq<char>)
    requires
        forall|i: int| 0 <= i < a.len() ==> #[trigger] a[i] != ',',
    ensures
        split(a, ',') == seq![a],
{
    text::lemma_index_from(a, ',', 0);
}

/// The record of a box is read as the box that was written: each of its numbers in its own place.
pub proof fn law_box_record_is_read(
    tag: u32,
    line: u32,
    h: int,
    v: int,
    width: int,
    height: int,
    depth: int,
)
    ensures
        box_of(box_text(tag, line, h, v, width, height, depth)) == Some(
            BoxView {
                tag,
                line,
                h: written(h),
                v: written(v),
                width: written(width),
                height: written(height),
                depth: written(depth),
            },
        ),
{
    lemma_link(tag, line);
    lemma_written(h);
    lemma_written(v);
    lemma_written(width);
    lemma_written(height);
    lemma_written(depth);
    let point = written(h) + seq![','] + written(v);
    let last = written(height) + seq![','] + written(depth);
    let size = written(width) + seq![','] + last;
    lemma_cut(link_text(tag, line), ':', point + seq![':'] + size);
    assert forall|i: int| 0 <= i < point.len() implies #[trigger] point[i] != ':' by {
        if i < written(h).len() {
            assert(point[i] == written(h)[i]);
        } else if i > written(h).len() {
            assert(point[i] == written(v)[i - written(h).len() - 1]);
        }
    }
    lemma_cut(point, ':', size);
    lemma_cut(written(h), ',', written(v));
    lemma_first_piece(written(width), last);
    lemma_first_piece(written(height), written(depth));
    lemma_only_piece(written(depth));
    let sizes = split(size, ',');
    assert(sizes =~= seq![written(width), written(height), written(depth)]);
}

/// The record of a leaf is read as the leaf that was written, with the width where it has one.
pub proof fn law_leaf_record_is_read(tag: u32, line: u32, h: int, v: int, width: int)
    ensures
        element_of(leaf_text(tag, line, h, v)) == Some(
            ElementView { tag, line, h: written(h), v: written(v), width: None },
        ),
        element_of(leaf_text(tag, line, h, v) + seq![':'] + written(width)) == Some(
            ElementView {
                tag,
                line,
                h: written(h),
                v: written(v),
                width: Some(written(width)),
            },
        ),
{
    lemma_link(tag, line);
    lemma_written(h);
    lemma_written(v);
    lemma_written(width);
    let link = link_text(tag, line);
    let point = written(h) + seq![','] + written(v);
    assert forall|i: int| 0 <= i < point.len() implies #[trigger] point[i] != ':' by {
        if i < written(h).len() {
            assert(point[i] == written(h)[i]);
        } else if i > written(h).len() {
            assert(point[i] == written(v)[i - written(h).len() - 1]);
        }
    }
    lemma_cut(link, ':', point);
    lemma_cut(written(h), ',', written(v));
    text::lemma_index_from(point, ':', 0);
    let wide = point + seq![':'] + written(width);
    assert(leaf_text(tag, line, h, v) + seq![':'] + written(width) =~= link + seq![':'] + wide);
    lemma_cut(link, ':', wide);
    lemma_cut(point, ':', written(width));
    text::lemma_index_from(written(width), ':', 0);
}

// ---------------------------------------------------------------------------------------------
// How boxes nest
// ---------------------------------------------------------------------------------------------
/// How a line changes the number of open boxes: one that starts a box adds it, one that is only a
/// closing bracket takes one away.
pub open spec fn shift(line: Seq<char>) -> int {
    if line == seq![']'] || line == seq![')'] {
        -1
    } else if line.len() > 0 && (line[0] == '[' || line[0] == '(') && box_of(line.skip(1)) is Some {
        1
    } else {
        0
    }
}

/// How lines from `i` up to `j` change the number of open boxes.
pub open spec fn depth(all: Seq<Seq<char>>, i: int, j: int) -> int
    decreases j - i,
{
    if j <= i {
        0
    } else {
        depth(all, i, j - 1) + shift(all[j - 1])
    }
}

/// Whether the lines from `i` up to `j` are of one page: none starts a page or ends the content.
pub open spec fn same_page(all: Seq<Seq<char>>, i: int, j: int) -> bool {
    forall|k: int|
        i <= k < j ==> !begins(#[trigger] all[k], "Postamble:"@) && (all[k].len() > 0
            ==> all[k][0] != '{')
}

/// Whether the lines from `i` up to `j` close every box that they open, and no other.
pub open spec fn balanced(all: Seq<Seq<char>>, i: int, j: int) -> bool {
    &&& depth(all, i, j) == 0
    &&& forall|k: int| i <= k <= j ==> #[trigger] depth(all, i, k) >= 0
}

/// Whether the reader is within the content of a file after `n` lines.
pub open spec fn reading(all: Seq<Seq<char>>, n: int) -> bool {
    ScanView::after(all, n as nat).in_content && !ScanView::after(all, n as nat).ended
}

proof fn lemma_step(all: Seq<Seq<char>>, j: int)
    requires
        0 <= j < all.len(),
        reading(all, j),
        same_page(all, j, j + 1),
    ensures
        reading(all, j + 1),
        ({
            let a = ScanView::after(all, j as nat);
            let b = ScanView::after(all, (j + 1) as nat);
            &&& b.current_page == a.current_page
            &&& shift(all[j]) == 0 ==> b.stack == a.stack
            &&& shift(all[j]) == 1 ==> b.stack == a.stack.push(box_of(all[j].skip(1))->0)
            &&& shift(all[j]) == -1 && a.stack.len() > 0 ==> b.stack == a.stack.drop_last()
        }),
{
    reveal_strlit("Input:");
    let line = all[j];
    assert(!begins(line, "Postamble:"@));
    if begins(line, "Input:"@) {
        assert(line.subrange(0, 6)[0] == line[0]);
        assert(line[0] == 'I');
        assert(line.subrange(0, 6).len() == 6);
        assert(shift(line) == 0) by {
            assert(seq![']'].len() == 1 && seq![')'].len() == 1);
        }
    } else {
        assert(seq![']'][0] == ']' && seq![')'][0] == ')');
    }
}

proof fn lemma_nesting(all: Seq<Seq<char>>, i: int, j: int)
    requires
        0 <= i <= j <= all.len(),
        reading(all, i),
        same_page(all, i, j),
        forall|k: int| i <= k <= j ==> #[trigger] depth(all, i, k) >= 0,
    ensures
        reading(all, j),
        ({
            let a = ScanView::after(all, i as nat);
            let b = ScanView::after(all, j as nat);
            &&& b.current_page == a.current_page
            &&& b.stack.len() == a.stack.len() + depth(all, i, j)
            &&& b.stack.take(a.stack.len() as int) == a.stack
        }),
    decreases j - i,
{
    let a = ScanView::after(all, i as nat);
    if i < j {
        lemma_nesting(all, i, j - 1);
        let m = ScanView::after(all, (j - 1) as nat);
        let b = ScanView::after(all, j as nat);
        assert(same_page(all, j - 1, j));
        assert(depth(all, i, j) >= 0 && depth(all, i, j - 1) >= 0);
        lemma_step(all, j - 1);
        assert(b.stack.take(a.stack.len() as int) =~= m.stack.take(a.stack.len() as int));
    } else {
        assert(a.stack.take(a.stack.len() as int) =~= a.stack);
    }
}

/// Boxes nest: a line that opens a box, lines that close what they open, and the line that closes the
/// box leave the boxes open that were open before, and no other.
pub proof fn law_boxes_nest(all: Seq<Seq<char>>, i: int, j: int)
    requires
        0 <= i < j < all.len(),
        reading(all, i),
        same_page(all, i, j + 1),
        shift(all[i]) == 1,
        balanced(all, i + 1, j),
        all[j] == seq![']'] || all[j] == seq![')'],
    ensures
        ScanView::after(all, (j + 1) as nat).stack == ScanView::after(all, i as nat).stack,
{
    lemma_step(all, i);
    lemma_nesting(all, i + 1, j);
    let a = ScanView::after(all, i as nat);
    let o = ScanView::after(all, (i + 1) as nat);
    let c = ScanView::after(all, j as nat);
    lemma_step(all, j);
    assert(c.stack.take(o.stack.len() as int) =~= c.stack);
    assert(o.stack.drop_last() =~= a.stack);
}

proof fn lemma_only_grows(all: Seq<Seq<char>>, n: nat, m: nat)
    requires
        n <= m <= all.len(),
    ensures
        ({
            let a = ScanView::after(all, n);
            let b = ScanView::after(all, m);
            &&& a.elements.is_prefix_of(b.elements)
            &&& a.index.is_prefix_of(b.index)
            &&& a.page_count <= b.page_count
        }),
    decreases m,
{
    if n < m {
        lemma_only_grows(all, n, (m - 1) as nat);
        let a = ScanView::after(all, n);
        let k = ScanView::after(all, (m - 1) as nat);
        let b = ScanView::after(all, m);
        assert(k.elements.is_prefix_of(b.elements));
        assert(k.index.is_prefix_of(b.index));
        assert(b.elements.take(a.elements.len() as int) =~= k.elements.take(a.elements.len() as int));
        assert(b.index.take(a.index.len() as int) =~= k.index.take(a.index.len() as int));
    }
}

proof fn lemma_reading(all: Seq<Seq<char>>, c: int, n: int)
    requires
        0 <= c < n <= all.len(),
        all[c] == "Content:"@,
        forall|k: int| 0 <= k < n ==> !begins(#[trigger] all[k], "Postamble:"@),
    ensures
        reading(all, n),
    decreases n,
{
    lemma_not_ended(all, n);
    if c + 1 < n {
        lemma_reading(all, c, n - 1);
    } else {
        reveal_strlit("Content:");
        reveal_strlit("Input:");
        if begins(all[c], "Input:"@) {
            assert(all[c].subrange(0, 6)[0] == all[c][0]);
            assert(false);
        }
    }
}

proof fn lemma_not_ended(all: Seq<Seq<char>>, n: int)
    requires
        0 <= n <= all.len(),
        forall|k: int| 0 <= k < n ==> !begins(#[trigger] all[k], "Postamble:"@),
    ensures
        !ScanView::after(all, n as nat).ended,
    decreases n,
{
    if n > 0 {
        lemma_not_ended(all, n - 1);
    }
}

/// What the lines of a file say of one leaf: the content starts at line `c`, page `page` at line `p`,
/// a box at line `i`, and the leaf at line `j`, between which every box that opens closes.
pub open spec fn leaf_in_box(
    all: Seq<Seq<char>>,
    c: int,
    p: int,
    i: int,
    j: int,
    page: usize,
    b: BoxView,
    e: ElementView,
) -> bool {
    &&& 0 <= c < p < i < j < all.len()
    &&& forall|k: int| 0 <= k < j ==> !begins(#[trigger] all[k], "Postamble:"@)
    &&& all[c] == "Content:"@
    &&& all[p] == seq!['{'] + decimal(page as nat)
    &&& same_page(all, p + 1, j + 1)
    &&& all[i].len() > 0 && (all[i][0] == '[' || all[i][0] == '(')
    &&& box_of(all[i].skip(1)) == Some(b)
    &&& balanced(all, i + 1, j)
    &&& all[j].len() > 0
    &&& all[j][0] == 'x' || all[j][0] == 'k' || all[j][0] == 'g' || all[j][0] == '$' || all[j][0]
        == 'h' || all[j][0] == 'v'
    &&& element_of(all[j].skip(1)) == Some(e)
}

proof fn lemma_page(all: Seq<Seq<char>>, p: int, page: usize)
    requires
        0 <= p < all.len(),
        reading(all, p),
        all[p] == seq!['{'] + decimal(page as nat),
    ensures
        reading(all, p + 1),
        ScanView::after(all, (p + 1) as nat).current_page == page,
        ScanView::after(all, (p + 1) as nat).stack.len() == 0,
        ScanView::after(all, (p + 1) as nat).page_count >= page,
{
    reveal_strlit("Input:");
    reveal_strlit("Postamble:");
    let line = all[p];
    text::lemma_decimal_reads_back(page as nat, usize::MAX as nat);
    assert(line.skip(1) =~= decimal(page as nat));
    assert(line[0] == '{');
    if begins(line, "Input:"@) {
        assert(line.subrange(0, 6)[0] == line[0]);
    }
    if begins(line, "Postamble:"@) {
        assert(line.subrange(0, 10)[0] == line[0]);
    }
}

proof fn lemma_leaf_in_box(
    all: Seq<Seq<char>>,
    c: int,
    p: int,
    i: int,
    j: int,
    page: usize,
    b: BoxView,
    e: ElementView,
)
    requires
        leaf_in_box(all, c, p, i, j, page, b, e),
    ensures
        ({
            let before = ScanView::after(all, j as nat);
            let now = ScanView::after(all, (j + 1) as nat);
            &&& now.elements == before.elements.push(
                PageElementView { page, element: e, parent: Some(b) },
            )
            &&& now.index == before.index.push(
                IndexView { tag: e.tag, line: e.line, page, place: b },
            )
        }),
{
    lemma_reading(all, c, p);
    lemma_page(all, p, page);
    lemma_nesting_free(all, p + 1, i);
    assert(same_page(all, i, i + 1));
    assert(shift(all[i]) == 1) by {
        assert(seq![']'][0] == ']' && seq![')'][0] == ')');
    }
    lemma_step(all, i);
    assert(same_page(all, i + 1, j));
    lemma_nesting(all, i + 1, j);
    let o = ScanView::after(all, (i + 1) as nat);
    let before = ScanView::after(all, j as nat);
    assert(before.stack.take(o.stack.len() as int) =~= before.stack);
    assert(before.parent() == Some(b));
    let line = all[j];
    reveal_strlit("Input:");
    if begins(line, "Input:"@) {
        assert(line.subrange(0, 6)[0] == line[0]);
    }
    assert(!begins(line, "Postamble:"@));
    assert(seq![']'][0] == ']' && seq![')'][0] == ')');
}

proof fn lemma_nesting_free(all: Seq<Seq<char>>, i: int, j: int)
    requires
        0 <= i <= j <= all.len(),
        reading(all, i),
        same_page(all, i, j),
    ensures
        reading(all, j),
        ScanView::after(all, j as nat).current_page == ScanView::after(all, i as nat).current_page,
    decreases j - i,
{
    if i < j {
        lemma_nesting_free(all, i, j - 1);
        assert(same_page(all, j - 1, j));
        lemma_step(all, j - 1);
    }
}

/// A leaf outside all boxes is kept without a box, and no line leads to it.
pub proof fn law_leaf_outside_boxes(s: ScanView, rest: Seq<char>, e: ElementView)
    requires
        s.stack.len() == 0,
        element_of(rest) == Some(e),
    ensures
        s.with_leaf(rest).index == s.index,
        s.with_leaf(rest).elements == s.elements.push(
            PageElementView { page: s.current_page, element: e, parent: None },
        ),
{
}

/// A leaf lies in the last box opened before it on its page whose closing line has not come yet: that
/// is the box in which it is found from its line in the source, and from which the way back starts.
pub proof fn law_leaf_lies_in_the_box_around_it(
    content: Seq<char>,
    c: int,
    p: int,
    i: int,
    j: int,
    page: usize,
    b: BoxView,
    e: ElementView,
)
    requires
        leaf_in_box(lines(content), c, p, i, j, page, b, e),
    ensures
        scanned(content).elements.contains(PageElementView { page, element: e, parent: Some(b) }),
        scanned(content).index.contains(
            IndexView { tag: e.tag, line: e.line, page, place: b },
        ),
        scanned(content).page_count >= page,
{
    let all = lines(content);
    lemma_leaf_in_box(all, c, p, i, j, page, b, e);
    lemma_only_grows(all, (j + 1) as nat, all.len());
    lemma_reading(all, c, p);
    lemma_page(all, p, page);
    lemma_only_grows(all, (p + 1) as nat, all.len());
    let before = ScanView::after(all, j as nat);
    let now = ScanView::after(all, (j + 1) as nat);
    let s = scanned(content);
    assert(now.elements[before.elements.len() as int] == s.elements[before.elements.len() as int]);
    assert(now.index[before.index.len() as int] == s.index[before.index.len() as int]);
}

/// Looking for a line whose text is first met in a box finds the page and that box.
pub proof fn law_line_is_found_in_the_box_around_its_text(
    content: Seq<char>,
    c: int,
    p: int,
    i: int,
    j: int,
    page: usize,
    b: BoxView,
    e: ElementView,
)
    requires
        leaf_in_box(lines(content), c, p, i, j, page, b, e),
        forall|k: int|
            0 <= k < ScanView::after(lines(content), j as nat).index.len() ==> !((
            #[trigger] ScanView::after(lines(content), j as nat).index[k]).tag == e.tag
                && ScanView::after(lines(content), j as nat).index[k].line == e.line),
    ensures
        forward_from(scanned(content).index, e.tag, e.line, 0) == Some(
            IndexView { tag: e.tag, line: e.line, page, place: b },
        ),
{
    let all = lines(content);
    lemma_leaf_in_box(all, c, p, i, j, page, b, e);
    lemma_only_grows(all, (j + 1) as nat, all.len());
    let before = ScanView::after(all, j as nat).index;
    let now = ScanView::after(all, (j + 1) as nat).index;
    let index = scanned(content).index;
    let k = before.len() as int;
    assert(index[k] == now[k]);
    assert forall|m: int| 0 <= m < k implies !((#[trigger] index[m]).tag == e.tag && index[m].line
        == e.line) by {
        assert(index[m] == now[m]);
        assert(now[m] == before[m]);
    }
    law_line_itself_is_preferred(index, e.tag, e.line, k);
}

/// The line that starts a horizontal box is found in that box.
pub proof fn law_horizontal_box_is_found(
    content: Seq<char>,
    c: int,
    p: int,
    i: int,
    page: usize,
    b: BoxView,
)
    requires
        0 <= c < p < i < lines(content).len(),
        forall|k: int| 0 <= k < i ==> !begins(#[trigger] lines(content)[k], "Postamble:"@),
        lines(content)[c] == "Content:"@,
        lines(content)[p] == seq!['{'] + decimal(page as nat),
        same_page(lines(content), p + 1, i + 1),
        lines(content)[i].len() > 0,
        lines(content)[i][0] == '(',
        box_of(lines(content)[i].skip(1)) == Some(b),
    ensures
        scanned(content).index.contains(IndexView { tag: b.tag, line: b.line, page, place: b }),
{
    let all = lines(content);
    lemma_reading(all, c, p);
    lemma_page(all, p, page);
    lemma_nesting_free(all, p + 1, i);
    assert(same_page(all, i, i + 1));
    reveal_strlit("Input:");
    let line = all[i];
    if begins(line, "Input:"@) {
        assert(line.subrange(0, 6)[0] == line[0]);
    }
    assert(!begins(line, "Postamble:"@));
    lemma_only_grows(all, (i + 1) as nat, all.len());
    let before = ScanView::after(all, i as nat).index;
    let now = ScanView::after(all, (i + 1) as nat).index;
    assert(now[before.len() as int] == scanned(content).index[before.len() as int]);
}

/// Every leaf that is kept was written by a line of its kind.
pub proof fn law_leaves_come_from_their_lines(content: Seq<char>, n: int)
    requires
        0 <= n < scanned(content).elements.len(),
    ensures
        exists|j: int|
            0 <= j < lines(content).len() && (#[trigger] lines(content)[j]).len() > 0 && element_of(
                lines(content)[j].skip(1),
            ) == Some(scanned(content).elements[n].element),
{
    lemma_leaf_source(lines(content), lines(content).len(), n);
}

proof fn lemma_leaf_source(all: Seq<Seq<char>>, m: nat, n: int)
    requires
        m <= all.len(),
        0 <= n < ScanView::after(all, m).elements.len(),
    ensures
        exists|j: int|
            0 <= j < m && (#[trigger] all[j]).len() > 0 && element_of(all[j].skip(1)) == Some(
                ScanView::after(all, m).elements[n].element,
            ),
    decreases m,
{
    if m > 0 {
        let before = ScanView::after(all, (m - 1) as nat);
        if n < before.elements.len() {
            lemma_leaf_source(all, (m - 1) as nat, n);
            lemma_only_grows(all, (m - 1) as nat, m);
            let j = choose|j: int|
                0 <= j < m - 1 && (#[trigger] all[j]).len() > 0 && element_of(all[j].skip(1)) == Some(
                    before.elements[n].element,
                );
            assert(ScanView::after(all, m).elements[n] == before.elements[n]);
            assert(all[j].len() > 0);
        } else {
            assert(all[m - 1].len() > 0);
        }
    }
}

// ---------------------------------------------------------------------------------------------
// Sources
// ---------------------------------------------------------------------------------------------
/// A line that names a source: its number and its path.
pub open spec fn input_text(tag: u32, path: Seq<char>) -> Seq<char> {
    "Input:"@ + decimal(tag as nat) + seq![':'] + path
}

proof fn lemma_inputs_only_change_by_their_lines(all: Seq<Seq<char>>, i: int, n: int, tag: u32)
    requires
        0 <= i <= n <= all.len(),
        forall|k: int|
            i <= k < n && begins(#[trigger] all[k], "Input:"@) ==> {
                let rest = all[k].skip("Input:"@.len() as int);
                let digits = rest.take(index_from(rest, ':', 0));
                parsed_uint(digits, u32::MAX as nat) != Some(tag as nat)
            },
        ScanView::after(all, i as nat).inputs.dom().contains(tag),
    ensures
        ScanView::after(all, n as nat).inputs.dom().contains(tag),
        ScanView::after(all, n as nat).inputs[tag] == ScanView::after(all, i as nat).inputs[tag],
    decreases n - i,
{
    if i < n {
        lemma_inputs_only_change_by_their_lines(all, i, n - 1, tag);
        let before = ScanView::after(all, (n - 1) as nat);
        let now = ScanView::after(all, n as nat);
        if begins(all[n - 1], "Input:"@) && !before.ended {
            let rest = all[n - 1].skip("Input:"@.len() as int);
            text::lemma_index_from(rest, ':', 0);
        }
    }
}

/// A source has the path that its last line gives it, colons and all.
pub proof fn law_source_has_its_path(content: Seq<char>, i: int, tag: u32, path: Seq<char>)
    requires
        0 <= i < lines(content).len(),
        lines(content)[i] == input_text(tag, path),
        forall|k: int| 0 <= k <= i ==> !begins(#[trigger] lines(content)[k], "Postamble:"@),
        forall|k: int|
            i < k < lines(content).len() && begins(#[trigger] lines(content)[k], "Input:"@) ==> {
                let rest = lines(content)[k].skip("Input:"@.len() as int);
                let digits = rest.take(index_from(rest, ':', 0));
                parsed_uint(digits, u32::MAX as nat) != Some(tag as nat)
            },
    ensures
        scanned(content).inputs.dom().contains(tag),
        scanned(content).inputs[tag] == path,
{
    let all = lines(content);
    lemma_not_ended(all, i);
    let line = all[i];
    let p = "Input:"@;
    let d = decimal(tag as nat);
    assert(line.subrange(0, p.len() as int) =~= p);
    assert(begins(line, p));
    assert(line.skip(p.len() as int) =~= d + seq![':'] + path);
    text::lemma_decimal_value(tag as nat);
    text::lemma_decimal_reads_back(tag as nat, u32::MAX as nat);
    assert forall|k: int| 0 <= k < d.len() implies #[trigger] d[k] != ':' by {
        assert(text::is_digit(d[k]));
    }
    lemma_cut(d, ':', path);
    lemma_inputs_only_change_by_their_lines(all, i + 1, all.len() as int, tag);
}

/// A query names a source exactly by the whole path, or by some last components of it.
pub proof fn law_query_names_last_components(path: Seq<char>, file: Seq<char>)
    ensures
        leads_to(path, file) <==> path == file || exists|dir: Seq<char>|
            path == #[trigger] (dir + seq!['/'] + file),
{
    let p = seq!['/'] + file;
    if leads_to(path, file) && path != file {
        let dir = path.take(path.len() - p.len());
        assert(path =~= dir + seq!['/'] + file) by {
            assert(path.subrange(path.len() - p.len(), path.len() as int) == p);
            assert(path =~= dir + path.subrange(path.len() - p.len(), path.len() as int));
        }
    }
    if exists|dir: Seq<char>| path == #[trigger] (dir + seq!['/'] + file) {
        let dir = choose|dir: Seq<char>| path == #[trigger] (dir + seq!['/'] + file);
        assert(path.subrange(path.len() - p.len(), path.len() as int) =~= p);
    }
}

proof fn lemma_by_path(order: Seq<u32>, inputs: Map<u32, Seq<char>>, file: Seq<char>, i: int)
    requires
        0 <= i <= order.len(),
    ensures
        match tag_by_path(order, inputs, file, i) {
            Some(t) => names_path(inputs[t], file) && order.contains(t),
            None => forall|k: int|
                i <= k < order.len() ==> !names_path(inputs[#[trigger] order[k]], file),
        },
    decreases order.len() - i,
{
    if i < order.len() {
        if names_path(inputs[order[i]], file) {
            assert(order[i] == order[i]);
        } else {
            lemma_by_path(order, inputs, file, i + 1);
        }
    }
}

proof fn lemma_by_name(order: Seq<u32>, inputs: Map<u32, Seq<char>>, name: Seq<char>, n: nat)
    requires
        n <= order.len(),
    ensures
        match tag_by_name(order, inputs, name, n) {
            Some(t) => base_name(inputs[t]) == name && order.contains(t),
            None => forall|k: int| 0 <= k < n ==> base_name(inputs[#[trigger] order[k]]) != name,
        },
    decreases n,
{
    if n > 0 {
        if base_name(inputs[order[n - 1]]) == name {
            assert(order[n - 1] == order[n - 1]);
        } else {
            lemma_by_name(order, inputs, name, (n - 1) as nat);
        }
    }
}

/// A query finds a source whose path it names where there is one, else one with its file name where
/// there is one, else nothing.
pub proof fn law_sources_are_found(s: ScannerView, file: Seq<char>)
    ensures
        match tag_of(s, file) {
            Some(t) => s.order.contains(t) && (names_path(s.inputs[t], file) || (base_name(
                s.inputs[t],
            ) == base_name(file) && forall|k: int|
                0 <= k < s.order.len() ==> !names_path(s.inputs[#[trigger] s.order[k]], file))),
            None => forall|k: int|
                0 <= k < s.order.len() ==> !names_path(s.inputs[#[trigger] s.order[k]], file)
                    && base_name(s.inputs[s.order[k]]) != base_name(file),
        },
{
    lemma_by_path(s.order, s.inputs, file, 0);
    lemma_by_name(s.order, s.inputs, base_name(file), s.order.len());
}

// ---------------------------------------------------------------------------------------------
// Searches
// ---------------------------------------------------------------------------------------------
/// Whether a line of a source went anywhere.
pub open spec fn has_place(index: Seq<IndexView>, tag: u32, line: int) -> bool {
    exists|k: int| 0 <= k < index.len() && (#[trigger] index[k]).tag == tag && index[k].line == line
}

/// Looking for a line finds the nearest line that went anywhere, up to three lines away; of two that
/// are as near, the later one.
pub proof fn law_nearest_line_is_found(index: Seq<IndexView>, tag: u32, line: u32, d: int)
    requires
        0 <= d <= 3,
        3 <= line <= 0xffff_fffc,
        forall|x: int|
            line - d < x < line + d ==> !#[trigger] has_place(index, tag, x),
    ensures
        has_place(index, tag, line + d) ==> (forward_from(index, tag, line, 0) matches Some(e)
            && e.tag == tag && e.line == line + d),
        !has_place(index, tag, line + d) && has_place(index, tag, line - d) ==> (forward_from(
            index,
            tag,
            line,
            0,
        ) matches Some(e) && e.tag == tag && e.line == line - d),
{
    reveal_with_fuel(forward_from, 8);
    assert forall|k: int| 0 <= k < 7 implies match #[trigger] entry_from(
        index,
        tag,
        nearby(line, k),
        0,
    ) {
        Some(e) => e.tag == tag && e.line == nearby(line, k) && has_place(
            index,
            tag,
            nearby(line, k) as int,
        ),
        None => !has_place(index, tag, nearby(line, k) as int),
    } by {
        lemma_entry_from(index, tag, nearby(line, k), 0);
        if let Some(e) = entry_from(index, tag, nearby(line, k), 0) {
            let i = choose|i: int| 0 <= i < index.len() && #[trigger] index[i] == e;
            assert(index[i].tag == tag && index[i].line == nearby(line, k));
        }
    }
    assert(nearby(line, 0) == line);
    assert(nearby(line, 1) == line + 1);
    assert(nearby(line, 2) == line - 1);
    assert(nearby(line, 3) == line + 2);
    assert(nearby(line, 4) == line - 2);
    assert(nearby(line, 5) == line + 3);
    assert(nearby(line, 6) == line - 3);
    assert(d >= 1 ==> !has_place(index, tag, line as int));
    assert(d >= 2 ==> !has_place(index, tag, line + 1) && !has_place(index, tag, line - 1));
    assert(d >= 3 ==> !has_place(index, tag, line + 2) && !has_place(index, tag, line - 2));
}

proof fn lemma_first_nearest(
    elements: Seq<PageElementView>,
    distances: Seq<Option<Distance>>,
    page: usize,
    n: nat,
)
    requires
        elements.len() == distances.len(),
        n <= elements.len(),
        forall|j: int|
            0 <= j < distances.len() ==> ((#[trigger] distances[j]) matches Some(d) ==> d.comparable),
    ensures
        match nearest(elements, distances, page, n) {
            Some(b) => 0 <= b < n && elements[b].page == page && distances[b] is Some && forall|
                j: int,
            |
                0 <= j < n && (#[trigger] elements[j]).page == page && distances[j] is Some ==> if j
                    < b {
                    distances[j]->0.order > distances[b]->0.order
                } else {
                    distances[j]->0.order >= distances[b]->0.order
                },
            None => forall|j: int|
                0 <= j < n && (#[trigger] elements[j]).page == page ==> distances[j] is None,
        },
    decreases n,
{
    if n > 0 {
        lemma_first_nearest(elements, distances, page, (n - 1) as nat);
        assert(distances[n - 1] matches Some(d) ==> d.comparable);
    }
}

/// The leaf that the way back starts from is the nearest one of the page, and the first of those that
/// are as near; leaves of other pages and those without extent do not count.
pub proof fn law_first_of_the_nearest_leaves_is_found(
    elements: Seq<PageElementView>,
    distances: Seq<Option<Distance>>,
    page: usize,
)
    requires
        elements.len() == distances.len(),
        forall|j: int|
            0 <= j < distances.len() ==> ((#[trigger] distances[j]) matches Some(d) ==> d.comparable),
    ensures
        match nearest(elements, distances, page, elements.len()) {
            Some(b) => 0 <= b < elements.len() && elements[b].page == page && distances[b] is Some
                && forall|j: int|
                0 <= j < elements.len() && (#[trigger] elements[j]).page == page && distances[j]
                    is Some ==> if j < b {
                    distances[j]->0.order > distances[b]->0.order
                } else {
                    distances[j]->0.order >= distances[b]->0.order
                },
            None => forall|j: int|
                0 <= j < elements.len() && (#[trigger] elements[j]).page == page
                    ==> distances[j] is None,
        },
{
    lemma_first_nearest(elements, distances, page, elements.len());
}

// ---------------------------------------------------------------------------------------------
// Files and sockets
// ---------------------------------------------------------------------------------------------
/// The hash of a path is that of Fowler, Noll and Vo: it starts with their offset, and each byte is
/// mixed in before the product with their prime.
pub proof fn law_hash_takes_each_byte(bytes: Seq<u8>, byte: u8)
    ensures
        path_hash(Seq::empty(), 0) == 14695981039346656037,
        path_hash(bytes.push(byte), bytes.len() + 1) == ((path_hash(bytes, bytes.len()) ^ (
        byte as u64)) * 1099511628211) % 18446744073709551616,
{
    lemma_hash_prefix(bytes, byte, bytes.len());
}

proof fn lemma_hash_prefix(bytes: Seq<u8>, byte: u8, n: nat)
    requires
        n <= bytes.len(),
    ensures
        path_hash(bytes.push(byte), n) == path_hash(bytes, n),
    decreases n,
{
    if n > 0 {
        lemma_hash_prefix(bytes, byte, (n - 1) as nat);
    }
}

/// The full path of a document is what the system makes of its path, whatever that is; an absolute
/// path that the system does not know is kept, and nothing is made up where no directory is known.
pub proof fn law_identity_of_a_document(path: Seq<char>, canonical: Seq<char>, cwd: Seq<char>)
    ensures
        pdf_identity(path, Some(canonical), None) == canonical,
        pdf_identity(path, Some(canonical), Some(cwd)) == canonical,
        pdf_identity(path, None, None) == path,
        pdf_identity(seq!['/'] + path, None, Some(cwd)) == seq!['/'] + path,
        path.len() > 0 && path[0] != '/' ==> pdf_identity(path, None, Some(cwd)) == paths::joined(
            cwd,
            path,
        ),
{
    assert((seq!['/'] + path)[0] == '/');
}

// ---------------------------------------------------------------------------------------------
// Editors
// ---------------------------------------------------------------------------------------------
/// A command is its word, a line, a column and a file, in this order, each behind a space; what does not
/// begin with the word is none, and neither is a command without numbers.
pub proof fn law_commands_are_written(file: Seq<char>, line: u32, column: u32, other: Seq<char>)
    requires
        other.len() > 0,
        other[0] != 'f',
        !text::is_space(other[0]),
    ensures
        request(file, line, column) =~= "forward "@ + decimal(line as nat) + " "@ + decimal(
            column as nat,
        ) + " "@ + file + "\n"@,
        command_of(other) is None,
{
    reveal_strlit("forward ");
    assert(text::trimmed_start(other) == other);
    let t = text::trimmed(other);
    lemma_trimmed_begins(other);
    if begins(t, "forward "@) {
        assert(t.subrange(0, 8)[0] == "forward "@[0]);
    }
}

proof fn lemma_trimmed_begins(s: Seq<char>)
    requires
        s.len() > 0,
        !text::is_space(s[0]),
    ensures
        text::trimmed_end(s).len() > 0,
        text::trimmed_end(s)[0] == s[0],
    decreases s.len(),
{
    if text::is_space(s.last()) {
        assert(s.len() > 1);
        lemma_trimmed_begins(s.drop_last());
    }
}

/// A reader accepts a command that it understood and passed on; it says which of the two failed, and stops
/// listening where nobody takes its commands.
pub proof fn law_readers_answer(delivered: bool)
    ensures
        listener_reply(true, true) == ("ok\n"@, false),
        listener_reply(false, delivered) == ("error unknown command\n"@, false),
        listener_reply(true, false) == ("error channel closed\n"@, true),
{
}

/// Nothing is said of an answer that accepts; silence and refusals are told, the refusal with its reason.
pub proof fn law_answers_are_told(reason: Seq<char>)
    requires
        reason.len() > 0,
        !text::is_space(reason[0]),
        !text::is_space(reason.last()),
        reason != "ok"@,
    ensures
        reply_text("ok"@) is None,
        reply_text(Seq::empty()) == Some(
            "SyncTeX listener closed without acknowledging the command"@,
        ),
        reply_text(reason) == Some("SyncTeX listener error: "@ + reason),
        error_text(SyncTexError::Decompress, reason) == "Failed to decompress synctex file: "@ + reason,
        error_text(SyncTexError::Read, reason) == "Failed to read synctex file: "@ + reason,
{
    reveal_strlit("ok");
    assert(text::trimmed(reason) == reason);
    assert(text::trimmed("ok"@) == "ok"@);
    assert(text::trimmed(Seq::<char>::empty()) =~= Seq::<char>::empty());
}

/// The socket of a document is named after the first sixteen characters of its name, with everything but
/// letters and digits made hyphens, and after its full path.
pub proof fn law_sockets_are_named(
    dir: Seq<char>,
    stem: Seq<char>,
    ext: Seq<char>,
    identity: Seq<char>,
    c: char,
)
    requires
        is_stem(stem),
        is_extension(ext),
    ensures
        ({
            let name = if stem.len() > 16 {
                stem.take(16)
            } else {
                stem
            };
            let bytes = vstd::utf8::encode_utf8(identity);
            socket_name(below(dir, dotted(stem, ext)), identity) =~= "bookokrat-stx-"@ + name.map_values(
                |c: char| safe_char(c),
            ) + "-"@ + text::hex(path_hash(bytes, bytes.len()) as nat, 16) + ".sock"@
        }),
        97 <= c as int <= 122 || 65 <= c as int <= 90 || 48 <= c as int <= 57 ==> safe_char(c) == c,
        !(97 <= c as int <= 122 || 65 <= c as int <= 90 || 48 <= c as int <= 57) ==> safe_char(c) == '-',
{
    let plain = seq!['a'];
    assert(plain[0] == 'a' && plain.len() == 1);
    assert(seq!['.'][0] == '.' && seq!['.', '.'].len() == 2);
    law_stem_and_extension(dir, stem, ext, plain);
}

/// A file whose name says so is decompressed, any other is read as text, and what cannot be is an error.
pub proof fn law_files_are_read(path: Seq<char>, bytes: Seq<u8>, content: Seq<char>)
    ensures
        ({
            let packed = path + ".synctex.gz"@;
            &&& gunzipped(bytes) is None ==> file_text(packed, bytes) == Err::<Seq<char>, SyncTexError>(
                SyncTexError::Decompress,
            )
            &&& gunzipped(bytes) == Some(content) ==> file_text(packed, bytes) == Ok::<
                Seq<char>,
                SyncTexError,
            >(content)
            &&& path.len() > 0 && path.last() != 'z' ==> file_text(
                path,
                vstd::utf8::encode_utf8(content),
            ) == Ok::<Seq<char>, SyncTexError>(content)
            &&& path.len() > 0 && path.last() != 'z' && !vstd::utf8::valid_utf8(bytes) ==> file_text(
                path,
                bytes,
            ) == Err::<Seq<char>, SyncTexError>(SyncTexError::Read)
        }),
{
    reveal_strlit(".synctex.gz");
    let gz = ".synctex.gz"@;
    let packed = path + gz;
    assert(packed.subrange(packed.len() - gz.len(), packed.len() as int) =~= gz);
    if ends(path, gz) {
        assert(path.subrange(path.len() - gz.len(), path.len() as int).last() == gz.last());
    }
    vstd::utf8::encode_utf8_valid_utf8(content);
    vstd::utf8::encode_utf8_decode_utf8(content);
}

} // verus!
