//! The pages that an entry of a document's table of contents covers.
use vstd::prelude::*;
use vstd::string::*;

use crate::main_app::chapters::{number_after, number_behind, page_of_printed};
use crate::main_app::state::{NotificationLevel, Notice};
use crate::text;
use crate::text::{begins, decimal, trimmed};

verus! {

/// Where an entry of the document leads.
#[derive(Clone, Copy, Debug, PartialEq, Eq, Structural)]
pub enum TocTarget {
    InternalPage(usize),
    /// A page by its printed number, and the page on which that number was seen, if any.
    PrintedPage { printed: usize, seen: Option<usize> },
    External,
}

/// An entry of the document, in reading order.
pub struct TocEntry {
    pub title: String,
    pub target: TocTarget,
}

/// An entry as it is listed, with the page that its link leads to.
pub enum PdfTocItem {
    Chapter { title: String, page: Option<usize> },
    Section { title: String, page: Option<usize>, children: Vec<PdfTocItem> },
}

impl PdfTocItem {
    /// The page that the entry leads to.
    pub open spec fn start(self) -> Option<usize> {
        match self {
            PdfTocItem::Chapter { title, page } => page,
            PdfTocItem::Section { title, page, children } => page,
        }
    }

    /// The title of the entry.
    pub open spec fn heading(self) -> Seq<char> {
        match self {
            PdfTocItem::Chapter { title, page } => title@,
            PdfTocItem::Section { title, page, children } => title@,
        }
    }

    fn start_page(&self) -> (r: Option<usize>)
        ensures
            r == self.start(),
    {
        match self {
            PdfTocItem::Chapter { title: _, page } => *page,
            PdfTocItem::Section { title: _, page, children: _ } => *page,
        }
    }

    fn title(&self) -> (r: &String)
        ensures
            r@ == self.heading(),
    {
        match self {
            PdfTocItem::Chapter { title, page: _ } => title,
            PdfTocItem::Section { title, page: _, children: _ } => title,
        }
    }
}

/// The page that a link of the list leads to; `seen` is the page on which its printed number was
/// seen.
pub open spec fn listed_page(
    href: Option<Seq<char>>,
    seen: Option<usize>,
    page_count: usize,
) -> Option<usize> {
    match href {
        None => None,
        Some(h) => if begins(h, "pdf:page:"@) {
            match number_after(h, "pdf:page:"@) {
                Some(n) => Some(n as usize),
                None => None,
            }
        } else if begins(h, "pdf:printed:"@) {
            match number_after(h, "pdf:printed:"@) {
                Some(n) => page_of_printed(n as int, seen, page_count),
                None => None,
            }
        } else {
            None
        },
    }
}

fn printed_page(printed: usize, seen: Option<usize>, page_count: usize) -> (r: Option<usize>)
    ensures
        r == page_of_printed(printed as int, seen, page_count),
{
    match seen {
        Some(p) => Some(p),
        None => if 1 <= printed && printed <= page_count {
            Some(printed - 1)
        } else {
            None
        },
    }
}

/// The page that a link of the list leads to.
pub fn parse_page_from_href(href: &Option<String>, seen: Option<usize>, page_count: usize) -> (r:
    Option<usize>)
    ensures
        r == listed_page(text::option_view(*href), seen, page_count),
{
    match href {
        None => None,
        Some(h) => {
            if text::starts_with(h.as_str(), "pdf:page:") {
                number_behind(h.as_str(), "pdf:page:")
            } else if text::starts_with(h.as_str(), "pdf:printed:") {
                match number_behind(h.as_str(), "pdf:printed:") {
                    Some(n) => printed_page(n, seen, page_count),
                    None => None,
                }
            } else {
                None
            }
        },
    }
}

/// The page that an entry of the document leads to.
pub open spec fn target_page(target: TocTarget, page_count: usize) -> Option<usize> {
    match target {
        TocTarget::InternalPage(page) => Some(page),
        TocTarget::PrintedPage { printed, seen } => page_of_printed(
            printed as int,
            seen,
            page_count,
        ),
        TocTarget::External => None,
    }
}

fn page_of_target(target: TocTarget, page_count: usize) -> (r: Option<usize>)
    ensures
        r == target_page(target, page_count),
{
    match target {
        TocTarget::InternalPage(page) => Some(page),
        TocTarget::PrintedPage { printed, seen } => printed_page(printed, seen, page_count),
        TocTarget::External => None,
    }
}

/// The first entry from `i` on that leads to a page, under a title where one is given.
pub open spec fn entry_at(
    entries: Seq<TocEntry>,
    i: int,
    page: usize,
    title: Option<Seq<char>>,
    page_count: usize,
) -> Option<int>
    decreases entries.len() - i,
{
    if i < 0 || i >= entries.len() {
        None
    } else if target_page(entries[i].target, page_count) == Some(page) && (title is None || trimmed(
        entries[i].title@,
    ) == title->0) {
        Some(i)
    } else {
        entry_at(entries, i + 1, page, title, page_count)
    }
}

/// The entry of the document that a listed entry is: by page and title, else by page alone.
pub open spec fn entry_index(
    entries: Seq<TocEntry>,
    page: usize,
    title: Seq<char>,
    page_count: usize,
) -> Option<int> {
    match entry_at(entries, 0, page, Some(trimmed(title)), page_count) {
        Some(i) => Some(i),
        None => entry_at(entries, 0, page, None, page_count),
    }
}

/// The first page beyond `start` that an entry from `i` on leads to.
pub open spec fn page_beyond(
    entries: Seq<TocEntry>,
    i: int,
    start: usize,
    page_count: usize,
) -> Option<usize>
    decreases entries.len() - i,
{
    if i < 0 || i >= entries.len() {
        None
    } else {
        match target_page(entries[i].target, page_count) {
            Some(page) => if page > start {
                Some(page)
            } else {
                page_beyond(entries, i + 1, start, page_count)
            },
            None => page_beyond(entries, i + 1, start, page_count),
        }
    }
}

/// Where the pages of an entry end: before the next entry of the document that leads further, or
/// with the document.
pub open spec fn end_of(
    entries: Seq<TocEntry>,
    start: usize,
    title: Seq<char>,
    page_count: usize,
) -> usize {
    let next = match entry_index(entries, start, title, page_count) {
        Some(i) => page_beyond(entries, i + 1, start, page_count),
        None => None,
    };
    match next {
        Some(page) => page,
        None => page_count,
    }
}

/// The page of the first child from `i` on that leads to one.
pub open spec fn first_child_page(children: Seq<PdfTocItem>, i: int) -> Option<usize>
    decreases children.len() - i,
{
    if i < 0 || i >= children.len() {
        None
    } else {
        match children[i].start() {
            Some(p) => Some(p),
            None => first_child_page(children, i + 1),
        }
    }
}

/// Whether an entry covers a page: from its own up to that of the next entry. A section covers what
/// stands before its first child, and what its children cover.
pub open spec fn covers(
    item: PdfTocItem,
    page: usize,
    entries: Seq<TocEntry>,
    page_count: usize,
) -> bool
    decreases item, 0nat,
{
    match item {
        PdfTocItem::Chapter { title, page: first } => match first {
            Some(start) => start <= page < end_of(entries, start, title@, page_count),
            None => false,
        },
        PdfTocItem::Section { title, page: first, children } => {
            ||| (match first {
                Some(start) => start <= page < (match first_child_page(children@, 0) {
                    Some(p) => p,
                    None => end_of(entries, start, title@, page_count),
                }),
                None => false,
            })
            ||| any_covers(children@, children@.len(), page, entries, page_count)
        },
    }
}

/// Whether one of the first `n` entries covers a page.
pub open spec fn any_covers(
    items: Seq<PdfTocItem>,
    n: nat,
    page: usize,
    entries: Seq<TocEntry>,
    page_count: usize,
) -> bool
    decreases items, n,
{
    if n == 0 || n > items.len() {
        false
    } else {
        any_covers(items, (n - 1) as nat, page, entries, page_count) || covers(
            items[n - 1],
            page,
            entries,
            page_count,
        )
    }
}

/// Whether pages stand in order, none of them twice.
pub open spec fn increasing(v: Seq<usize>) -> bool {
    forall|i: int, j: int| 0 <= i < j < v.len() ==> v[i] < v[j]
}

fn find_entry(
    entries: &Vec<TocEntry>,
    page: usize,
    title: &Option<String>,
    page_count: usize,
) -> (r: Option<usize>)
    ensures
        match r {
            Some(i) => i < entries@.len() && entry_at(
                entries@,
                0,
                page,
                text::option_view(*title),
                page_count,
            ) == Some(i as int),
            None => entry_at(entries@, 0, page, text::option_view(*title), page_count) is None,
        },
{
    let ghost t = text::option_view(*title);
    let mut i: usize = 0;
    while i < entries.len()
        invariant
            i <= entries@.len(),
            t == text::option_view(*title),
            entry_at(entries@, 0, page, t, page_count) == entry_at(
                entries@,
                i as int,
                page,
                t,
                page_count,
            ),
        decreases entries@.len() - i,
    {
        let there = match page_of_target(entries[i].target, page_count) {
            Some(p) => p == page,
            None => false,
        };
        if there {
            let named = match title {
                Some(s) => {
                    let own = text::trim_str(entries[i].title.as_str());
                    text::same(own.as_str(), s.as_str())
                },
                None => true,
            };
            if named {
                return Some(i);
            }
        }
        i += 1;
    }
    None
}

fn find_end(entries: &Vec<TocEntry>, start: usize, title: &str, page_count: usize) -> (r: usize)
    ensures
        r == end_of(entries@, start, title@, page_count),
{
    let wanted = Some(text::trim_str(title));
    let at = match find_entry(entries, start, &wanted, page_count) {
        Some(i) => Some(i),
        None => {
            let any: Option<String> = None;
            find_entry(entries, start, &any, page_count)
        },
    };
    let total: usize = entries.len();
    match at {
        None => page_count,
        Some(found) => {
            let mut i: usize = found + 1;
            while i < total
                invariant
                    found < i <= total,
                    total == entries@.len(),
                    entry_index(entries@, start, title@, page_count) == Some(found as int),
                    page_beyond(entries@, found + 1, start, page_count) == page_beyond(
                        entries@,
                        i as int,
                        start,
                        page_count,
                    ),
                decreases entries@.len() - i,
            {
                if let Some(page) = page_of_target(entries[i].target, page_count) {
                    if page > start {
                        return page;
                    }
                }
                i += 1;
            }
            page_count
        },
    }
}

fn pages_between(from: usize, to: usize) -> (r: Vec<usize>)
    ensures
        increasing(r@),
        forall|p: usize| #[trigger] r@.contains(p) <==> from <= p < to,
{
    let mut r: Vec<usize> = Vec::new();
    let mut p: usize = from;
    while p < to
        invariant
            from <= p,
            from <= to ==> p <= to,
            from > to ==> p == from,
            r@.len() == p - from,
            forall|i: int| 0 <= i < r@.len() ==> #[trigger] r@[i] == from + i,
        decreases to - p,
    {
        r.push(p);
        p += 1;
    }
    assert forall|q: usize| r@.contains(q) <==> from <= q < to by {
        if from <= q < to {
            assert(r@[q - from] == q);
        }
        if r@.contains(q) {
            let k = choose|k: int| 0 <= k < r@.len() && r@[k] == q;
            assert(r@[k] == from + k);
        }
    }
    r
}

/// The pages of two lists, in order.
pub fn merge_pages(a: &Vec<usize>, b: &Vec<usize>) -> (r: Vec<usize>)
    requires
        increasing(a@),
        increasing(b@),
    ensures
        increasing(r@),
        forall|p: usize| #[trigger] r@.contains(p) <==> a@.contains(p) || b@.contains(p),
{
    let mut r: Vec<usize> = Vec::new();
    let mut i: usize = 0;
    let mut j: usize = 0;
    while i < a.len() || j < b.len()
        invariant
            i <= a@.len(),
            j <= b@.len(),
            increasing(a@),
            increasing(b@),
            increasing(r@),
            forall|k: int, m: int|
                0 <= k < r@.len() && i <= m < a@.len() ==> #[trigger] r@[k] < #[trigger] a@[m],
            forall|k: int, m: int|
                0 <= k < r@.len() && j <= m < b@.len() ==> #[trigger] r@[k] < #[trigger] b@[m],
            forall|m: int| 0 <= m < i ==> r@.contains(#[trigger] a@[m]),
            forall|m: int| 0 <= m < j ==> r@.contains(#[trigger] b@[m]),
            forall|k: int|
                0 <= k < r@.len() ==> a@.contains(#[trigger] r@[k]) || b@.contains(r@[k]),
        decreases a@.len() - i + b@.len() - j,
    {
        let ghost before = r@;
        let ghost (i0, j0) = (i as int, j as int);
        let from_a = i < a.len() && (j >= b.len() || a[i] <= b[j]);
        let from_b = j < b.len() && (i >= a.len() || b[j] <= a[i]);
        let p = if from_a {
            a[i]
        } else {
            b[j]
        };
        r.push(p);
        if from_a {
            i += 1;
        }
        if from_b {
            j += 1;
        }
        proof {
            assert forall|k: int| 0 <= k < r@.len() implies a@.contains(#[trigger] r@[k])
                || b@.contains(r@[k]) by {
                if k < before.len() {
                    assert(r@[k] == before[k]);
                } else if from_a {
                    assert(a@[i0] == p);
                } else {
                    assert(b@[j0] == p);
                }
            }
            assert forall|m: int| 0 <= m < i implies r@.contains(#[trigger] a@[m]) by {
                if m < i0 {
                    assert(before.contains(a@[m]));
                    let k = choose|k: int| 0 <= k < before.len() && before[k] == a@[m];
                    assert(r@[k] == a@[m]);
                } else {
                    assert(r@[before.len() as int] == a@[m]);
                }
            }
            assert forall|m: int| 0 <= m < j implies r@.contains(#[trigger] b@[m]) by {
                if m < j0 {
                    assert(before.contains(b@[m]));
                    let k = choose|k: int| 0 <= k < before.len() && before[k] == b@[m];
                    assert(r@[k] == b@[m]);
                } else {
                    assert(r@[before.len() as int] == b@[m]);
                }
            }
        }
    }
    proof {
        assert forall|p: usize| r@.contains(p) <==> a@.contains(p) || b@.contains(p) by {
            if r@.contains(p) {
                let k = choose|k: int| 0 <= k < r@.len() && r@[k] == p;
                assert(a@.contains(r@[k]) || b@.contains(r@[k]));
            }
            if a@.contains(p) {
                let m = choose|m: int| 0 <= m < a@.len() && a@[m] == p;
                assert(r@.contains(a@[m]));
            }
            if b@.contains(p) {
                let m = choose|m: int| 0 <= m < b@.len() && b@[m] == p;
                assert(r@.contains(b@[m]));
            }
        }
    }
    r
}

fn child_page(children: &Vec<PdfTocItem>) -> (r: Option<usize>)
    ensures
        r == first_child_page(children@, 0),
{
    let mut i: usize = 0;
    while i < children.len()
        invariant
            i <= children@.len(),
            first_child_page(children@, 0) == first_child_page(children@, i as int),
        decreases children@.len() - i,
    {
        let p = children[i].start_page();
        if p.is_some() {
            return p;
        }
        i += 1;
    }
    None
}

/// The pages that an entry covers, in order.
pub fn collect_toc_item_pages(
    toc_item: &PdfTocItem,
    entries: &Vec<TocEntry>,
    page_count: usize,
) -> (r: Vec<usize>)
    ensures
        increasing(r@),
        forall|p: usize| #[trigger] r@.contains(p) <==> covers(*toc_item, p, entries@, page_count),
    decreases *toc_item,
{
    match toc_item {
        PdfTocItem::Chapter { title, page } => {
            match page {
                Some(start) => {
                    let end = find_end(entries, *start, title.as_str(), page_count);
                    pages_between(*start, end)
                },
                None => pages_between(0, 0),
            }
        },
        PdfTocItem::Section { title, page, children } => {
            let mut pages = match page {
                Some(start) => {
                    let end = match child_page(children) {
                        Some(p) => p,
                        None => find_end(entries, *start, title.as_str(), page_count),
                    };
                    pages_between(*start, end)
                },
                None => pages_between(0, 0),
            };
            let ghost own = pages@;
            let mut i: usize = 0;
            while i < children.len()
                invariant
                    i <= children@.len(),
                    increasing(pages@),
                    forall|p: usize| #[trigger]
                        pages@.contains(p) <==> own.contains(p) || any_covers(
                            children@,
                            i as nat,
                            p,
                            entries@,
                            page_count,
                        ),
                    decreases_to!(*toc_item => children),
                decreases children@.len() - i,
            {
                assert(decreases_to!(children => children@[i as int]));
                let more = collect_toc_item_pages(&children[i], entries, page_count);
                let all = merge_pages(&pages, &more);
                proof {
                    let ghost kids = children@;
                    assert forall|p: usize| all@.contains(p) <==> own.contains(p) || any_covers(
                        kids,
                        (i + 1) as nat,
                        p,
                        entries@,
                        page_count,
                    ) by {
                        assert(any_covers(kids, (i + 1) as nat, p, entries@, page_count) == (
                        any_covers(kids, i as nat, p, entries@, page_count) || covers(
                            kids[i as int],
                            p,
                            entries@,
                            page_count,
                        )));
                        assert(all@.contains(p) <==> pages@.contains(p) || more@.contains(p));
                        assert(more@.contains(p) <==> covers(
                            kids[i as int],
                            p,
                            entries@,
                            page_count,
                        ));
                        assert(pages@.contains(p) <==> own.contains(p) || any_covers(
                            kids,
                            i as nat,
                            p,
                            entries@,
                            page_count,
                        ));
                    }
                }
                pages = all;
                i += 1;
            }
            pages
        },
    }
}

// ---------------------------------------------------------------------------------------------
// Copying
// ---------------------------------------------------------------------------------------------
/// What copying the selected entry comes to.
pub enum TocCopy {
    NoItem,
    NoPages,
    Extract { pages: Vec<usize>, message: String },
}

/// How the pages are counted in the message.
pub open spec fn page_info(pages: Seq<usize>) -> Seq<char> {
    if pages.len() == 1 {
        "page "@ + decimal((pages[0] + 1) as nat)
    } else {
        decimal(pages.len()) + " pages"@
    }
}

/// The message while the text is being extracted.
pub open spec fn extract_message(title: Seq<char>, pages: Seq<usize>) -> Seq<char> {
    "Extracting \""@ + title + "\" ("@ + page_info(pages) + ")..."@
}

fn info_of(pages: &Vec<usize>) -> (r: String)
    requires
        pages@.len() == 1 ==> pages@[0] < usize::MAX,
    ensures
        r@ == page_info(pages@),
{
    if pages.len() == 1 {
        let mut s = text::copy("page ");
        let n = text::decimal_of(pages[0] as u64 + 1);
        s.append(n.as_str());
        s
    } else {
        let mut s = text::decimal_of(pages.len() as u64);
        s.append(" pages");
        s
    }
}

proof fn lemma_covered_is_small(
    item: PdfTocItem,
    page: usize,
    entries: Seq<TocEntry>,
    page_count: usize,
)
    requires
        covers(item, page, entries, page_count),
    ensures
        page < usize::MAX,
    decreases item, 0nat,
{
    if let PdfTocItem::Section { title, page: first, children } = item {
        if any_covers(children@, children@.len(), page, entries, page_count) {
            lemma_any_covered_is_small(children@, children@.len(), page, entries, page_count);
        }
    }
}

proof fn lemma_any_covered_is_small(
    items: Seq<PdfTocItem>,
    n: nat,
    page: usize,
    entries: Seq<TocEntry>,
    page_count: usize,
)
    requires
        any_covers(items, n, page, entries, page_count),
    ensures
        page < usize::MAX,
    decreases items, n,
{
    if covers(items[n - 1], page, entries, page_count) {
        lemma_covered_is_small(items[n - 1], page, entries, page_count);
    } else {
        lemma_any_covered_is_small(items, (n - 1) as nat, page, entries, page_count);
    }
}

/// What copying the selected entry comes to: the text of all pages that it covers is extracted.
pub fn copy_pdf_toc_selection(
    selected: &Option<PdfTocItem>,
    entries: &Vec<TocEntry>,
    page_count: usize,
) -> (r: TocCopy)
    ensures
        r is NoItem <==> selected is None,
        selected matches Some(item) ==> match r {
            TocCopy::NoItem => false,
            TocCopy::NoPages => forall|p: usize| !covers(*item, p, entries@, page_count),
            TocCopy::Extract { pages, message } => {
                &&& pages@.len() > 0
                &&& increasing(pages@)
                &&& forall|p: usize| pages@.contains(p) <==> covers(*item, p, entries@, page_count)
                &&& message@ == extract_message(item.heading(), pages@)
            },
        },
{
    match selected {
        None => TocCopy::NoItem,
        Some(item) => {
            let pages = collect_toc_item_pages(item, entries, page_count);
            if pages.len() == 0 {
                proof {
                    assert forall|p: usize| !covers(*item, p, entries@, page_count) by {
                        assert(!pages@.contains(p));
                    }
                }
                return TocCopy::NoPages;
            }
            proof {
                assert(pages@.contains(pages@[0]));
                lemma_covered_is_small(*item, pages@[0], entries@, page_count);
            }
            let info = info_of(&pages);
            let mut message = text::copy("Extracting \"");
            message.append(item.title().as_str());
            message.append("\" (");
            message.append(info.as_str());
            message.append(")...");
            TocCopy::Extract { pages, message }
        },
    }
}

/// What is told where nothing can be copied.
pub open spec fn copy_refusal(copy: TocCopy) -> Option<(NotificationLevel, Notice)> {
    match copy {
        TocCopy::NoItem => Some((NotificationLevel::Warning, Notice::NoTocItem)),
        TocCopy::NoPages => Some((NotificationLevel::Warning, Notice::NoTocPages)),
        TocCopy::Extract { .. } => None,
    }
}

/// What is told where nothing can be copied.
pub fn copy_refusal_of(copy: &TocCopy) -> (r: Option<(NotificationLevel, Notice)>)
    ensures
        r == copy_refusal(*copy),
{
    match copy {
        TocCopy::NoItem => Some((NotificationLevel::Warning, Notice::NoTocItem)),
        TocCopy::NoPages => Some((NotificationLevel::Warning, Notice::NoTocPages)),
        TocCopy::Extract { .. } => None,
    }
}

/// A chapter covers its own page as long as the document has it.
pub proof fn law_chapter_covers_its_page(
    title: String,
    start: usize,
    entries: Seq<TocEntry>,
    page_count: usize,
)
    requires
        start < page_count,
    ensures
        covers(
            (PdfTocItem::Chapter { title, page: Some(start) }),
            start,
            entries,
            page_count,
        ),
{
    if let Some(i) = entry_index(entries, start, title@, page_count) {
        lemma_page_beyond(entries, i + 1, start, page_count);
    }
}

proof fn lemma_page_beyond(entries: Seq<TocEntry>, i: int, start: usize, page_count: usize)
    ensures
        page_beyond(entries, i, start, page_count) matches Some(p) ==> p > start,
    decreases entries.len() - i,
{
    if 0 <= i < entries.len() {
        lemma_page_beyond(entries, i + 1, start, page_count);
    }
}

} // verus!
