//! The library: which books there are, in which order they are listed, and how a book that is not
//! an EPUB archive is made into one.
use vstd::prelude::*;
use vstd::string::*;

use crate::markup::{nesting, nesting_of};
use crate::paths;
use crate::text;
use crate::text::{lowercased, occurs, option_view, replaced, text_lt, texts, trimmed};

verus! {

// ---------------------------------------------------------------------------------------------
// Books
// ---------------------------------------------------------------------------------------------
/// How a library is laid out.
#[derive(Clone, Copy, PartialEq, Eq, Debug, Structural)]
pub enum LibraryMode {
    Standard,
    Calibre,
}

/// Format of a book file.
#[derive(Clone, Copy, Debug, PartialEq, Eq, Structural)]
pub enum BookFormat {
    Epub,
    Html,
    Pdf,
    Djvu,
}

/// The order in which books are listed.
#[derive(Clone, Copy, Debug, PartialEq, Eq, Structural)]
pub enum BookSortOrder {
    ByName,
    ByType,
}

/// A book of the library.
pub struct BookInfo {
    pub path: String,
    pub display_name: String,
    pub format: BookFormat,
}

/// A book of the library, as it is spoken of.
pub struct BookView {
    pub path: Seq<char>,
    pub display_name: Seq<char>,
    pub format: BookFormat,
}

impl View for BookInfo {
    type V = BookView;

    open spec fn view(&self) -> BookView {
        BookView { path: self.path@, display_name: self.display_name@, format: self.format }
    }
}

/// The books that a vector of them holds.
pub open spec fn book_views(v: Seq<BookInfo>) -> Seq<BookView> {
    v.map_values(|b: BookInfo| b@)
}

impl BookInfo {
    /// Another record of the same book.
    pub fn copy(&self) -> (r: BookInfo)
        ensures
            r@ == self@,
    {
        BookInfo {
            path: text::copy(self.path.as_str()),
            display_name: text::copy(self.display_name.as_str()),
            format: self.format,
        }
    }
}

/// A file found in a library.
pub struct FoundFile {
    pub path: String,
    /// The description that a Calibre library keeps beside the file.
    pub opf: Option<String>,
}

/// What was found in the directory of a library.
pub struct Listing {
    /// Whether the directory holds the database of a Calibre library.
    pub has_metadata_db: bool,
    pub files: Vec<FoundFile>,
}

/// How deep the files of a Calibre library lie: author, book, file.
pub const CALIBRE_DEPTH: usize = 3;

/// The books of a directory.
pub struct BookManager {
    pub books: Vec<BookInfo>,
    pub scan_directory: String,
    pub library_mode: LibraryMode,
    pub supports_graphics: bool,
}

// ---------------------------------------------------------------------------------------------
// Formats and names
// ---------------------------------------------------------------------------------------------
/// The format of files with the given extension, in lower case.
pub open spec fn extension_format(ext: Seq<char>) -> Option<BookFormat> {
    if ext == "epub"@ {
        Some(BookFormat::Epub)
    } else if ext == "html"@ || ext == "htm"@ {
        Some(BookFormat::Html)
    } else if ext == "pdf"@ {
        Some(BookFormat::Pdf)
    } else if ext == "djvu"@ || ext == "djv"@ {
        Some(BookFormat::Djvu)
    } else {
        None
    }
}

/// The format of a file by its extension, whatever its case.
pub open spec fn detected(path: Seq<char>) -> Option<BookFormat> {
    match paths::extension_of(path) {
        Some(ext) => extension_format(lowercased(ext)),
        None => None,
    }
}

/// The format of files with the given extension, in lower case.
pub fn format_of_extension(ext: &str) -> (r: Option<BookFormat>)
    ensures
        r == extension_format(ext@),
{
    if text::same(ext, "epub") {
        Some(BookFormat::Epub)
    } else if text::same(ext, "html") || text::same(ext, "htm") {
        Some(BookFormat::Html)
    } else if text::same(ext, "pdf") {
        Some(BookFormat::Pdf)
    } else if text::same(ext, "djvu") || text::same(ext, "djv") {
        Some(BookFormat::Djvu)
    } else {
        None
    }
}

/// The name under which a file is listed: with its extension where it is an HTML file.
pub open spec fn display_name(path: Seq<char>) -> Seq<char> {
    let shown = if detected(path) == Some(BookFormat::Html) {
        paths::name_of(path)
    } else {
        paths::stem_of(path)
    };
    match shown {
        Some(s) => s,
        None => Seq::empty(),
    }
}

/// The name under which a file is listed.
pub fn extract_display_name(file_path: &str) -> (r: String)
    ensures
        r@ == display_name(file_path@),
{
    let cs = text::chars_of(file_path);
    let shown = if BookManager::detect_format(file_path) == Some(BookFormat::Html) {
        paths::file_name(&cs)
    } else {
        paths::file_stem(&cs)
    };
    match shown {
        Some(s) => text::string_of(&s),
        None => {
            let r = String::new();
            assert(r@ =~= Seq::<char>::empty());
            r
        },
    }
}

// ---------------------------------------------------------------------------------------------
// Descriptions of books
// ---------------------------------------------------------------------------------------------
/// A node of an XML document: the local name of its tag, and its text.
pub struct XmlNode {
    pub name: String,
    pub text: Option<String>,
}

/// The nodes that a vector of them holds.
pub open spec fn node_views(v: Seq<XmlNode>) -> Seq<(Seq<char>, Option<Seq<char>>)> {
    v.map_values(
        |n: XmlNode| (n.name@, option_view(n.text)),
    )
}

/// The nodes of an XML document in document order, each with the local name of its tag and its
/// text; none where the text is no XML document.
pub uninterp spec fn xml_nodes(content: Seq<char>) -> Option<
    Seq<(Seq<char>, Option<Seq<char>>)>,
>;

/// How deep the elements of a description may be nested.
pub const MAX_NESTING: usize = 256;

/// `roxmltree::Document::parse` reads the text, and `descendants` walks the document; of each node
/// the local tag name and the text are taken over. What the text comes to is only named here. The
/// parser calls itself for each element within another, so the nesting is bounded.
#[verifier::external_body]
fn parse_xml(content: &str) -> (r: Option<Vec<XmlNode>>)
    requires
        nesting(content@) <= MAX_NESTING,
    ensures
        match r {
            Some(v) => xml_nodes(content@) == Some(node_views(v@)),
            None => xml_nodes(content@) is None,
        },
{
    let doc = roxmltree::Document::parse(content).ok()?;
    let mut nodes = Vec::new();
    for node in doc.descendants() {
        let name = node.tag_name().name().to_string();
        nodes.push(XmlNode { name, text: node.text().map(str::to_string) });
    }
    Some(nodes)
}

/// The text of the first node from `i` on that has the given tag and a text, trimmed.
pub open spec fn first_text(
    nodes: Seq<(Seq<char>, Option<Seq<char>>)>,
    tag: Seq<char>,
    i: int,
) -> Option<Seq<char>>
    decreases nodes.len() - i,
{
    if i < 0 || i >= nodes.len() {
        None
    } else if nodes[i].0 == tag && nodes[i].1 is Some {
        Some(trimmed(nodes[i].1->0))
    } else {
        first_text(nodes, tag, i + 1)
    }
}

/// The name that a description gives a book: its title, and its author where there is one.
pub open spec fn described_name(nodes: Seq<(Seq<char>, Option<Seq<char>>)>) -> Option<Seq<char>> {
    match first_text(nodes, "title"@, 0) {
        None => None,
        Some(title) => match first_text(nodes, "creator"@, 0) {
            Some(author) => if author.len() > 0 {
                Some(title + " - "@ + author)
            } else {
                Some(title)
            },
            None => Some(title),
        },
    }
}

fn text_of_tag(nodes: &Vec<XmlNode>, tag: &str) -> (r: Option<String>)
    ensures
        match r {
            Some(s) => first_text(node_views(nodes@), tag@, 0) == Some(s@),
            None => first_text(node_views(nodes@), tag@, 0) is None,
        },
{
    let mut i: usize = 0;
    while i < nodes.len()
        invariant
            i <= nodes@.len(),
            first_text(node_views(nodes@), tag@, 0) == first_text(
                node_views(nodes@),
                tag@,
                i as int,
            ),
        decreases nodes@.len() - i,
    {
        if text::same(nodes[i].name.as_str(), tag) {
            if let Some(t) = &nodes[i].text {
                return Some(text::trim_str(t.as_str()));
            }
        }
        i += 1;
    }
    None
}

/// The name that the nodes of a description give a book.
pub fn name_from_nodes(nodes: &Vec<XmlNode>) -> (r: Option<String>)
    ensures
        match r {
            Some(s) => described_name(node_views(nodes@)) == Some(s@),
            None => described_name(node_views(nodes@)) is None,
        },
{
    match text_of_tag(nodes, "title") {
        None => None,
        Some(title) => {
            if let Some(author) = text_of_tag(nodes, "creator") {
                let cs = text::chars_of(author.as_str());
                if cs.len() > 0 {
                    let mut s = title;
                    s.append(" - ");
                    s.append(author.as_str());
                    return Some(s);
                }
            }
            Some(title)
        },
    }
}

/// The name that a description gives a book; none where it is nested too deep to be read.
pub open spec fn opf_name(content: Seq<char>) -> Option<Seq<char>> {
    if nesting(content) > MAX_NESTING {
        None
    } else {
        match xml_nodes(content) {
            Some(nodes) => described_name(nodes),
            None => None,
        }
    }
}

/// The name that the description of a Calibre library gives a book.
pub fn parse_calibre_opf(content: &str) -> (r: Option<String>)
    ensures
        match r {
            Some(s) => opf_name(content@) == Some(s@),
            None => opf_name(content@) is None,
        },
{
    if nesting_of(content) > MAX_NESTING {
        return None;
    }
    match parse_xml(content) {
        Some(nodes) => name_from_nodes(&nodes),
        None => None,
    }
}

// ---------------------------------------------------------------------------------------------
// Finding books
// ---------------------------------------------------------------------------------------------
/// The book that a file is. A Calibre library lists no HTML files, and names a book after its
/// description where that has a title.
pub open spec fn book_of(file: FoundFile, mode: LibraryMode) -> Option<BookView> {
    match detected(file.path@) {
        None => None,
        Some(format) => match mode {
            LibraryMode::Standard => Some(
                BookView { path: file.path@, display_name: display_name(file.path@), format },
            ),
            LibraryMode::Calibre => if format == BookFormat::Html {
                None
            } else {
                let described = match file.opf {
                    Some(content) => opf_name(content@),
                    None => None,
                };
                Some(
                    BookView {
                        path: file.path@,
                        display_name: match described {
                            Some(name) => name,
                            None => display_name(file.path@),
                        },
                        format,
                    },
                )
            },
        },
    }
}

/// The books among the first `n` files.
pub open spec fn books_among(files: Seq<FoundFile>, n: nat, mode: LibraryMode) -> Seq<BookView>
    decreases n,
{
    if n == 0 || n > files.len() {
        Seq::empty()
    } else {
        match book_of(files[n - 1], mode) {
            Some(b) => books_among(files, (n - 1) as nat, mode).push(b),
            None => books_among(files, (n - 1) as nat, mode),
        }
    }
}

/// The layout of a library.
pub open spec fn mode_of(listing: Listing) -> LibraryMode {
    if listing.has_metadata_db {
        LibraryMode::Calibre
    } else {
        LibraryMode::Standard
    }
}

fn find_book(file: &FoundFile, mode: LibraryMode) -> (r: Option<BookInfo>)
    ensures
        match r {
            Some(b) => book_of(*file, mode) == Some(b@),
            None => book_of(*file, mode) is None,
        },
{
    match BookManager::detect_format(file.path.as_str()) {
        None => None,
        Some(format) => {
            if mode == LibraryMode::Calibre && format == BookFormat::Html {
                return None;
            }
            let path = text::copy(file.path.as_str());
            if mode == LibraryMode::Calibre {
                if let Some(content) = &file.opf {
                    if let Some(name) = parse_calibre_opf(content.as_str()) {
                        return Some(BookInfo { path, display_name: name, format });
                    }
                }
            }
            let name = extract_display_name(file.path.as_str());
            Some(BookInfo { path, display_name: name, format })
        },
    }
}

fn discover_books(files: &Vec<FoundFile>, mode: LibraryMode) -> (r: Vec<BookInfo>)
    ensures
        book_views(r@) == books_among(files@, files@.len(), mode),
{
    let mut r: Vec<BookInfo> = Vec::new();
    let mut i: usize = 0;
    assert(book_views(r@) =~= books_among(files@, 0, mode));
    while i < files.len()
        invariant
            i <= files@.len(),
            book_views(r@) == books_among(files@, i as nat, mode),
        decreases files@.len() - i,
    {
        let ghost before = r@;
        if let Some(b) = find_book(&files[i], mode) {
            r.push(b);
            assert(book_views(before.push(b)) =~= book_views(before).push(b@));
        }
        i += 1;
    }
    r
}

// ---------------------------------------------------------------------------------------------
// Order
// ---------------------------------------------------------------------------------------------
/// What an item is sorted by: a rank, then a text.
pub struct SortKey {
    pub rank: u8,
    pub name: String,
}

impl View for SortKey {
    type V = (u8, Seq<char>);

    open spec fn view(&self) -> (u8, Seq<char>) {
        (self.rank, self.name@)
    }
}

/// The keys that a vector of them holds.
pub open spec fn key_views(v: Seq<SortKey>) -> Seq<(u8, Seq<char>)> {
    v.map_values(|k: SortKey| k@)
}

/// Whether one key comes before another.
pub open spec fn key_lt(a: (u8, Seq<char>), b: (u8, Seq<char>)) -> bool {
    a.0 < b.0 || (a.0 == b.0 && text_lt(a.1, b.1))
}

/// Whether item `a` is listed before item `b`: by its key, and among equal keys by its place.
pub open spec fn listed_before(keys: Seq<(u8, Seq<char>)>, a: int, b: int) -> bool {
    key_lt(keys[a], keys[b]) || (!key_lt(keys[b], keys[a]) && a < b)
}

/// Whether `order` lists every item once, in the order of the keys, equal ones as they stood.
pub open spec fn is_order(keys: Seq<(u8, Seq<char>)>, order: Seq<usize>) -> bool {
    &&& order.len() == keys.len()
    &&& forall|i: int| 0 <= i < order.len() ==> (#[trigger] order[i]) < keys.len()
    &&& forall|k: int| 0 <= k < keys.len() ==> order.contains(#[trigger] (k as usize))
    &&& forall|i: int, j: int|
        0 <= i < j < order.len() ==> listed_before(
            keys,
            #[trigger] order[i] as int,
            #[trigger] order[j] as int,
        )
}

proof fn lemma_texts_chain(a: Seq<char>, b: Seq<char>, c: Seq<char>)
    ensures
        text_lt(a, b) && text_lt(b, c) ==> text_lt(a, c),
{
    if text_lt(a, b) && text_lt(b, c) {
        text::lemma_text_order_transitive(a, b, c);
    }
}

proof fn lemma_key_order(a: (u8, Seq<char>), b: (u8, Seq<char>), c: (u8, Seq<char>))
    ensures
        !(key_lt(a, b) && key_lt(b, a)),
        key_lt(a, b) && key_lt(b, c) ==> key_lt(a, c),
        !key_lt(b, a) && !key_lt(c, b) ==> !key_lt(c, a),
        !key_lt(b, a) && key_lt(b, c) ==> key_lt(a, c),
        key_lt(a, b) && !key_lt(c, b) ==> key_lt(a, c),
{
    text::lemma_text_order_total(a.1, b.1);
    text::lemma_text_order_total(b.1, c.1);
    text::lemma_text_order_total(a.1, c.1);
    lemma_texts_chain(a.1, b.1, c.1);
    lemma_texts_chain(c.1, b.1, a.1);
    lemma_texts_chain(b.1, a.1, c.1);
    lemma_texts_chain(a.1, c.1, b.1);
    lemma_texts_chain(b.1, c.1, a.1);
    lemma_texts_chain(c.1, a.1, b.1);
}

fn key_less(a: &SortKey, b: &SortKey) -> (r: bool)
    ensures
        r == key_lt(a@, b@),
{
    a.rank < b.rank || (a.rank == b.rank && text::less(a.name.as_str(), b.name.as_str()))
}

/// The order of items by their keys; items of equal keys keep their places.
pub fn sort_order(keys: &Vec<SortKey>) -> (order: Vec<usize>)
    ensures
        is_order(key_views(keys@), order@),
{
    let ghost ks = key_views(keys@);
    let mut order: Vec<usize> = Vec::new();
    let mut n: usize = 0;
    while n < keys.len()
        invariant
            n <= keys@.len(),
            ks == key_views(keys@),
            is_order(ks.take(n as int), order@),
        decreases keys@.len() - n,
    {
        let ghost before = order@;
        let ghost some = ks.take(n as int);
        let ghost more = ks.take(n + 1);
        let mut at: usize = order.len();
        while at > 0 && key_less(&keys[n], &keys[order[at - 1]])
            invariant
                at <= order@.len(),
                order@ == before,
                n < keys@.len(),
                ks == key_views(keys@),
                some == ks.take(n as int),
                is_order(some, before),
                forall|j: int|
                    at <= j < before.len() ==> key_lt(ks[n as int], ks[#[trigger] before[j] as int]),
            decreases at,
        {
            proof {
                let p = before[at - 1] as int;
                assert(p < n);
                assert(ks[p] == keys@[p]@);
                assert(ks[n as int] == keys@[n as int]@);
            }
            at -= 1;
        }
        proof {
            if at > 0 {
                let p = before[at - 1] as int;
                assert(p < n);
                assert(ks[p] == keys@[p]@);
                assert(ks[n as int] == keys@[n as int]@);
            }
            lemma_insert_keeps_order(ks, n as int, before, at as int);
        }
        order.insert(at, n);
        n += 1;
    }
    assert(ks.take(n as int) =~= ks);
    order
}

proof fn lemma_insert_keeps_order(
    ks: Seq<(u8, Seq<char>)>,
    n: int,
    before: Seq<usize>,
    at: int,
)
    requires
        0 <= n < ks.len(),
        n <= usize::MAX,
        0 <= at <= before.len(),
        is_order(ks.take(n), before),
        forall|j: int| at <= j < before.len() ==> key_lt(ks[n], ks[#[trigger] before[j] as int]),
        at > 0 ==> !key_lt(ks[n], ks[before[at - 1] as int]),
    ensures
        is_order(ks.take(n + 1), before.insert(at, n as usize)),
{
    let some = ks.take(n);
    let more = ks.take(n + 1);
    let after = before.insert(at, n as usize);
    assert forall|i: int| 0 <= i < after.len() implies (#[trigger] after[i]) < more.len() by {
        if i < at {
            assert(after[i] == before[i]);
        } else if i > at {
            assert(after[i] == before[i - 1]);
        }
    }
    assert forall|k: int| 0 <= k < more.len() implies after.contains(#[trigger] (k as usize)) by {
        if k == n {
            assert(after[at] == n as usize);
        } else {
            assert(before.contains(k as usize));
            let p = choose|p: int| 0 <= p < before.len() && before[p] == k as usize;
            if p < at {
                assert(after[p] == before[p]);
            } else {
                assert(after[p + 1] == before[p]);
            }
        }
    }
    assert forall|i: int, j: int| 0 <= i < j < after.len() implies listed_before(
        more,
        #[trigger] after[i] as int,
        #[trigger] after[j] as int,
    ) by {
        let a = after[i] as int;
        let b = after[j] as int;
        if i == at {
            assert(after[j] == before[j - 1]);
            assert(b < n);
            assert(more[n] == ks[n] && more[b] == ks[b]);
        } else if j == at {
            assert(after[i] == before[i]);
            assert(a < n);
            assert(more[n] == ks[n] && more[a] == ks[a]);
            let last = before[at - 1] as int;
            assert(last < n);
            if i < at - 1 {
                assert(listed_before(some, before[i] as int, before[at - 1] as int));
            }
            lemma_key_order(ks[a], ks[last], ks[n]);
        } else {
            let i0 = if i < at {
                i
            } else {
                i - 1
            };
            let j0 = if j < at {
                j
            } else {
                j - 1
            };
            assert(after[i] == before[i0]);
            assert(after[j] == before[j0]);
            assert(listed_before(some, before[i0] as int, before[j0] as int));
            assert(a < n && b < n);
            assert(more[a] == some[a] && more[b] == some[b]);
        }
    }
}

/// The rank of a format where books are sorted by type: documents first, plain pages last.
pub open spec fn type_order(format: BookFormat) -> u8 {
    match format {
        BookFormat::Pdf => 0,
        BookFormat::Djvu => 0,
        BookFormat::Epub => 1,
        BookFormat::Html => 2,
    }
}

/// What a book is sorted by: its type where that is asked for, then its name in lower case.
pub open spec fn book_key(book: BookView, order: BookSortOrder) -> (u8, Seq<char>) {
    (
        match order {
            BookSortOrder::ByName => 0,
            BookSortOrder::ByType => type_order(book.format),
        },
        lowercased(book.display_name),
    )
}

/// What books are sorted by.
pub open spec fn book_keys(books: Seq<BookView>, order: BookSortOrder) -> Seq<(u8, Seq<char>)> {
    books.map_values(|b: BookView| book_key(b, order))
}

/// Items taken in the given order.
pub open spec fn taken<T>(items: Seq<T>, order: Seq<usize>) -> Seq<T> {
    order.map_values(|i: usize| items[i as int])
}

/// Whether `sorted` holds the given books, sorted, those of equal keys as they stood.
pub open spec fn sorted_from(
    books: Seq<BookView>,
    sorted: Seq<BookView>,
    order: BookSortOrder,
) -> bool {
    exists|places: Seq<usize>|
        is_order(book_keys(books, order), places) && sorted == #[trigger] taken(books, places)
}

fn rank_of(format: BookFormat) -> (r: u8)
    ensures
        r == type_order(format),
{
    match format {
        BookFormat::Pdf => 0,
        BookFormat::Djvu => 0,
        BookFormat::Epub => 1,
        BookFormat::Html => 2,
    }
}

fn sort_books(books: Vec<BookInfo>, order: BookSortOrder) -> (r: Vec<BookInfo>)
    ensures
        sorted_from(book_views(books@), book_views(r@), order),
{
    let ghost views = book_views(books@);
    let mut keys: Vec<SortKey> = Vec::new();
    let mut i: usize = 0;
    assert(key_views(keys@) =~= book_keys(views.take(0), order));
    while i < books.len()
        invariant
            i <= books@.len(),
            views == book_views(books@),
            key_views(keys@) == book_keys(views.take(i as int), order),
        decreases books@.len() - i,
    {
        let rank: u8 = match order {
            BookSortOrder::ByName => 0,
            BookSortOrder::ByType => rank_of(books[i].format),
        };
        let name = text::lowercase(books[i].display_name.as_str());
        let key = SortKey { rank, name };
        proof {
            assert(views[i as int] == books@[i as int]@);
            assert(views.take(i + 1) =~= views.take(i as int).push(views[i as int]));
            assert(book_keys(views.take(i as int).push(views[i as int]), order) =~= book_keys(
                views.take(i as int),
                order,
            ).push(key@));
            assert(key_views(keys@.push(key)) =~= key_views(keys@).push(key@));
        }
        keys.push(key);
        i += 1;
    }
    assert(views.take(i as int) =~= views);
    let places = sort_order(&keys);
    let mut r: Vec<BookInfo> = Vec::new();
    let mut j: usize = 0;
    assert(book_views(r@) =~= taken(views, places@.take(0)));
    while j < places.len()
        invariant
            j <= places@.len(),
            views == book_views(books@),
            views.len() == books@.len(),
            forall|k: int| 0 <= k < places@.len() ==> (#[trigger] places@[k]) < views.len(),
            book_views(r@) == taken(views, places@.take(j as int)),
        decreases places@.len() - j,
    {
        let at = places[j];
        let b = books[at].copy();
        proof {
            assert(views[at as int] == books@[at as int]@);
            assert(places@.take(j + 1) =~= places@.take(j as int).push(at));
            assert(taken(views, places@.take(j as int).push(at)) =~= taken(
                views,
                places@.take(j as int),
            ).push(b@));
            assert(book_views(r@.push(b)) =~= book_views(r@).push(b@));
        }
        r.push(b);
        j += 1;
    }
    assert(places@.take(j as int) =~= places@);
    r
}

// ---------------------------------------------------------------------------------------------
// The library
// ---------------------------------------------------------------------------------------------
/// The first book from `i` on with the given path.
pub open spec fn index_by_path(books: Seq<BookView>, path: Seq<char>, i: int) -> Option<int>
    decreases books.len() - i,
{
    if i < 0 || i >= books.len() {
        None
    } else if books[i].path == path {
        Some(i)
    } else {
        index_by_path(books, path, i + 1)
    }
}

/// Whether books of a format need a terminal that shows pictures.
pub open spec fn is_paged(format: BookFormat) -> bool {
    format == BookFormat::Pdf || format == BookFormat::Djvu
}

/// The first `n` books without those that cannot be shown.
pub open spec fn shown(books: Seq<BookView>, n: nat, paged: bool) -> Seq<BookView>
    decreases n,
{
    if n == 0 || n > books.len() {
        Seq::empty()
    } else if paged || !is_paged(books[n - 1].format) {
        shown(books, (n - 1) as nat, paged).push(books[n - 1])
    } else {
        shown(books, (n - 1) as nat, paged)
    }
}

/// Where the text of a book is taken from.
#[derive(Clone, Copy, Debug, PartialEq, Eq, Structural)]
pub enum EpubSource {
    /// A page that is made into a book of one chapter.
    Page,
    /// A directory that holds the parts of a book.
    Directory,
    /// An archive.
    Archive,
}

/// Where the text of a book is taken from.
pub open spec fn source_of(path: Seq<char>, is_dir: bool) -> EpubSource {
    if detected(path) == Some(BookFormat::Html) {
        EpubSource::Page
    } else if is_dir && paths::extension_of(path) == Some("epub"@) {
        EpubSource::Directory
    } else {
        EpubSource::Archive
    }
}

impl BookManager {
    /// The library of the current directory.
    pub fn new(listing: &Listing) -> (r: Self)
        ensures
            r.scan_directory@ == "."@,
            r.library_mode == mode_of(*listing),
            !r.supports_graphics,
            sorted_from(
                books_among(listing.files@, listing.files@.len(), r.library_mode),
                book_views(r.books@),
                BookSortOrder::ByName,
            ),
    {
        Self::new_with_directory(".", listing)
    }

    /// The library of a directory, of what was found in it.
    pub fn new_with_directory(directory: &str, listing: &Listing) -> (r: Self)
        ensures
            r.scan_directory@ == directory@,
            r.library_mode == mode_of(*listing),
            !r.supports_graphics,
            sorted_from(
                books_among(listing.files@, listing.files@.len(), r.library_mode),
                book_views(r.books@),
                BookSortOrder::ByName,
            ),
    {
        let library_mode = if listing.has_metadata_db {
            LibraryMode::Calibre
        } else {
            LibraryMode::Standard
        };
        let found = discover_books(&listing.files, library_mode);
        let books = sort_books(found, BookSortOrder::ByName);
        BookManager {
            books,
            scan_directory: text::copy(directory),
            library_mode,
            supports_graphics: false,
        }
    }

    /// Whether the library is a Calibre library.
    pub fn is_calibre_mode(&self) -> (r: bool)
        ensures
            r == (self.library_mode == LibraryMode::Calibre),
    {
        self.library_mode == LibraryMode::Calibre
    }

    /// The book at a place of the library.
    pub fn get_book_info(&self, index: usize) -> (r: Option<&BookInfo>)
        ensures
            r is Some <==> index < self.books@.len(),
            r matches Some(b) ==> *b == self.books@[index as int],
    {
        if index < self.books.len() {
            Some(&self.books[index])
        } else {
            None
        }
    }

    /// The first book with the given path.
    pub fn get_book_by_path(&self, path: &str) -> (r: Option<&BookInfo>)
        ensures
            match r {
                Some(b) => index_by_path(book_views(self.books@), path@, 0) matches Some(i)
                    && *b == self.books@[i],
                None => index_by_path(book_views(self.books@), path@, 0) is None,
            },
    {
        match self.find_book_index_by_path(path) {
            Some(i) => Some(&self.books[i]),
            None => None,
        }
    }

    /// Takes over what is now found in the directory.
    pub fn refresh_books(&mut self, files: &Vec<FoundFile>)
        ensures
            final(self).scan_directory == old(self).scan_directory,
            final(self).library_mode == old(self).library_mode,
            final(self).supports_graphics == old(self).supports_graphics,
            sorted_from(
                books_among(files@, files@.len(), old(self).library_mode),
                book_views(final(self).books@),
                BookSortOrder::ByName,
            ),
    {
        let found = discover_books(files, self.library_mode);
        self.books = sort_books(found, BookSortOrder::ByName);
    }

    /// Takes over what is now found in the directory.
    pub fn refresh(&mut self, files: &Vec<FoundFile>)
        ensures
            final(self).scan_directory == old(self).scan_directory,
            final(self).library_mode == old(self).library_mode,
            final(self).supports_graphics == old(self).supports_graphics,
            sorted_from(
                books_among(files@, files@.len(), old(self).library_mode),
                book_views(final(self).books@),
                BookSortOrder::ByName,
            ),
    {
        self.refresh_books(files);
    }

    /// The books as they are listed: without PDF and DjVu documents where these are turned off or
    /// the terminal shows no pictures, and sorted by type where that is asked for.
    pub fn get_books(&self, pdf_enabled: bool, order: BookSortOrder) -> (r: Vec<BookInfo>)
        ensures
            ({
                let kept = shown(
                    book_views(self.books@),
                    self.books@.len(),
                    pdf_enabled && self.supports_graphics,
                );
                match order {
                    BookSortOrder::ByName => book_views(r@) == kept,
                    BookSortOrder::ByType => sorted_from(kept, book_views(r@), order),
                }
            }),
    {
        let paged = pdf_enabled && self.supports_graphics;
        let ghost views = book_views(self.books@);
        let mut kept: Vec<BookInfo> = Vec::new();
        let mut i: usize = 0;
        assert(book_views(kept@) =~= shown(views, 0, paged));
        while i < self.books.len()
            invariant
                i <= self.books@.len(),
                views == book_views(self.books@),
                book_views(kept@) == shown(views, i as nat, paged),
            decreases self.books@.len() - i,
        {
            let format = self.books[i].format;
            let ghost before = kept@;
            assert(views[i as int] == self.books@[i as int]@);
            if paged || !(format == BookFormat::Pdf || format == BookFormat::Djvu) {
                let b = self.books[i].copy();
                kept.push(b);
                assert(book_views(before.push(b)) =~= book_views(before).push(b@));
            }
            i += 1;
        }
        match order {
            BookSortOrder::ByName => kept,
            BookSortOrder::ByType => sort_books(kept, order),
        }
    }

    /// The place of the first book with the given path.
    pub fn find_book_index_by_path(&self, path: &str) -> (r: Option<usize>)
        ensures
            match r {
                Some(i) => index_by_path(book_views(self.books@), path@, 0) == Some(i as int) && i
                    < self.books@.len(),
                None => index_by_path(book_views(self.books@), path@, 0) is None,
            },
    {
        let mut i: usize = 0;
        let ghost views = book_views(self.books@);
        while i < self.books.len()
            invariant
                i <= self.books@.len(),
                views == book_views(self.books@),
                index_by_path(views, path@, 0) == index_by_path(views, path@, i as int),
            decreases self.books@.len() - i,
        {
            assert(views[i as int] == self.books@[i as int]@);
            if text::same(self.books[i].path.as_str(), path) {
                return Some(i);
            }
            i += 1;
        }
        None
    }

    /// Whether the library has a book with the given path.
    pub fn contains_book(&self, path: &str) -> (r: bool)
        ensures
            r == (index_by_path(book_views(self.books@), path@, 0) is Some),
    {
        self.find_book_index_by_path(path).is_some()
    }

    /// The format of the first book with the given path.
    pub fn get_format(&self, path: &str) -> (r: Option<BookFormat>)
        ensures
            r == match index_by_path(book_views(self.books@), path@, 0) {
                Some(i) => Some(self.books@[i].format),
                None => None,
            },
    {
        match self.find_book_index_by_path(path) {
            Some(i) => Some(self.books[i].format),
            None => None,
        }
    }

    /// The format of a file by its extension.
    pub fn detect_format(path: &str) -> (r: Option<BookFormat>)
        ensures
            r == detected(path@),
    {
        let cs = text::chars_of(path);
        match paths::extension(&cs) {
            Some(e) => {
                let ext = text::string_of(&e);
                let low = text::lowercase(ext.as_str());
                format_of_extension(low.as_str())
            },
            None => None,
        }
    }

    /// Whether a file is a page.
    pub fn is_html_file(&self, path: &str) -> (r: bool)
        ensures
            r == (detected(path@) == Some(BookFormat::Html)),
    {
        match Self::detect_format(path) {
            Some(f) => f == BookFormat::Html,
            None => false,
        }
    }

    /// Whether a file is a PDF document.
    pub fn is_pdf_file(&self, path: &str) -> (r: bool)
        ensures
            r == (detected(path@) == Some(BookFormat::Pdf)),
    {
        match Self::detect_format(path) {
            Some(f) => f == BookFormat::Pdf,
            None => false,
        }
    }

    /// Whether a file is a DjVu document.
    pub fn is_djvu_file(&self, path: &str) -> (r: bool)
        ensures
            r == (detected(path@) == Some(BookFormat::Djvu)),
    {
        match Self::detect_format(path) {
            Some(f) => f == BookFormat::Djvu,
            None => false,
        }
    }

    /// Whether a path is that of a directory with the parts of a book.
    pub fn is_epub_directory(path: &str, is_dir: bool) -> (r: bool)
        ensures
            r == (is_dir && paths::extension_of(path@) == Some("epub"@)),
    {
        if !is_dir {
            return false;
        }
        let cs = text::chars_of(path);
        match paths::extension(&cs) {
            Some(e) => {
                let ext = text::string_of(&e);
                text::same(ext.as_str(), "epub")
            },
            None => false,
        }
    }

    /// Where the text of a book is taken from.
    pub fn load_epub(&self, path: &str, is_dir: bool) -> (r: EpubSource)
        ensures
            r == source_of(path@, is_dir),
    {
        if self.is_html_file(path) {
            EpubSource::Page
        } else if Self::is_epub_directory(path, is_dir) {
            EpubSource::Directory
        } else {
            EpubSource::Archive
        }
    }
}

// ---------------------------------------------------------------------------------------------
// Archives
// ---------------------------------------------------------------------------------------------
/// A file of a directory as it goes into an archive.
pub struct PackedFile {
    /// The name that it gets in the archive.
    pub name: String,
    /// Where it is read from, relative to the directory.
    pub source: String,
    /// Whether it is compressed.
    pub compressed: bool,
}

/// A file as it goes into an archive.
pub struct PackedView {
    pub name: Seq<char>,
    pub source: Seq<char>,
    pub compressed: bool,
}

impl View for PackedFile {
    type V = PackedView;

    open spec fn view(&self) -> PackedView {
        PackedView { name: self.name@, source: self.source@, compressed: self.compressed }
    }
}

/// The files that a vector of them holds.
pub open spec fn packed_views(v: Seq<PackedFile>) -> Seq<PackedView> {
    v.map_values(|p: PackedFile| p@)
}

/// Whether a file of the directory is taken over with the others: not the type, which stands
/// first, and not what a file manager left.
pub open spec fn is_packed(rel: Seq<char>) -> bool {
    &&& paths::name_of(rel) != Some(".DS_Store"@)
    &&& !(!paths::is_rooted(rel) && paths::components(rel) == seq!["mimetype"@])
}

/// The first `n` files without those that are left out.
pub open spec fn packed_of(files: Seq<Seq<char>>, n: nat) -> Seq<Seq<char>>
    decreases n,
{
    if n == 0 || n > files.len() {
        Seq::empty()
    } else if is_packed(files[n - 1]) {
        packed_of(files, (n - 1) as nat).push(files[n - 1])
    } else {
        packed_of(files, (n - 1) as nat)
    }
}

/// Texts as keys.
pub open spec fn text_keys(files: Seq<Seq<char>>) -> Seq<(u8, Seq<char>)> {
    files.map_values(|s: Seq<char>| (0u8, s))
}

/// A file as it goes into the archive.
pub open spec fn packed(rel: Seq<char>) -> PackedView {
    PackedView { name: replaced(rel, "\\"@, "/"@), source: rel, compressed: true }
}

/// The type of the archive, which goes into it first and as it is.
pub open spec fn type_file() -> PackedView {
    PackedView { name: "mimetype"@, source: "mimetype"@, compressed: false }
}

/// Whether an archive holds the files of a directory: its type first where it has one, then the
/// others by name.
pub open spec fn is_archive_of(
    files: Seq<Seq<char>>,
    has_mimetype: bool,
    archive: Seq<PackedView>,
) -> bool {
    let kept = packed_of(files, files.len());
    exists|places: Seq<usize>|
        is_order(text_keys(kept), places) && archive == (if has_mimetype {
            seq![type_file()]
        } else {
            Seq::empty()
        }) + (#[trigger] taken(kept, places)).map_values(|s: Seq<char>| packed(s))
}

fn keeps_file(rel: &str) -> (r: bool)
    ensures
        r == is_packed(rel@),
{
    let cs = text::chars_of(rel);
    if let Some(name) = paths::file_name(&cs) {
        let n = text::string_of(&name);
        if text::same(n.as_str(), ".DS_Store") {
            return false;
        }
    }
    let rooted = cs.len() > 0 && cs[0] == '/';
    if rooted {
        return true;
    }
    let parts = paths::components_of(&cs);
    assert(text::views(parts@).len() == parts@.len());
    if parts.len() != 1 {
        assert(seq!["mimetype"@].len() == 1);
        return true;
    }
    let only = text::string_of(&parts[0]);
    let is_type = text::same(only.as_str(), "mimetype");
    proof {
        let c = paths::components(cs@);
        assert(text::views(parts@)[0] == parts@[0]@);
        assert(is_type == (c =~= seq!["mimetype"@])) by {
            if is_type {
                assert(c =~= seq!["mimetype"@]);
            } else {
                assert(seq!["mimetype"@][0] == "mimetype"@);
            }
        }
    }
    !is_type
}

/// The archive of a directory that holds the parts of a book.
pub fn epub_directory_files(files: &Vec<String>, has_mimetype: bool) -> (r: Vec<PackedFile>)
    ensures
        is_archive_of(texts(files@), has_mimetype, packed_views(r@)),
{
    let ghost all = texts(files@);
    let mut kept: Vec<String> = Vec::new();
    let mut keys: Vec<SortKey> = Vec::new();
    let mut i: usize = 0;
    assert(texts(kept@) =~= packed_of(all, 0));
    assert(key_views(keys@) =~= text_keys(texts(kept@)));
    while i < files.len()
        invariant
            i <= files@.len(),
            all == texts(files@),
            texts(kept@) == packed_of(all, i as nat),
            key_views(keys@) == text_keys(texts(kept@)),
        decreases files@.len() - i,
    {
        assert(all[i as int] == files@[i as int]@);
        if keeps_file(files[i].as_str()) {
            let s = text::copy(files[i].as_str());
            let key = SortKey { rank: 0, name: text::copy(files[i].as_str()) };
            proof {
                text::lemma_texts_push(kept@, s);
                assert(key_views(keys@.push(key)) =~= key_views(keys@).push(key@));
                assert(text_keys(texts(kept@).push(s@)) =~= text_keys(texts(kept@)).push(
                    (0u8, s@),
                ));
            }
            kept.push(s);
            keys.push(key);
        }
        i += 1;
    }
    assert(all.len() == files@.len());
    let places = sort_order(&keys);
    let ghost names = texts(kept@);
    let ghost f = |s: Seq<char>| packed(s);
    let ghost head = if has_mimetype {
        seq![type_file()]
    } else {
        Seq::empty()
    };
    let mut r: Vec<PackedFile> = Vec::new();
    if has_mimetype {
        let first = PackedFile {
            name: text::copy("mimetype"),
            source: text::copy("mimetype"),
            compressed: false,
        };
        r.push(first);
    }
    assert(packed_views(r@) =~= head);
    let mut j: usize = 0;
    assert(packed_views(r@) =~= head + taken(names, places@.take(0)).map_values(f));
    assert(text_keys(names).len() == names.len());
    assert(names.len() == kept@.len());
    proof {
        reveal_strlit("\\");
    }
    while j < places.len()
        invariant
            j <= places@.len(),
            names == texts(kept@),
            names.len() == kept@.len(),
            "\\"@.len() > 0,
            forall|k: int| 0 <= k < places@.len() ==> (#[trigger] places@[k]) < names.len(),
            f == (|s: Seq<char>| packed(s)),
            packed_views(r@) == head + taken(names, places@.take(j as int)).map_values(f),
        decreases places@.len() - j,
    {
        let at = places[j];
        assert(names[at as int] == kept@[at as int]@);
        let item = PackedFile {
            name: text::replace(kept[at].as_str(), "\\", "/"),
            source: text::copy(kept[at].as_str()),
            compressed: true,
        };
        proof {
            assert(places@.take(j + 1) =~= places@.take(j as int).push(at));
            assert(taken(names, places@.take(j as int).push(at)).map_values(f) =~= taken(
                names,
                places@.take(j as int),
            ).map_values(f).push(item@));
            assert(packed_views(r@.push(item)) =~= packed_views(r@).push(item@));
            assert((head + taken(names, places@.take(j as int)).map_values(f)).push(item@) =~= head
                + taken(names, places@.take(j as int)).map_values(f).push(item@));
        }
        r.push(item);
        j += 1;
    }
    assert(places@.take(j as int) =~= places@);
    proof {
        assert(packed_views(r@) == head + taken(names, places@).map_values(f));
    }
    r
}

// ---------------------------------------------------------------------------------------------
// Pages as books
// ---------------------------------------------------------------------------------------------
/// Where an EPUB archive says which file describes the book.
pub const CONTAINER: &'static str = r#"<?xml version="1.0" encoding="UTF-8"?>
<container version="1.0" xmlns="urn:oasis:names:tc:opendocument:xmlns:container">
    <rootfiles>
        <rootfile full-path="OEBPS/content.opf" media-type="application/oebps-package+xml"/>
    </rootfiles>
</container>"#;

/// The description of a book of one chapter, up to its title.
pub const PACKAGE_HEAD: &'static str = r#"<?xml version="1.0" encoding="UTF-8"?>
<package xmlns="http://www.idpf.org/2007/opf" unique-identifier="bookid" version="2.0">
    <metadata>
        <dc:title xmlns:dc="http://purl.org/dc/elements/1.1/">"#;

/// The description from behind the title up to the identifier.
pub const PACKAGE_TITLED: &'static str = r#"</dc:title>
        <dc:identifier xmlns:dc="http://purl.org/dc/elements/1.1/" id="bookid">html-"#;

/// The description from behind the identifier on.
pub const PACKAGE_TAIL: &'static str = r#"</dc:identifier>
        <dc:language xmlns:dc="http://purl.org/dc/elements/1.1/">en</dc:language>
    </metadata>
    <manifest>
        <item id="chapter1" href="chapter1.xhtml" media-type="application/xhtml+xml"/>
        <item id="ncx" href="toc.ncx" media-type="application/x-dtbncx+xml"/>
    </manifest>
    <spine toc="ncx">
        <itemref idref="chapter1"/>
    </spine>
</package>"#;

/// The table of contents of a book of one chapter, up to its identifier.
pub const TOC_HEAD: &'static str = r#"<?xml version="1.0" encoding="UTF-8"?>
<ncx xmlns="http://www.daisy.org/z3986/2005/ncx/" version="2005-1">
    <head>
        <meta name="dtb:uid" content="html-"#;

/// The table of contents from behind the identifier up to the title.
pub const TOC_IDENTIFIED: &'static str = r#""/>
        <meta name="dtb:depth" content="1"/>
        <meta name="dtb:totalPageCount" content="0"/>
        <meta name="dtb:maxPageNumber" content="0"/>
    </head>
    <docTitle>
        <text>"#;

/// The table of contents from behind the title up to the name of the chapter.
pub const TOC_TITLED: &'static str = r#"</text>
    </docTitle>
    <navMap>
        <navPoint id="chapter1" playOrder="1">
            <navLabel>
                <text>"#;

/// The table of contents from behind the name of the chapter on.
pub const TOC_TAIL: &'static str = r#"</text>
            </navLabel>
            <content src="chapter1.xhtml"/>
        </navPoint>
    </navMap>
</ncx>"#;

/// A page around plain markup, up to its title.
pub const PAGE_HEAD: &'static str = r#"<?xml version="1.0" encoding="UTF-8"?>
<!DOCTYPE html PUBLIC "-//W3C//DTD XHTML 1.1//EN" "http://www.w3.org/TR/xhtml11/DTD/xhtml11.dtd">
<html xmlns="http://www.w3.org/1999/xhtml">
<head>
    <title>"#;

/// A page from behind the title up to the markup.
pub const PAGE_TITLED: &'static str = r#"</title>
</head>
<body>
"#;

/// A page from behind the markup on.
pub const PAGE_TAIL: &'static str = r#"
</body>
</html>"#;

/// A file of an archive, with its text.
pub struct ArchiveEntry {
    pub name: String,
    pub content: String,
}

/// The entries that a vector of them holds.
pub open spec fn entry_views(v: Seq<ArchiveEntry>) -> Seq<(Seq<char>, Seq<char>)> {
    v.map_values(|e: ArchiveEntry| (e.name@, e.content@))
}

/// The name of a page's file.
pub open spec fn page_name(path: Seq<char>) -> Seq<char> {
    match paths::name_of(path) {
        Some(n) => n,
        None => "HTML Document"@,
    }
}

/// The identifier of a page as a book.
pub open spec fn page_identifier(path: Seq<char>) -> Seq<char> {
    replaced(path, "/"@, "_"@)
}

/// The text of the page within the book: as it is where it is a whole document.
pub open spec fn page_text(html: Seq<char>, title: Seq<char>) -> Seq<char> {
    if occurs(html, "<!DOCTYPE"@) {
        html
    } else {
        PAGE_HEAD@ + title + PAGE_TITLED@ + html + PAGE_TAIL@
    }
}

/// The archive of a book made of one page. The title is that of the page, or the name of its file.
pub open spec fn page_archive(
    html: Seq<char>,
    path: Seq<char>,
    page_title: Option<Seq<char>>,
) -> Seq<(Seq<char>, Seq<char>)> {
    let title = match page_title {
        Some(t) => t,
        None => page_name(path),
    };
    let id = page_identifier(path);
    seq![
        ("mimetype"@, "application/epub+zip"@),
        ("META-INF/container.xml"@, CONTAINER@),
        ("OEBPS/content.opf"@, PACKAGE_HEAD@ + title + PACKAGE_TITLED@ + id + PACKAGE_TAIL@),
        (
            "OEBPS/toc.ncx"@,
            TOC_HEAD@ + id + TOC_IDENTIFIED@ + title + TOC_TITLED@ + page_name(path) + TOC_TAIL@,
        ),
        ("OEBPS/chapter1.xhtml"@, page_text(html, title)),
    ]
}

/// The archive of a book made of one page.
pub fn create_minimal_epub_from_html(
    html_content: &str,
    original_path: &str,
    page_title: Option<String>,
) -> (r: Vec<ArchiveEntry>)
    ensures
        entry_views(r@) == page_archive(
            html_content@,
            original_path@,
            option_view(page_title),
        ),
{
    let ghost asked = option_view(page_title);
    let cs = text::chars_of(original_path);
    let name = match paths::file_name(&cs) {
        Some(n) => text::string_of(&n),
        None => text::copy("HTML Document"),
    };
    let title = match page_title {
        Some(t) => t,
        None => text::copy(name.as_str()),
    };
    proof {
        reveal_strlit("/");
    }
    let id = text::replace(original_path, "/", "_");
    let mut package = text::copy(PACKAGE_HEAD);
    package.append(title.as_str());
    package.append(PACKAGE_TITLED);
    package.append(id.as_str());
    package.append(PACKAGE_TAIL);
    let mut toc = text::copy(TOC_HEAD);
    toc.append(id.as_str());
    toc.append(TOC_IDENTIFIED);
    toc.append(title.as_str());
    toc.append(TOC_TITLED);
    toc.append(name.as_str());
    toc.append(TOC_TAIL);
    let page = if text::contains(html_content, "<!DOCTYPE") {
        text::copy(html_content)
    } else {
        let mut s = text::copy(PAGE_HEAD);
        s.append(title.as_str());
        s.append(PAGE_TITLED);
        s.append(html_content);
        s.append(PAGE_TAIL);
        s
    };
    let mut r: Vec<ArchiveEntry> = Vec::new();
    r.push(
        ArchiveEntry { name: text::copy("mimetype"), content: text::copy("application/epub+zip") },
    );
    r.push(
        ArchiveEntry {
            name: text::copy("META-INF/container.xml"),
            content: text::copy(CONTAINER),
        },
    );
    r.push(ArchiveEntry { name: text::copy("OEBPS/content.opf"), content: package });
    r.push(ArchiveEntry { name: text::copy("OEBPS/toc.ncx"), content: toc });
    r.push(ArchiveEntry { name: text::copy("OEBPS/chapter1.xhtml"), content: page });
    assert(entry_views(r@) =~= page_archive(html_content@, original_path@, asked));
    r
}

// ---------------------------------------------------------------------------------------------
// Laws
// ---------------------------------------------------------------------------------------------
/// Where paged documents are not shown, none is listed; every other book is.
pub proof fn law_paged_books_are_hidden(books: Seq<BookView>, n: nat)
    requires
        n <= books.len(),
    ensures
        forall|i: int|
            0 <= i < shown(books, n, false).len() ==> !is_paged(
                (#[trigger] shown(books, n, false)[i]).format,
            ),
        forall|i: int|
            0 <= i < n && !is_paged(books[i].format) ==> shown(books, n, false).contains(
                #[trigger] books[i],
            ),
    decreases n,
{
    if n > 0 {
        law_paged_books_are_hidden(books, (n - 1) as nat);
        let before = shown(books, (n - 1) as nat, false);
        let after = shown(books, n, false);
        assert forall|i: int| 0 <= i < n && !is_paged(books[i].format) implies after.contains(
            #[trigger] books[i],
        ) by {
            if i < n - 1 {
                assert(before.contains(books[i]));
                let k = choose|k: int| 0 <= k < before.len() && before[k] == books[i];
                assert(after[k] == books[i]);
            } else {
                assert(after[after.len() - 1] == books[i]);
            }
        }
    }
}

/// Where paged documents are shown, every book is listed.
pub proof fn law_all_books_are_shown(books: Seq<BookView>, n: nat)
    requires
        n <= books.len(),
    ensures
        shown(books, n, true) == books.take(n as int),
    decreases n,
{
    if n > 0 {
        law_all_books_are_shown(books, (n - 1) as nat);
        assert(books.take(n as int) =~= books.take(n - 1).push(books[n - 1]));
    } else {
        assert(books.take(0) =~= Seq::empty());
    }
}

/// Sorting leaves the books that there are: none is lost and none is new.
pub proof fn law_sorting_keeps_the_books(
    books: Seq<BookView>,
    sorted: Seq<BookView>,
    order: BookSortOrder,
)
    requires
        sorted_from(books, sorted, order),
        books.len() <= usize::MAX,
    ensures
        sorted.len() == books.len(),
        forall|b: BookView| books.contains(b) <==> #[trigger] sorted.contains(b),
{
    let places = choose|places: Seq<usize>|
        is_order(book_keys(books, order), places) && sorted == #[trigger] taken(books, places);
    let keys = book_keys(books, order);
    assert(keys.len() == books.len());
    assert forall|b: BookView| books.contains(b) <==> #[trigger] sorted.contains(b) by {
        if books.contains(b) {
            let k = choose|k: int| 0 <= k < books.len() && books[k] == b;
            assert(places.contains(k as usize));
            let p = choose|p: int| 0 <= p < places.len() && places[p] == k as usize;
            assert(sorted[p] == b);
        }
        if sorted.contains(b) {
            let p = choose|p: int| 0 <= p < sorted.len() && sorted[p] == b;
            assert(places[p] < keys.len());
            assert(books[places[p] as int] == b);
        }
    }
}

/// A listing is in order: no book comes after one that its key puts behind it.
pub proof fn law_sorted_books_are_in_order(
    books: Seq<BookView>,
    sorted: Seq<BookView>,
    order: BookSortOrder,
    i: int,
    j: int,
)
    requires
        sorted_from(books, sorted, order),
        0 <= i < j < sorted.len(),
    ensures
        !key_lt(book_key(sorted[j], order), book_key(sorted[i], order)),
{
    let places = choose|places: Seq<usize>|
        is_order(book_keys(books, order), places) && sorted == #[trigger] taken(books, places);
    let keys = book_keys(books, order);
    assert(places[i] < keys.len() && places[j] < keys.len());
    assert(listed_before(keys, places[i] as int, places[j] as int));
    lemma_key_order(keys[places[i] as int], keys[places[j] as int], keys[places[i] as int]);
}

/// A path that the library has leads to a book with that path.
pub proof fn law_found_book_has_the_path(books: Seq<BookView>, path: Seq<char>, i: int)
    requires
        0 <= i <= books.len(),
    ensures
        match index_by_path(books, path, i) {
            Some(k) => i <= k < books.len() && books[k].path == path && forall|j: int|
                i <= j < k ==> (#[trigger] books[j]).path != path,
            None => forall|j: int| i <= j < books.len() ==> (#[trigger] books[j]).path != path,
        },
    decreases books.len() - i,
{
    if i < books.len() && books[i].path != path {
        law_found_book_has_the_path(books, path, i + 1);
    }
}

} // verus!
