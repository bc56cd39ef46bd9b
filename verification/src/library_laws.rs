//! What holds of a library: that every book is found, under its name and its format, and how books are
//! ordered and made into archives.
use vstd::prelude::*;
use vstd::string::*;

use crate::book_manager::{
    book_of, books_among, described_name, detected, display_name, first_text, is_archive_of, is_order,
    is_packed, law_sorted_books_are_in_order, listed_before, mode_of, opf_name, packed, packed_of,
    page_archive, page_text, shown, sorted_from, source_of, taken, text_keys, type_file, xml_nodes,
    BookFormat, BookSortOrder, BookView, EpubSource, FoundFile, LibraryMode, Listing, PackedView,
};
use crate::markup::nesting;
use crate::paths;
use crate::paths_laws::{
    below, dotted, is_extension, is_name, is_stem, law_components_below, law_file_name,
    law_parent, law_stem_and_extension,
};
use crate::text;
use crate::text::{lowercased, occurs, text_lt, trimmed};
use crate::text_laws::law_parts_occur;

verus! {

// ---------------------------------------------------------------------------------------------
// Formats and names
// ---------------------------------------------------------------------------------------------
/// The format that a library lists a file under, by its extension in whatever case: EPUB, PDF and DjVu
/// everywhere, pages of HTML only where the library is no Calibre library.
pub open spec fn listed_format(path: Seq<char>, calibre: bool) -> Option<BookFormat> {
    match paths::extension_of(path) {
        None => None,
        Some(ext) => {
            let e = lowercased(ext);
            if e == "epub"@ {
                Some(BookFormat::Epub)
            } else if e == "pdf"@ {
                Some(BookFormat::Pdf)
            } else if e == "djvu"@ || e == "djv"@ {
                Some(BookFormat::Djvu)
            } else if (e == "html"@ || e == "htm"@) && !calibre {
                Some(BookFormat::Html)
            } else {
                None
            }
        },
    }
}

proof fn lemma_extensions_differ()
    ensures
        "epub"@ != "pdf"@,
        "epub"@ != "djvu"@,
        "epub"@ != "djv"@,
        "epub"@ != "html"@,
        "epub"@ != "htm"@,
        "pdf"@ != "djvu"@,
        "pdf"@ != "djv"@,
        "pdf"@ != "html"@,
        "pdf"@ != "htm"@,
        "djvu"@ != "html"@,
        "djvu"@ != "htm"@,
        "djv"@ != "html"@,
        "djv"@ != "htm"@,
{
    reveal_strlit("epub");
    reveal_strlit("pdf");
    reveal_strlit("djvu");
    reveal_strlit("djv");
    reveal_strlit("html");
    reveal_strlit("htm");
    assert("epub"@[0] == 'e');
    assert("pdf"@[0] == 'p');
    assert("djvu"@[0] == 'd');
    assert("djv"@[0] == 'd');
    assert("html"@[0] == 'h');
    assert("htm"@[0] == 'h');
}

/// The format of a file is that of its extension, wherever the file is and whatever the case of the
/// extension; a file without an extension has none.
pub proof fn law_format_of_an_extension(
    dir: Seq<char>,
    stem: Seq<char>,
    ext: Seq<char>,
    name: Seq<char>,
)
    requires
        is_stem(stem),
        is_extension(ext),
        is_name(name),
        forall|i: int| 0 < i < name.len() ==> #[trigger] name[i] != '.',
    ensures
        ({
            let format = detected(below(dir, dotted(stem, ext)));
            let e = lowercased(ext);
            &&& format == Some(BookFormat::Epub) <==> e == "epub"@
            &&& format == Some(BookFormat::Pdf) <==> e == "pdf"@
            &&& format == Some(BookFormat::Djvu) <==> e == "djvu"@ || e == "djv"@
            &&& format == Some(BookFormat::Html) <==> e == "html"@ || e == "htm"@
            &&& detected(below(dir, name)) is None
        }),
{
    law_stem_and_extension(dir, stem, ext, name);
    lemma_extensions_differ();
}

/// A file is listed under its name without the extension, a page of HTML with it.
pub proof fn law_name_of_a_file(dir: Seq<char>, stem: Seq<char>, ext: Seq<char>)
    requires
        is_stem(stem),
        is_extension(ext),
    ensures
        ({
            let path = below(dir, dotted(stem, ext));
            let page = lowercased(ext) == "html"@ || lowercased(ext) == "htm"@;
            &&& page ==> display_name(path) == dotted(stem, ext)
            &&& !page ==> display_name(path) == stem
        }),
{
    law_stem_and_extension(dir, stem, ext, seq!['a']);
    law_format_of_an_extension(dir, stem, ext, seq!['a']);
    let name = dotted(stem, ext);
    assert forall|i: int| 0 <= i < name.len() implies #[trigger] name[i] != '/' by {
        if i < stem.len() {
            assert(name[i] == stem[i]);
        } else if i > stem.len() {
            assert(name[i] == ext[i - stem.len() - 1]);
        }
    }
    law_file_name(dir, name);
}

// ---------------------------------------------------------------------------------------------
// Finding books
// ---------------------------------------------------------------------------------------------
/// A file is a book exactly where its extension says so, with its own path and the format of the extension.
pub proof fn law_file_is_a_book_by_its_extension(file: FoundFile)
    ensures
        match book_of(file, LibraryMode::Standard) {
            Some(b) => b.path == file.path@ && listed_format(file.path@, false) == Some(b.format)
                && b.display_name == display_name(file.path@),
            None => listed_format(file.path@, false) is None,
        },
        match book_of(file, LibraryMode::Calibre) {
            Some(b) => b.path == file.path@ && listed_format(file.path@, true) == Some(b.format)
                && b.display_name == (match file.opf {
                Some(content) => match opf_name(content@) {
                    Some(name) => name,
                    None => display_name(file.path@),
                },
                None => display_name(file.path@),
            }),
            None => listed_format(file.path@, true) is None,
        },
{
    lemma_extensions_differ();
}

/// How a library is laid out.
pub open spec fn layout(calibre: bool) -> LibraryMode {
    if calibre {
        LibraryMode::Calibre
    } else {
        LibraryMode::Standard
    }
}

/// Every book is found: the paths of the books of a library are exactly the paths of the files whose
/// extension is that of a book, each with the format of its extension, and there are as many.
pub proof fn law_every_book_is_found(files: Seq<FoundFile>, n: nat, calibre: bool)
    requires
        n <= files.len(),
    ensures
        ({
            let books = books_among(files, n, layout(calibre));
            &&& forall|i: int|
                0 <= i < n ==> (listed_format((#[trigger] files[i]).path@, calibre) matches Some(
                    format,
                ) ==> exists|k: int|
                    0 <= k < books.len() && (#[trigger] books[k]).path == files[i].path@
                        && books[k].format == format)
            &&& forall|k: int|
                0 <= k < books.len() ==> exists|i: int|
                    0 <= i < n && (#[trigger] files[i]).path@ == (#[trigger] books[k]).path
                        && listed_format(files[i].path@, calibre) == Some(books[k].format)
            &&& books.len() == count_listed(files, n, calibre)
        }),
    decreases n,
{
    let mode = layout(calibre);
    let books = books_among(files, n, mode);
    if n > 0 {
        law_every_book_is_found(files, (n - 1) as nat, calibre);
        law_file_is_a_book_by_its_extension(files[n - 1]);
        let before = books_among(files, (n - 1) as nat, mode);
        assert forall|i: int| 0 <= i < n implies (listed_format(
            (#[trigger] files[i]).path@,
            calibre,
        ) matches Some(format) ==> exists|k: int|
            0 <= k < books.len() && (#[trigger] books[k]).path == files[i].path@ && books[k].format
                == format) by {
            if let Some(format) = listed_format(files[i].path@, calibre) {
                if i < n - 1 {
                    let k = choose|k: int|
                        0 <= k < before.len() && (#[trigger] before[k]).path == files[i].path@
                            && before[k].format == format;
                    assert(books[k] == before[k]);
                } else {
                    assert(books[before.len() as int].path == files[i].path@);
                }
            }
        }
        assert forall|k: int| 0 <= k < books.len() implies exists|i: int|
            0 <= i < n && (#[trigger] files[i]).path@ == (#[trigger] books[k]).path && listed_format(
                files[i].path@,
                calibre,
            ) == Some(books[k].format) by {
            if k < before.len() {
                assert(books[k] == before[k]);
                let i = choose|i: int|
                    0 <= i < n - 1 && (#[trigger] files[i]).path@ == before[k].path && listed_format(
                        files[i].path@,
                        calibre,
                    ) == Some(before[k].format);
                assert(files[i].path@ == books[k].path);
            } else {
                assert(files[n - 1].path@ == books[k].path);
            }
        }
    }
}

/// How many of the first `n` files are books.
pub open spec fn count_listed(files: Seq<FoundFile>, n: nat, calibre: bool) -> nat
    decreases n,
{
    if n == 0 || n > files.len() {
        0
    } else {
        count_listed(files, (n - 1) as nat, calibre) + (if listed_format(
            files[n - 1].path@,
            calibre,
        ) is Some {
            1nat
        } else {
            0
        })
    }
}

/// A library is a Calibre library exactly where it has the database of one.
pub proof fn law_calibre_libraries(listing: Listing)
    ensures
        mode_of(listing) == LibraryMode::Calibre <==> listing.has_metadata_db,
        mode_of(listing) == LibraryMode::Standard <==> !listing.has_metadata_db,
{
}

proof fn lemma_first_text(nodes: Seq<(Seq<char>, Option<Seq<char>>)>, tag: Seq<char>, i: int, k: int)
    requires
        0 <= i <= k < nodes.len(),
        nodes[k].0 == tag,
        nodes[k].1 is Some,
        forall|j: int| i <= j < k ==> (#[trigger] nodes[j]).0 != tag || nodes[j].1 is None,
    ensures
        first_text(nodes, tag, i) == Some(trimmed(nodes[k].1->0)),
    decreases k - i,
{
    if i < k {
        assert(nodes[i].0 != tag || nodes[i].1 is None);
        lemma_first_text(nodes, tag, i + 1, k);
    }
}

proof fn lemma_no_text(nodes: Seq<(Seq<char>, Option<Seq<char>>)>, tag: Seq<char>, i: int)
    requires
        0 <= i,
        forall|j: int| i <= j < nodes.len() ==> (#[trigger] nodes[j]).0 != tag || nodes[j].1 is None,
    ensures
        first_text(nodes, tag, i) is None,
    decreases nodes.len() - i,
{
    if i < nodes.len() {
        lemma_no_text(nodes, tag, i + 1);
    }
}

/// A described book goes by its first title, and by its first author behind a hyphen where that is not
/// blank; white space around them does not count. Without a title the description names nothing.
pub proof fn law_described_books(
    nodes: Seq<(Seq<char>, Option<Seq<char>>)>,
    t: int,
    c: int,
    title: Seq<char>,
    author: Seq<char>,
)
    requires
        0 <= t < nodes.len(),
        nodes[t] == ("title"@, Some(title)),
        forall|j: int| 0 <= j < t ==> (#[trigger] nodes[j]).0 != "title"@ || nodes[j].1 is None,
    ensures
        0 <= c < nodes.len() && nodes[c] == ("creator"@, Some(author)) && (forall|j: int|
            0 <= j < c ==> (#[trigger] nodes[j]).0 != "creator"@ || nodes[j].1 is None) && trimmed(
            author,
        ).len() > 0 ==> described_name(nodes) == Some(trimmed(title) + " - "@ + trimmed(author)),
        0 <= c < nodes.len() && nodes[c] == ("creator"@, Some(author)) && (forall|j: int|
            0 <= j < c ==> (#[trigger] nodes[j]).0 != "creator"@ || nodes[j].1 is None) && trimmed(
            author,
        ).len() == 0 ==> described_name(nodes) == Some(trimmed(title)),
        (forall|j: int|
            0 <= j < nodes.len() ==> (#[trigger] nodes[j]).0 != "creator"@ || nodes[j].1 is None)
            ==> described_name(nodes) == Some(trimmed(title)),
{
    lemma_first_text(nodes, "title"@, 0, t);
    if 0 <= c < nodes.len() && nodes[c] == ("creator"@, Some(author)) && (forall|j: int|
        0 <= j < c ==> (#[trigger] nodes[j]).0 != "creator"@ || nodes[j].1 is None) {
        lemma_first_text(nodes, "creator"@, 0, c);
    }
    if forall|j: int|
        0 <= j < nodes.len() ==> (#[trigger] nodes[j]).0 != "creator"@ || nodes[j].1 is None {
        lemma_no_text(nodes, "creator"@, 0);
    }
}

/// A description is read unless its elements are nested more than two hundred and fifty-six deep or it is no
/// XML, and then names the book.
pub proof fn law_descriptions_are_read(content: Seq<char>)
    ensures
        nesting(content) > 256 ==> opf_name(content) is None,
        xml_nodes(content) is None ==> opf_name(content) is None,
        nesting(content) <= 256 && xml_nodes(content) is Some ==> opf_name(content) == described_name(
            xml_nodes(content)->0,
        ),
{
}

/// A description without a title names no book.
pub proof fn law_undescribed_books(nodes: Seq<(Seq<char>, Option<Seq<char>>)>)
    requires
        forall|j: int| 0 <= j < nodes.len() ==> (#[trigger] nodes[j]).0 != "title"@ || nodes[j].1 is None,
    ensures
        described_name(nodes) is None,
{
    lemma_no_text(nodes, "title"@, 0);
}

// ---------------------------------------------------------------------------------------------
// Order
// ---------------------------------------------------------------------------------------------
/// Books are listed by their names, whatever the case of their letters; by type, PDF and DjVu documents
/// come before EPUB books and these before pages of HTML, and each by name.
pub proof fn law_order_of_books(
    books: Seq<BookView>,
    sorted: Seq<BookView>,
    by_type: bool,
    i: int,
    j: int,
)
    requires
        sorted_from(
            books,
            sorted,
            if by_type {
                BookSortOrder::ByType
            } else {
                BookSortOrder::ByName
            },
        ),
        0 <= i < j < sorted.len(),
    ensures
        ({
            let a = sorted[i];
            let b = sorted[j];
            let document = |f: BookFormat| f == BookFormat::Pdf || f == BookFormat::Djvu;
            let in_order = !text_lt(lowercased(b.display_name), lowercased(a.display_name));
            &&& !by_type ==> in_order
            &&& by_type && a.format == b.format ==> in_order
            &&& by_type && document(a.format) && document(b.format) ==> in_order
            &&& by_type && document(b.format) ==> document(a.format)
            &&& by_type && b.format == BookFormat::Epub ==> a.format != BookFormat::Html
        }),
{
    let order = if by_type {
        BookSortOrder::ByType
    } else {
        BookSortOrder::ByName
    };
    law_sorted_books_are_in_order(books, sorted, order, i, j);
}

/// Books that cannot be shown are left out, and the others stay in their order.
pub proof fn law_shown_books_stay_in_order(books: Seq<BookView>, last: BookView, paged: bool)
    ensures
        ({
            let all = books.push(last);
            let before = shown(books, books.len(), paged);
            let after = shown(all, all.len(), paged);
            let document = last.format == BookFormat::Pdf || last.format == BookFormat::Djvu;
            &&& paged || !document ==> after == before.push(last)
            &&& !paged && document ==> after == before
        }),
{
    lemma_shown_prefix(books, last, books.len(), paged);
}

proof fn lemma_shown_prefix(books: Seq<BookView>, last: BookView, n: nat, paged: bool)
    requires
        n <= books.len(),
    ensures
        shown(books.push(last), n, paged) == shown(books, n, paged),
    decreases n,
{
    if n > 0 {
        lemma_shown_prefix(books, last, (n - 1) as nat, paged);
    }
}

// ---------------------------------------------------------------------------------------------
// Archives
// ---------------------------------------------------------------------------------------------
/// A page of HTML is read as a page, a directory named like an EPUB archive as a directory, and everything
/// else as an archive.
pub proof fn law_sources_of_books(dir: Seq<char>, stem: Seq<char>, ext: Seq<char>, is_dir: bool)
    requires
        is_stem(stem),
        is_extension(ext),
    ensures
        ({
            let source = source_of(below(dir, dotted(stem, ext)), is_dir);
            let page = lowercased(ext) == "html"@ || lowercased(ext) == "htm"@;
            &&& source == EpubSource::Page <==> page
            &&& source == EpubSource::Directory <==> !page && is_dir && ext == "epub"@
        }),
{
    law_stem_and_extension(dir, stem, ext, seq!['a']);
    law_format_of_an_extension(dir, stem, ext, seq!['a']);
}

/// The archive of a directory takes every file of it but its type, which stands apart, and what a file
/// manager left; backslashes in names become slashes, and the type alone is not compressed.
pub proof fn law_files_of_an_archive(dir: Seq<char>, name: Seq<char>, files: Seq<Seq<char>>, last: Seq<char>)
    requires
        is_name(name),
    ensures
        is_packed(below(dir, name)) <==> name != ".DS_Store"@,
        name != ".DS_Store"@ && name != "mimetype"@ ==> is_packed(name),
        !is_packed("mimetype"@),
        packed(last).source == last,
        packed(last).compressed,
        !type_file().compressed,
        type_file().name == "mimetype"@,
        is_packed(last) ==> packed_of(files.push(last), files.len() + 1) == packed_of(
            files,
            files.len(),
        ).push(last),
        !is_packed(last) ==> packed_of(files.push(last), files.len() + 1) == packed_of(
            files,
            files.len(),
        ),
{
    law_file_name(dir, name);
    law_components_below(dir, name);
    lemma_packed_prefix(files, last, files.len());
    reveal_strlit("mimetype");
    reveal_strlit(".DS_Store");
    let m = "mimetype"@;
    assert(m.len() == 8 && m[0] == 'm');
    assert(".DS_Store"@.len() == 9);
    assert(is_name(m)) by {
        assert(seq!['.'].len() == 1);
        assert(seq!['.', '.'].len() == 2);
    }
    law_components_below(dir, m);
    law_file_name(dir, m);
    assert(paths::components(name)[0] == name);
    assert(seq!["mimetype"@][0] == "mimetype"@);
    lemma_directory_is_no_type(dir, name);
}

proof fn lemma_directory_is_no_type(dir: Seq<char>, name: Seq<char>)
    requires
        is_name(name),
    ensures
        paths::is_rooted(below(dir, name)) || paths::components(below(dir, name)) != seq!["mimetype"@],
{
    law_components_below(dir, name);
    if dir.len() > 0 && !paths::is_rooted(dir) {
        text::lemma_index_from(dir, '/', 0);
        let to = paths::slash_from(dir, 0);
        assert(to > 0);
        assert(paths::counts(dir, 0, to));
        assert(paths::component_ranges(dir, 0).len() > 0);
        assert(paths::components(dir).len() > 0);
        assert(paths::components(below(dir, name)).len() >= 2);
    }
}

proof fn lemma_packed_prefix(files: Seq<Seq<char>>, last: Seq<char>, n: nat)
    requires
        n <= files.len(),
    ensures
        packed_of(files.push(last), n) == packed_of(files, n),
    decreases n,
{
    if n > 0 {
        lemma_packed_prefix(files, last, (n - 1) as nat);
    }
}

/// A page becomes a book of one chapter that holds the page whole, under the title of the page, or the name
/// of its file where it has none; a whole document stays as it is.
pub proof fn law_page_becomes_a_book(html: Seq<char>, dir: Seq<char>, name: Seq<char>, title: Seq<char>)
    requires
        is_name(name),
    ensures
        ({
            let titled = page_archive(html, below(dir, name), Some(title));
            let named = page_archive(html, below(dir, name), None);
            &&& titled.len() == 5
            &&& titled[0] == ("mimetype"@, "application/epub+zip"@)
            &&& titled[1].0 == "META-INF/container.xml"@
            &&& titled[2].0 == "OEBPS/content.opf"@ && occurs(titled[2].1, title)
            &&& titled[3].0 == "OEBPS/toc.ncx"@ && occurs(titled[3].1, title) && occurs(
                titled[3].1,
                name,
            )
            &&& titled[4].0 == "OEBPS/chapter1.xhtml"@ && occurs(titled[4].1, html)
            &&& occurs(html, "<!DOCTYPE"@) ==> titled[4].1 == html
            &&& !occurs(html, "<!DOCTYPE"@) ==> occurs(titled[4].1, title)
            &&& named == page_archive(html, below(dir, name), Some(name))
        }),
{
    law_file_name(dir, name);
    let path = below(dir, name);
    let titled = page_archive(html, path, Some(title));
    let e = Seq::<char>::empty();
    let id = crate::book_manager::page_identifier(path);
    let package = titled[2].1;
    let rest = crate::book_manager::PACKAGE_TITLED@ + id + crate::book_manager::PACKAGE_TAIL@;
    law_parts_occur(crate::book_manager::PACKAGE_HEAD@, title, rest);
    assert(package =~= crate::book_manager::PACKAGE_HEAD@ + title + rest);
    let toc = titled[3].1;
    let a = crate::book_manager::TOC_HEAD@ + id + crate::book_manager::TOC_IDENTIFIED@;
    let b = crate::book_manager::TOC_TITLED@ + name + crate::book_manager::TOC_TAIL@;
    law_parts_occur(a, title, b);
    assert(toc =~= a + title + b);
    law_parts_occur(
        a + title + crate::book_manager::TOC_TITLED@,
        name,
        crate::book_manager::TOC_TAIL@,
    );
    assert(toc =~= a + title + crate::book_manager::TOC_TITLED@ + name
        + crate::book_manager::TOC_TAIL@);
    law_parts_occur(e, html, e);
    assert(e + html + e =~= html);
    let head = crate::book_manager::PAGE_HEAD@ + title + crate::book_manager::PAGE_TITLED@;
    law_parts_occur(head, html, crate::book_manager::PAGE_TAIL@);
    let behind = crate::book_manager::PAGE_TITLED@ + html + crate::book_manager::PAGE_TAIL@;
    law_parts_occur(crate::book_manager::PAGE_HEAD@, title, behind);
    assert(page_text(html, title) =~= crate::book_manager::PAGE_HEAD@ + title + behind || occurs(
        html,
        "<!DOCTYPE"@,
    ));
}

/// A page without a name of its own is called an HTML document.
pub proof fn law_nameless_pages(html: Seq<char>)
    ensures
        page_archive(html, Seq::empty(), None) == page_archive(
            html,
            Seq::empty(),
            Some("HTML Document"@),
        ),
{
    let name = seq!['a'];
    assert(name[0] == 'a' && name.len() == 1);
    assert(seq!['.'][0] == '.' && seq!['.', '.'].len() == 2);
    law_parent(Seq::empty(), name, name);
    assert(paths::components(Seq::<char>::empty()) =~= Seq::empty());
}

/// An archive begins with its type where there is one; every file that goes into it is there, and the files
/// follow each other by their names.
pub proof fn law_archives_hold_their_files(
    files: Seq<Seq<char>>,
    typed: bool,
    archive: Seq<PackedView>,
    k: int,
    i: int,
    j: int,
)
    requires
        is_archive_of(files, typed, archive),
        packed_of(files, files.len()).len() <= usize::MAX,
    ensures
        ({
            let kept = packed_of(files, files.len());
            let first = if typed {
                1int
            } else {
                0
            };
            &&& archive.len() == kept.len() + first
            &&& typed ==> archive[0].name == "mimetype"@ && !archive[0].compressed
            &&& 0 <= k < kept.len() ==> exists|p: int|
                first <= p < archive.len() && (#[trigger] archive[p]).source == kept[k]
            &&& first <= i < j < archive.len() ==> !text_lt(archive[j].source, archive[i].source)
            &&& first <= i < archive.len() ==> archive[i].compressed
        }),
{
    let kept = packed_of(files, files.len());
    let keys = text_keys(kept);
    let head = if typed {
        seq![type_file()]
    } else {
        Seq::empty()
    };
    let first = head.len() as int;
    let places = choose|places: Seq<usize>|
        is_order(keys, places) && archive == head + (#[trigger] taken(kept, places)).map_values(
            |s: Seq<char>| packed(s),
        );
    assert(archive.len() == kept.len() + first);
    if 0 <= k < kept.len() {
        assert(places.contains(k as usize));
        let p = choose|p: int| 0 <= p < places.len() && places[p] == k as usize;
        assert(archive[p + first].source == kept[k]);
    }
    if first <= i < j < archive.len() {
        let a = places[i - first] as int;
        let b = places[j - first] as int;
        assert(a < keys.len() && b < keys.len());
        assert(listed_before(keys, a, b));
        crate::text::lemma_text_order_total(kept[a], kept[b]);
        assert(archive[i].source == kept[a] && archive[j].source == kept[b]);
    }
}

} // verus!
