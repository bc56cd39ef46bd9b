use std::io::{Cursor, Write};

use bookokrat::book_manager::{
    create_minimal_epub_from_html, epub_directory_files, extract_display_name, format_of_extension,
    name_from_nodes, parse_calibre_opf, sort_order, BookFormat, BookInfo, BookManager,
    BookSortOrder, EpubSource, FoundFile, LibraryMode, Listing, MAX_NESTING, SortKey, XmlNode,
};
use bookokrat::markup::nesting_of;

fn listing(names: &[&str]) -> Listing {
    Listing {
        has_metadata_db: false,
        files: names
            .iter()
            .map(|n| FoundFile { path: n.to_string(), opf: None })
            .collect(),
    }
}

fn names(books: &[BookInfo]) -> Vec<&str> {
    books.iter().map(|b| b.display_name.as_str()).collect()
}

#[test]
fn get_books_filters_pdf_and_djvu_when_pdf_disabled() {
    let files = listing(&["/t/novel.epub", "/t/paper.pdf", "/t/scan.djvu"]);
    let mut manager = BookManager::new_with_directory("/t", &files);
    assert_eq!(manager.books.len(), 3, "all 3 files should be discovered");

    manager.supports_graphics = true;
    let filtered = manager.get_books(false, BookSortOrder::ByName);
    let formats: Vec<_> = filtered.iter().map(|b| b.format).collect();

    assert!(
        !formats.contains(&BookFormat::Pdf),
        "PDF books should be filtered out when pdf is disabled"
    );
    assert!(
        !formats.contains(&BookFormat::Djvu),
        "DJVU books should be filtered out when pdf is disabled"
    );
    assert_eq!(filtered.len(), 1, "only the epub should remain");
    assert_eq!(manager.get_books(true, BookSortOrder::ByName).len(), 3);
}

#[test]
fn get_books_filters_pdf_and_djvu_when_no_graphics_support() {
    let files = listing(&["/t/novel.epub", "/t/paper.pdf", "/t/scan.djvu"]);
    let manager = BookManager::new_with_directory("/t", &files);
    assert_eq!(manager.books.len(), 3, "all 3 files should be discovered");

    let filtered = manager.get_books(true, BookSortOrder::ByName);
    let formats: Vec<_> = filtered.iter().map(|b| b.format).collect();

    assert!(
        !formats.contains(&BookFormat::Pdf),
        "PDF books should be filtered out when terminal has no graphics support"
    );
    assert!(
        !formats.contains(&BookFormat::Djvu),
        "DJVU books should be filtered out when terminal has no graphics support"
    );
    assert_eq!(filtered.len(), 1, "only the epub should remain");
}

const EXPLODED: [(&str, &str); 5] = [
    ("OEBPS/toc.ncx", "<?xml version=\"1.0\" encoding=\"UTF-8\"?>
<ncx xmlns=\"http://www.daisy.org/z3986/2005/ncx/\" version=\"2005-1\">
    <head><meta name=\"dtb:uid\" content=\"exploded-1\"/></head>
    <docTitle><text>Exploded</text></docTitle>
    <navMap>
        <navPoint id=\"chapter1\" playOrder=\"1\">
            <navLabel><text>Chapter 1</text></navLabel>
            <content src=\"chapter1.xhtml\"/>
        </navPoint>
    </navMap>
</ncx>"),
    ("mimetype", "application/epub+zip"),
    ("META-INF/container.xml", "<?xml version=\"1.0\" encoding=\"UTF-8\"?>
<container version=\"1.0\" xmlns=\"urn:oasis:names:tc:opendocument:xmlns:container\">
    <rootfiles>
        <rootfile full-path=\"OEBPS/content.opf\" media-type=\"application/oebps-package+xml\"/>
    </rootfiles>
</container>"),
    ("OEBPS/content.opf", "<?xml version=\"1.0\" encoding=\"UTF-8\"?>
<package xmlns=\"http://www.idpf.org/2007/opf\" unique-identifier=\"bookid\" version=\"2.0\">
    <metadata>
        <dc:title xmlns:dc=\"http://purl.org/dc/elements/1.1/\">Exploded</dc:title>
        <dc:identifier xmlns:dc=\"http://purl.org/dc/elements/1.1/\" id=\"bookid\">exploded-1</dc:identifier>
        <dc:language xmlns:dc=\"http://purl.org/dc/elements/1.1/\">en</dc:language>
    </metadata>
    <manifest>
        <item id=\"chapter1\" href=\"chapter1.xhtml\" media-type=\"application/xhtml+xml\"/>
        <item id=\"ncx\" href=\"toc.ncx\" media-type=\"application/x-dtbncx+xml\"/>
    </manifest>
    <spine toc=\"ncx\">
        <itemref idref=\"chapter1\"/>
    </spine>
</package>"),
    ("OEBPS/chapter1.xhtml", "<?xml version=\"1.0\" encoding=\"UTF-8\"?>
<!DOCTYPE html PUBLIC \"-//W3C//DTD XHTML 1.1//EN\" \"http://www.w3.org/TR/xhtml11/DTD/xhtml11.dtd\">
<html xmlns=\"http://www.w3.org/1999/xhtml\">
<head>
    <title>Exploded</title>
</head>
<body>
    <p>Hello</p>
</body>
</html>"),
];

fn archive(entries: &[(String, String, bool)]) -> Vec<u8> {
    let mut zip = zip::ZipWriter::new(Cursor::new(Vec::new()));
    for (name, content, compressed) in entries {
        let method = if *compressed {
            zip::CompressionMethod::Deflated
        } else {
            zip::CompressionMethod::Stored
        };
        let options = zip::write::FileOptions::default().compression_method(method);
        zip.start_file(name.clone(), options).unwrap();
        zip.write_all(content.as_bytes()).unwrap();
    }
    zip.finish().unwrap().into_inner()
}

#[test]
fn load_exploded_epub_directory() {
    let manager = BookManager::new_with_directory("/t", &listing(&["/t/book.epub"]));
    assert_eq!(manager.load_epub("/t/book.epub", true), EpubSource::Directory);
    let files: Vec<String> = EXPLODED.iter().map(|(n, _)| n.to_string()).collect();
    let entries: Vec<(String, String, bool)> = epub_directory_files(&files, true)
        .into_iter()
        .map(|f| {
            let content = EXPLODED.iter().find(|(n, _)| *n == f.source).unwrap().1;
            (f.name, content.to_string(), f.compressed)
        })
        .collect();
    let order: Vec<&str> = entries.iter().map(|e| e.0.as_str()).collect();
    assert_eq!(
        order,
        vec![
            "mimetype",
            "META-INF/container.xml",
            "OEBPS/chapter1.xhtml",
            "OEBPS/content.opf",
            "OEBPS/toc.ncx"
        ]
    );
    assert!(!entries[0].2 && entries[1].2);

    let mut doc = epub::doc::EpubDoc::from_reader(Cursor::new(archive(&entries))).unwrap();

    assert!(doc.get_num_chapters() >= 1);
    assert!(doc.get_current_str().is_some());
}

#[test]
fn directories_are_packed_without_leftovers() {
    let files = vec![
        "b\\c.txt".to_string(),
        ".DS_Store".to_string(),
        "a/.DS_Store".to_string(),
        "a/mimetype".to_string(),
        "mimetype".to_string(),
    ];
    let packed = epub_directory_files(&files, false);
    let listed: Vec<(&str, &str, bool)> =
        packed.iter().map(|p| (p.name.as_str(), p.source.as_str(), p.compressed)).collect();
    assert_eq!(listed, vec![("a/mimetype", "a/mimetype", true), ("b/c.txt", "b\\c.txt", true)]);
}

#[test]
fn pages_become_books() {
    let entries = create_minimal_epub_from_html("<p>Hello</p>", "/d/page.html", Some("Title".into()));
    let files: Vec<(String, String, bool)> =
        entries.iter().map(|e| (e.name.clone(), e.content.clone(), true)).collect();
    let mut doc = epub::doc::EpubDoc::from_reader(Cursor::new(archive(&files))).unwrap();
    assert_eq!(doc.get_num_chapters(), 1);
    assert!(doc.get_current_str().unwrap().0.contains("<p>Hello</p>"));
    assert!(files[2].1.contains(">Title</dc:title>"));
    assert!(files[2].1.contains("html-_d_page.html<"));
    assert!(files[3].1.contains("<text>page.html</text>"));
    let whole = "<!DOCTYPE html><html><body>x</body></html>";
    let entries = create_minimal_epub_from_html(whole, "page.html", None);
    assert_eq!(entries[4].content, whole);
    assert!(entries[2].content.contains(">page.html</dc:title>"));
    assert_eq!(entries[0].content, "application/epub+zip");
}

#[test]
fn formats_follow_extensions() {
    assert_eq!(format_of_extension("epub"), Some(BookFormat::Epub));
    assert_eq!(format_of_extension("htm"), Some(BookFormat::Html));
    assert_eq!(format_of_extension("txt"), None);
    assert_eq!(BookManager::detect_format("/a/B.PDF"), Some(BookFormat::Pdf));
    assert_eq!(BookManager::detect_format("/a/b.HtMl"), Some(BookFormat::Html));
    assert_eq!(BookManager::detect_format("/a/b.djv"), Some(BookFormat::Djvu));
    assert_eq!(BookManager::detect_format("/a/.epub"), None);
    assert_eq!(BookManager::detect_format("/a/b"), None);
}

#[test]
fn book_sources_are_told_apart() {
    let manager = BookManager::new(&listing(&[]));
    assert_eq!(manager.load_epub("/a/b.html", false), EpubSource::Page);
    assert_eq!(manager.load_epub("/a/b.epub", false), EpubSource::Archive);
    assert_eq!(manager.load_epub("/a/b.epub", true), EpubSource::Directory);
    assert!(BookManager::is_epub_directory("/a/b.epub", true));
    assert!(!BookManager::is_epub_directory("/a/b.epub", false));
    assert!(!BookManager::is_epub_directory("/a/b", true));
    assert!(manager.is_html_file("x.htm") && !manager.is_html_file("x.epub"));
    assert!(manager.is_pdf_file("x.pdf") && manager.is_djvu_file("x.djvu"));
}

#[test]
fn books_are_found_by_path() {
    let mut manager = BookManager::new(&listing(&["/t/a.epub", "/t/readme.txt", "/t/b.html"]));
    assert_eq!(manager.books.len(), 2);
    assert_eq!(manager.library_mode, LibraryMode::Standard);
    assert!(!manager.is_calibre_mode());
    assert_eq!(manager.find_book_index_by_path("/t/b.html"), Some(1));
    assert_eq!(manager.find_book_index_by_path("/t/c.html"), None);
    assert!(manager.contains_book("/t/a.epub"));
    assert_eq!(manager.get_book_info(1).unwrap().path, "/t/b.html");
    assert!(manager.get_book_info(2).is_none());
    assert_eq!(manager.get_book_by_path("/t/a.epub").unwrap().format, BookFormat::Epub);
    assert_eq!(manager.get_format("/t/b.html"), Some(BookFormat::Html));
    manager.refresh(&listing(&["/t/z.epub"]).files);
    assert_eq!(manager.books.len(), 1);
    assert!(manager.contains_book("/t/z.epub"));
}

#[test]
fn nesting_is_counted() {
    for (content, expected) in [
        ("", 0),
        ("a > b /> c", 0),
        ("<a/>", 1),
        ("<a></a>", 1),
        ("<?xml version='1.0'?><a><b/><b/></a>", 2),
        ("<a><b></b><b></b></a>", 2),
        ("<a><!-- </a></a> --><b/></a>", 2),
        ("<a><![CDATA[</a></a>]]><b/></a>", 2),
        ("<a><?pi </a> ?><b/></a>", 2),
        ("<a b='/>' c=\"</a>\"><b/></a>", 2),
        ("<a>/>/><b/></a>", 2),
        ("<a><a><a", 3),
        ("<a><a><a '", 3),
        ("<", 1),
        ("</a></a><a>", 1),
        ("<!DOCTYPE a><a/>", 1),
    ] {
        assert_eq!(nesting_of(content), expected, "{content}");
    }
}

#[test]
fn names_come_from_files() {
    assert_eq!(extract_display_name("/t/Moby Dick.epub"), "Moby Dick");
    assert_eq!(extract_display_name("/t/Moby Dick.EPUB"), "Moby Dick");
    assert_eq!(extract_display_name("/books/page.htm"), "page.htm");
    assert_eq!(extract_display_name("/books/Page.HTML"), "Page.HTML");
    assert_eq!(BookManager::detect_format("/books/Page.HTML"), Some(BookFormat::Html));
}

#[test]
fn books_are_sorted_by_type_and_name() {
    let mut manager = BookManager::new_with_directory(
        "/t",
        &listing(&["/t/b.html", "/t/Zeta.epub", "/t/alpha.epub", "/t/Paper.pdf", "/t/atlas.djvu"]),
    );
    manager.supports_graphics = true;
    let books = manager.get_books(true, BookSortOrder::ByType);
    let formats: Vec<BookFormat> = books.iter().map(|b| b.format).collect();
    assert_eq!(
        formats,
        vec![BookFormat::Djvu, BookFormat::Pdf, BookFormat::Epub, BookFormat::Epub, BookFormat::Html]
    );
    assert_eq!(books[2].path, "/t/alpha.epub");
    assert_eq!(books[3].path, "/t/Zeta.epub");
}

#[test]
fn sorting_is_stable() {
    let keys = |l: &[(u8, &str)]| -> Vec<SortKey> {
        l.iter().map(|(r, n)| SortKey { rank: *r, name: n.to_string() }).collect()
    };
    assert_eq!(sort_order(&keys(&[(1, "b"), (0, "z"), (1, "a"), (1, "b")])), vec![1, 2, 0, 3]);
    assert!(sort_order(&keys(&[])).is_empty());
    // Names are ordered in lower case, whatever the alphabet.
    let manager = BookManager::new(&listing(&["/t/\u{c9}a.epub", "/t/\u{e9}b.epub", "/t/A.epub"]));
    assert_eq!(names(&manager.get_books(false, BookSortOrder::ByType)), vec!["A", "\u{c9}a", "\u{e9}b"]);
}

const OPF: &str = "<?xml version='1.0'?>
<package xmlns=\"http://www.idpf.org/2007/opf\" xmlns:dc=\"http://purl.org/dc/elements/1.1/\">
<metadata><dc:title> War &amp; Peace </dc:title><dc:creator>Tolstoy</dc:creator><dc:creator>X</dc:creator></metadata>
</package>";

#[test]
fn calibre_books_are_named_by_their_description() {
    assert_eq!(parse_calibre_opf(OPF).unwrap(), "War & Peace - Tolstoy");
    assert!(parse_calibre_opf("no xml").is_none());
    assert!(parse_calibre_opf("<package/>").is_none());
    let flat = format!("<package><title>Flat</title>{}</package>", "<meta/>".repeat(5000));
    assert_eq!(parse_calibre_opf(&flat).unwrap(), "Flat");
    let flat = format!("<package><title>Flat</title>{}</package>", "<m></m>".repeat(5000));
    assert_eq!(parse_calibre_opf(&flat).unwrap(), "Flat");
    let nested = |n: usize| {
        format!("<package>{}<title>Deep</title>{}</package>", "<a>".repeat(n), "</a>".repeat(n))
    };
    assert_eq!(parse_calibre_opf(&nested(MAX_NESTING - 2)).unwrap(), "Deep");
    assert!(parse_calibre_opf(&nested(MAX_NESTING - 1)).is_none());
    assert!(parse_calibre_opf(&"<a>".repeat(200_000)).is_none());
    let hidden = format!("<a>{}", "<a b='/>'><!-- </a> --><![CDATA[</a>]]><?p </a>?>/>".repeat(50_000));
    assert!(parse_calibre_opf(&hidden).is_none());
    let files = Listing {
        has_metadata_db: true,
        files: vec![
            FoundFile { path: "/c/x/wp.epub".into(), opf: Some(OPF.into()) },
            FoundFile { path: "/c/y/other.epub".into(), opf: Some("broken".into()) },
            FoundFile { path: "/c/y/page.html".into(), opf: None },
        ],
    };
    let manager = BookManager::new_with_directory("/c", &files);
    assert!(manager.is_calibre_mode());
    let mut listed = names(&manager.books);
    listed.sort();
    assert_eq!(listed, vec!["War & Peace - Tolstoy", "other"]);
}

#[test]
fn descriptions_without_an_author_give_the_title() {
    let node = |n: &str, t: Option<&str>| XmlNode { name: n.into(), text: t.map(str::to_string) };
    assert_eq!(name_from_nodes(&vec![node("title", None), node("title", Some(" T "))]).unwrap(), "T");
    assert_eq!(
        name_from_nodes(&vec![node("creator", Some("  ")), node("title", Some("T"))]).unwrap(),
        "T"
    );
    assert!(name_from_nodes(&vec![node("creator", Some("A"))]).is_none());
}
