use bookokrat::main_app::chapters::{
    bookmark_href, count_chapter_nodes, extract_book_title, find_chapter_by_filename,
    find_chapter_index_by_href, find_chapter_recursive, find_spine_index_by_href, get_chapter_href,
    is_backmatter_title, is_non_content_chapter, normalize_href, percent_decode, printed_number_of,
    toc_destination, words_of, ChapterNodeCounts, ChapterText, TocItem,
};
use bookokrat::main_app::state::TocDestination;
use bookokrat::text::{
    chars_of, decimal_of, hex_of, lines_of, parse_uint, replace, split_chars, trim_str,
};
use bookokrat::paths::{extension, file_name, file_stem, join, parent, with_extension};

fn spine(paths: &[&str]) -> Vec<Option<String>> {
    paths
        .iter()
        .map(|p| if p.is_empty() { None } else { Some(p.to_string()) })
        .collect()
}

/// What a plain decoder makes of a text.
fn decoded(input: &str) -> String {
    let mut result = String::new();
    let mut chars = input.chars();
    while let Some(c) = chars.next() {
        if c == '%' {
            let hex: String = chars.by_ref().take(2).collect();
            if hex.len() == 2 {
                if let Ok(byte) = u8::from_str_radix(&hex, 16) {
                    result.push(byte as char);
                    continue;
                }
            }
            result.push('%');
            result.push_str(&hex);
        } else {
            result.push(c);
        }
    }
    result
}

#[test]
fn percent_signs_are_decoded() {
    assert_eq!(percent_decode("it%27s"), "it's");
    assert_eq!(percent_decode("100%"), "100%");
    assert_eq!(percent_decode("caf%C3%A9"), "caf\u{e9}");
    assert_eq!(percent_decode("%E2%82%AC%205%25"), "\u{20ac} 5%");
    assert_eq!(percent_decode("%+5"), "%+5");
    for s in [
        "", "%", "%4", "%41", "%zz", "%-5", "%e9", "%E9x", "a%20b%2", "%%41", "%\u{e9}1",
        "%\u{e9}", "\u{e9}%41", "%41%42%43",
    ] {
        assert_eq!(percent_decode(s), decoded(s), "{s:?}");
    }
}

#[test]
fn backmatter_is_told_from_content() {
    for t in ["Index", " glossary ", "Further   Reading", "LIST OF TABLES", "Works\nCited", "Subject Index", "Author Index", "Selected Bibliography"] {
        assert!(is_non_content_chapter(&Some(t.to_string()), ""));
    }
    for t in ["B-Tree Indexes", "Index Structures", "Glossary-Based Methods", "Building an Index", ""] {
        assert!(!is_non_content_chapter(&Some(t.to_string()), "<p>text</p>"));
    }
    assert!(is_backmatter_title("works cited") && !is_backmatter_title("Works Cited"));
    assert!(is_non_content_chapter(&None, "<section epub:type=\"glossary\">"));
    assert!(!is_non_content_chapter(&None, "<section epub:type=\"chapter\">"));
}

#[test]
fn words_are_cut_at_white_space() {
    assert_eq!(words_of(&chars_of("  a\tb\u{a0}c \n")), vec!["a", "b", "c"]);
    assert!(words_of(&chars_of(" \n")).is_empty());
}

#[test]
fn nodes_are_counted() {
    let chapter = |title: &str, blocks: usize| {
        Some(ChapterText { title: Some(title.to_string()), html: String::new(), blocks })
    };
    assert_eq!(count_chapter_nodes(&chapter("One", 7)), 7);
    assert_eq!(count_chapter_nodes(&chapter("Index", 7)), 0);
    assert_eq!(count_chapter_nodes(&None), 0);
}

#[test]
fn progress_grows_through_the_book() {
    let counts = ChapterNodeCounts::from_counts(vec![3, 0, 5]).unwrap();
    assert_eq!(counts.total, 8);
    assert_eq!((counts.progress(0, 0).done, counts.progress(0, 0).total), (0, 8));
    assert_eq!(counts.progress(0, 9).done, 3);
    assert_eq!(counts.progress(2, 4).done, 7);
    assert_eq!(counts.progress(9, 4).done, 8);
    let even = ChapterNodeCounts::from_total(10, 3);
    assert_eq!(even.counts, vec![3, 3, 3]);
    assert_eq!(even.progress(2, 3).done, 9);
    assert!(ChapterNodeCounts::from_total(10, 0).counts.is_empty());
    assert!(ChapterNodeCounts::from_counts(vec![usize::MAX, 1]).is_none());
}

#[test]
fn chapters_are_found_by_path() {
    let s = spine(&["OEBPS/cover.xhtml", "", "OEBPS/text/ch1.xhtml", "OEBPS/text/it's.xhtml"]);
    assert_eq!(get_chapter_href(&s, 2).as_deref(), Some("OEBPS/text/ch1.xhtml"));
    assert_eq!(get_chapter_href(&s, 1), None);
    assert_eq!(get_chapter_href(&s, 9), None);
    assert_eq!(find_chapter_index_by_href(&s, "ch1"), Some(2));
    assert_eq!(find_chapter_index_by_href(&s, "x/OEBPS/cover.xhtml#a"), Some(0));
    assert_eq!(find_chapter_index_by_href(&s, "nowhere"), None);
    assert_eq!(find_spine_index_by_href(&s, "../text/ch1.xhtml#sec"), Some(2));
    assert_eq!(find_spine_index_by_href(&s, "text/it%27s.xhtml"), Some(3));
    assert_eq!(find_spine_index_by_href(&s, "ch2.xhtml"), None);
    assert_eq!(normalize_href("../.././OEBPS/a%20b.xhtml#x"), "a b.xhtml");
    assert_eq!(normalize_href("./../a"), "../a");
    assert_eq!(bookmark_href(&s, 2), "OEBPS/text/ch1.xhtml");
}

#[test]
fn chapters_are_found_in_the_table_of_contents() {
    let s = spine(&["a.xhtml", "text/b.xhtml", "text/c.xhtml"]);
    let toc = vec![
        TocItem::Chapter { href: "a.xhtml#top".to_string() },
        TocItem::Section {
            section_href: Some("text/b.xhtml".to_string()),
            children: vec![TocItem::Chapter { href: "text/c.xhtml".to_string() }],
        },
    ];
    assert_eq!(find_chapter_recursive(&toc, "c.xhtml", &s), Some(2));
    assert_eq!(find_chapter_recursive(&toc, "text/b.xhtml", &s), Some(1));
    assert_eq!(find_chapter_recursive(&toc, "xhtml", &s), None);
    assert_eq!(find_chapter_by_filename(&Some(toc), "a.xhtml", &s), Some(0));
    assert_eq!(find_chapter_by_filename(&None, "b.xhtml", &s), Some(1));
    assert_eq!(find_chapter_by_filename(&None, "d.xhtml", &s), None);
}

#[test]
fn table_of_contents_links_lead_to_pages() {
    let s = spine(&["a.xhtml"]);
    assert_eq!(toc_destination("pdf:page:7", None, None, &s), TocDestination::PdfPage(Some(7)));
    assert_eq!(toc_destination("pdf:page:x", None, None, &s), TocDestination::PdfPage(None));
    assert_eq!(toc_destination("pdf:printed:3", None, Some(9), &s), TocDestination::PdfPage(Some(2)));
    assert_eq!(toc_destination("pdf:printed:3", Some(5), Some(9), &s), TocDestination::PdfPage(Some(5)));
    assert_eq!(toc_destination("pdf:printed:0", None, Some(9), &s), TocDestination::PdfPage(None));
    assert_eq!(toc_destination("pdf:printed:10", None, Some(9), &s), TocDestination::PdfPage(None));
    assert_eq!(toc_destination("pdf:external:u", None, Some(9), &s), TocDestination::External);
    assert_eq!(toc_destination("a.xhtml#x", None, None, &s), TocDestination::Chapter(Some(0)));
    assert_eq!(toc_destination("b.xhtml", None, None, &s), TocDestination::Chapter(None));
    assert_eq!(printed_number_of("pdf:printed:12"), Some(12));
    assert_eq!(printed_number_of("pdf:page:12"), None);
}

#[test]
fn titles_come_from_files() {
    assert_eq!(extract_book_title("/a/Moby Dick.epub"), "Moby Dick");
    assert_eq!(extract_book_title("/"), "book");
    assert_eq!(extract_book_title(".epub"), ".epub");
}

#[test]
fn texts_are_treated_as_the_standard_library_does() {
    for s in ["", "a", " a ", "\u{3000}x\u{85}", "a\n\nb\r\n", "\n", "a,b,,c", "\u{1f600}\n"] {
        assert_eq!(trim_str(s), s.trim(), "{s:?}");
        let cs = chars_of(s);
        let found: Vec<String> = lines_of(&cs).iter().map(|l| l.iter().collect()).collect();
        let expected: Vec<&str> = s.lines().collect();
        assert_eq!(found, expected, "{s:?}");
        let found: Vec<String> = split_chars(&cs, ',').iter().map(|l| l.iter().collect()).collect();
        let expected: Vec<&str> = s.split(',').collect();
        assert_eq!(found, expected, "{s:?}");
        assert_eq!(replace(s, "a", "xy"), s.replace("a", "xy"));
    }
    for s in ["", "0", "+7", "-1", "00012", "18446744073709551615", "18446744073709551616", "1x", "+"] {
        assert_eq!(parse_uint(&chars_of(s), u64::MAX), s.parse::<u64>().ok(), "{s:?}");
        assert_eq!(parse_uint(&chars_of(s), 255), s.parse::<u8>().ok().map(u64::from), "{s:?}");
    }
    for n in [0, 7, 10, 4711, u64::MAX] {
        assert_eq!(decimal_of(n), n.to_string());
        assert_eq!(hex_of(n, 16), format!("{n:016x}"));
    }
}

#[test]
fn paths_are_taken_apart_as_the_standard_library_does() {
    let text = |v: Option<Vec<char>>| -> Option<String> { v.map(|c| c.into_iter().collect()) };
    for s in [
        "", "/", "a", "a/", "/a", "a/b.c", "/a/b.tar.gz", ".x", "a/.x", "..", "a/..", "./a", "a/./b",
        "a//b", "a/b/", "/..", "a.", "x/a.b/.", "//", ".", "a/.", "\u{e9}.\u{e8}",
    ] {
        let p = std::path::Path::new(s);
        let cs = chars_of(s);
        let own_name = p.file_name().map(|x| x.to_string_lossy().into_owned());
        let own_stem = p.file_stem().map(|x| x.to_string_lossy().into_owned());
        let own_extension = p.extension().map(|x| x.to_string_lossy().into_owned());
        assert_eq!(text(file_name(&cs)), own_name, "name of {s:?}");
        assert_eq!(text(file_stem(&cs)), own_stem, "stem of {s:?}");
        assert_eq!(text(extension(&cs)), own_extension, "extension of {s:?}");
        assert_eq!(
            text(parent(&cs)),
            p.parent().map(|x| x.to_string_lossy().into_owned()),
            "parent of {s:?}"
        );
        for t in ["", "x", "x/y", "/x"] {
            assert_eq!(join(s, t), p.join(t).to_string_lossy(), "{s:?} joined with {t:?}");
        }
        assert_eq!(with_extension(s, "tex"), p.with_extension("tex").to_string_lossy(), "{s:?}");
    }
}
