use std::collections::HashMap;

use bookokrat::inputs::terminal_input::KittyResponse;
use bookokrat::main_app::chapters::TocItem;
use bookokrat::main_app::jumps::{
    current_book_path_for_marks, handle_link_click, jump_to_location, jump_to_mark,
    mark_step_failure, navigate_to_chapter_by_file, persist_toc_expansion_state, JumpStep,
    LinkAction, LinkInfo, LinkType, MarkLocation, MarkStep,
};
use bookokrat::main_app::library_context::{
    next_open_step, Bookmarks, Contexts, LibraryContext, OpenStep, SourceNeeds, WhichContext,
};
use bookokrat::main_app::opening::{
    color_to_i32, handle_kitty_eviction_responses, load_epub, palette_to_mupdf_colors,
    re_enqueue_pdf_images, should_auto_load_recent, ChapterCursor, InitialBookmark, RedrawCommand,
};
use bookokrat::main_app::pdf_toc::{
    collect_toc_item_pages, copy_pdf_toc_selection, copy_refusal_of, merge_pages, parse_page_from_href, PdfTocItem,
    TocCopy, TocEntry, TocTarget,
};
use bookokrat::main_app::state::{NotificationLevel, Notice};
use bookokrat::main_app::synctex_source::{
    handle_synctex_command, handle_synctex_inverse, make_editor_command, refresh_synctex_state,
    resolve_synctex_editor_file, synctex_candidates, test_failure_message, test_synctex_editor,
    InversePlan,
};

fn context(path: &str) -> LibraryContext {
    LibraryContext::load_from_bookmarks_path(
        path,
        Bookmarks { handle: 1, file_path: Some(path.to_string()) },
    )
}

#[test]
fn foreign_books_use_their_own_library() {
    let home = context("/lib/home/bookmarks.json");
    assert_eq!(home.comments_dir().map(String::as_str), Some("/lib/home/comments"));
    let mut contexts = Contexts { home, current_override: None };
    let other = "/lib/other/bookmarks.json".to_string();
    assert!(matches!(contexts.context_override_for_source_bookmarks(&other), SourceNeeds::Load));
    assert!(matches!(
        contexts.context_override_for_source_bookmarks("/lib/home/bookmarks.json"),
        SourceNeeds::Nothing
    ));
    assert!(contexts.context_for_source_bookmarks(&Some(other.clone())).is_none());
    assert!(matches!(contexts.context_for_source_bookmarks(&None), Some(WhichContext::Home)));
    let previous = contexts.begin_open(Some(context(&other)));
    assert!(previous.is_none());
    contexts.finish_open(previous, true);
    assert_eq!(contexts.current_book_context().file_path(), Some(&other));
    assert!(matches!(
        contexts.context_for_source_bookmarks(&Some(other.clone())),
        Some(WhichContext::Override)
    ));
    contexts.current_book_context_mut().bookmarks_mut().handle = 9;
    assert_eq!(contexts.current_override.as_ref().unwrap().bookmarks().handle, 9);
    // A book that could not be opened leaves things as they were.
    let previous = contexts.begin_open(None);
    contexts.finish_open(previous, false);
    assert_eq!(contexts.current_book_context().file_path(), Some(&other));
    let previous = contexts.begin_open(None);
    contexts.finish_open(previous, true);
    assert_eq!(
        contexts.current_book_context().file_path().map(String::as_str),
        Some("/lib/home/bookmarks.json")
    );
}

/// Runs the opening of a book, and gives the libraries in which a place was saved.
fn open(contexts: &mut Contexts, library: Option<LibraryContext>, opens: bool) -> Vec<String> {
    let mut saved = Vec::new();
    let (mut library, mut before) = (library, None);
    let (mut opened, mut done) = (true, 0);
    while let Some(step) = next_open_step(done, opened) {
        match step {
            OpenStep::SavePlace { force } => {
                assert!(force);
                saved.push(contexts.current_book_context().file_path().unwrap().clone());
            }
            OpenStep::UseLibrary => before = contexts.begin_open(library.take()),
            OpenStep::Open => opened = opens,
            OpenStep::PutLibraryBack => contexts.finish_open(before.take(), false),
        }
        done += 1;
    }
    saved
}

#[test]
fn the_left_book_is_saved_in_its_own_library() {
    let (home, other) = ("/lib/home/bookmarks.json", "/lib/other/bookmarks.json");
    let mut contexts = Contexts { home: context(home), current_override: None };
    assert_eq!(open(&mut contexts, Some(context(other)), true), vec![home]);
    assert_eq!(contexts.current_book_context().file_path().map(String::as_str), Some(other));
    assert_eq!(open(&mut contexts, None, false), vec![other]);
    assert_eq!(contexts.current_book_context().file_path().map(String::as_str), Some(other));
    assert_eq!(open(&mut contexts, None, true), vec![other]);
    assert_eq!(contexts.current_book_context().file_path().map(String::as_str), Some(home));
    assert_eq!(next_open_step(3, true), None);
    assert_eq!(next_open_step(4, false), None);
}

/// What is stored, by the file of bookmarks and the path of the book.
type Stored = HashMap<(String, String), InitialBookmark>;

/// Opens a book, with the library it was found in where that is another one, and keeps its place.
fn read(contexts: &mut Contexts, stored: &mut Stored, path: &str, source: Option<&str>) {
    let spine: Vec<Option<String>> = (1..=3).map(|i| Some(format!("chapter_{i}"))).collect();
    let other = match source.map(|s| contexts.context_override_for_source_bookmarks(s)) {
        Some(SourceNeeds::Load) => source.map(context),
        _ => None,
    };
    let previous = contexts.begin_open(other);
    let plan = load_epub(&spine, 0, &None, false);
    let file = contexts.current_book_context().file_path().unwrap().clone();
    stored.insert((file, path.to_string()), plan.remember.unwrap());
    contexts.finish_open(previous, true);
}

#[test]
fn continue_reading_opens_wrong_book_after_cross_library_history() {
    let home_bm = "/libraries/home_lib/bookmarks.json";
    let other_bm = "/libraries/other_lib/bookmarks.json";
    let (book_a, book_b) = ("/books/book_a.epub", "/books/book_b.epub");
    let mut stored = Stored::new();

    let mut contexts = Contexts { home: context(home_bm), current_override: None };
    read(&mut contexts, &mut stored, book_a, None);
    read(&mut contexts, &mut stored, book_b, Some(other_bm));
    assert_eq!(contexts.current_book_context().file_path().map(String::as_str), Some(other_bm));

    assert!(
        !should_auto_load_recent(None, false, true),
        "`bookokrat -c` must skip the home-library auto-open path"
    );
    stored.remove(&(other_bm.to_string(), book_b.to_string()));
    let mut contexts = Contexts { home: context(home_bm), current_override: None };
    read(&mut contexts, &mut stored, book_b, Some(other_bm));

    assert!(
        !stored.contains_key(&(home_bm.to_string(), book_b.to_string())),
        "cross-library book must not leak into home library bookmarks"
    );
    let book_b_bm = stored
        .get(&(other_bm.to_string(), book_b.to_string()))
        .expect("book_b must still exist in other_bm");
    assert!(
        book_b_bm.chapter_index.is_some(),
        "book_b's bookmark in other_bm must have been updated by the -c session"
    );
    assert!(stored.contains_key(&(home_bm.to_string(), book_a.to_string())));
}

fn link(link_type: LinkType, chapter: Option<&str>, has_anchor: bool) -> LinkInfo {
    LinkInfo { link_type, target_chapter: chapter.map(str::to_string), has_anchor }
}

#[test]
fn links_are_followed() {
    let here = Some("OEBPS/ch1.xhtml".to_string());
    let click = |l: &LinkInfo| handle_link_click(l, false, true, &here);
    let p = handle_link_click(&link(LinkType::External, None, false), true, true, &here);
    assert!(matches!(p.action, LinkAction::OpenImage) && p.remembered == 0);
    let p = click(&link(LinkType::External, None, false));
    assert!(matches!(p.action, LinkAction::OpenExternal) && p.remembered == 0);
    let p = click(&link(LinkType::InternalAnchor, None, true));
    assert!(matches!(p.action, LinkAction::ScrollToAnchor) && p.remembered == 2);
    let p = click(&link(LinkType::InternalAnchor, None, false));
    assert!(matches!(p.action, LinkAction::Nothing { followed: false }));
    let p = click(&link(LinkType::InternalChapter, Some("text/ch1.xhtml"), false));
    assert!(matches!(p.action, LinkAction::Nothing { followed: true }) && p.remembered == 2);
    let p = click(&link(LinkType::InternalChapter, Some("ch1.xhtml"), true));
    assert!(matches!(p.action, LinkAction::ScrollToAnchor));
    let p = click(&link(LinkType::InternalChapter, Some("ch2.xhtml"), true));
    assert!(matches!(p.action, LinkAction::GoToFile) && p.remembered == 1);
    let p = click(&link(LinkType::InternalChapter, None, true));
    assert!(matches!(p.action, LinkAction::Nothing { followed: false }));
    let p = handle_link_click(&link(LinkType::InternalChapter, Some("x"), false), false, false, &None);
    assert!(matches!(p.action, LinkAction::GoToFile) && p.remembered == 0);
}

#[test]
fn files_lead_to_chapters() {
    let spine = vec![Some("a.xhtml".to_string()), Some("b.xhtml".to_string())];
    let toc = Some(vec![TocItem::Chapter { href: "b.xhtml".to_string() }]);
    let book = Some(ChapterCursor { current: 0, total: 2 });
    assert!(navigate_to_chapter_by_file(&toc, "b.xhtml", &spine, book).is_some());
    assert!(navigate_to_chapter_by_file(&toc, "c.xhtml", &spine, book).is_none());
}

#[test]
fn jumps_load_navigate_or_restore() {
    let open = Some("/a.epub".to_string());
    let at = |current: usize| Some(ChapterCursor { current, total: 3 });
    assert!(matches!(jump_to_location(&open, at(2), "/b.epub", 2), JumpStep::Load));
    match jump_to_location(&open, at(1), "/a.epub", 2) {
        JumpStep::Navigate(n) => assert!(n.result == Ok(2) && !n.remember),
        other => panic!("{other:?}"),
    }
    match jump_to_location(&open, at(1), "/a.epub", 3) {
        JumpStep::Navigate(n) => assert!(n.result.is_err() && !n.remember),
        other => panic!("{other:?}"),
    }
    assert!(matches!(jump_to_location(&open, at(2), "/a.epub", 2), JumpStep::Restore));
    assert!(matches!(jump_to_location(&None, None, "/a.epub", 2), JumpStep::Load));
}

#[test]
fn marks_of_missing_books_are_only_told() {
    let mark = || MarkLocation::Epub { chapter: 3, node: 7, node_offset: None };
    let steps = jump_to_mark(mark(), false, false, None);
    assert_eq!(steps.len(), 1);
    assert!(matches!(steps[0], MarkStep::Tell(Notice::BookGone)));
    let steps = jump_to_mark(mark(), true, false, None);
    assert!(steps.iter().any(|s| matches!(s, MarkStep::OpenAtChapter { at_chapter: 3 })));
    let steps = jump_to_mark(mark(), true, true, Some(3));
    assert!(!steps.iter().any(|s| matches!(s, MarkStep::Navigate { .. })));
    let steps = jump_to_mark(mark(), true, true, Some(1));
    assert!(steps.iter().any(|s| matches!(s, MarkStep::Navigate { to_chapter: 3 })));
    assert_eq!(
        mark_step_failure(MarkStep::Navigate { to_chapter: 3 }),
        Some(Notice::JumpToMarkFailed)
    );
    assert_eq!(
        mark_step_failure(MarkStep::OpenAtChapter { at_chapter: 3 }),
        Some(Notice::OpenPathFailed)
    );
    assert_eq!(mark_step_failure(MarkStep::SaveBookmark), None);
}

#[test]
fn marks_and_contents_belong_to_the_open_book() {
    let epub = Some("/a.epub".to_string());
    let pdf = Some("b.pdf".to_string());
    assert_eq!(current_book_path_for_marks(&epub, &pdf), epub);
    assert_eq!(current_book_path_for_marks(&None, &pdf), pdf);
    assert_eq!(persist_toc_expansion_state(&epub, &pdf), pdf);
    assert_eq!(persist_toc_expansion_state(&epub, &None), epub);
    assert_eq!(persist_toc_expansion_state(&None, &None), None);
}

fn entry(title: &str, page: usize) -> TocEntry {
    TocEntry { title: title.to_string(), target: TocTarget::InternalPage(page) }
}

fn chapter(title: &str, page: Option<usize>) -> PdfTocItem {
    PdfTocItem::Chapter { title: title.to_string(), page }
}

#[test]
fn chapters_cover_their_pages() {
    let entries = vec![entry("One", 0), entry("Two", 3), entry("Two again", 3), entry("Three", 5)];
    assert_eq!(collect_toc_item_pages(&chapter("One", Some(0)), &entries, 8), vec![0, 1, 2]);
    assert_eq!(collect_toc_item_pages(&chapter("Two", Some(3)), &entries, 8), vec![3, 4]);
    assert_eq!(collect_toc_item_pages(&chapter("Three", Some(5)), &entries, 8), vec![5, 6, 7]);
    assert_eq!(collect_toc_item_pages(&chapter("Gone", Some(7)), &entries, 8), vec![7]);
    assert!(collect_toc_item_pages(&chapter("None", None), &entries, 8).is_empty());
    assert!(collect_toc_item_pages(&chapter("Out", Some(9)), &entries, 8).is_empty());
    let part = PdfTocItem::Section {
        title: "Part".to_string(),
        page: Some(2),
        children: vec![chapter("Two", Some(3)), chapter("Three", Some(5))],
    };
    assert_eq!(collect_toc_item_pages(&part, &entries, 8), vec![2, 3, 4, 5, 6, 7]);
    assert_eq!(merge_pages(&vec![1, 3, 5], &vec![1, 2, 5, 9]), vec![1, 2, 3, 5, 9]);
}

#[test]
fn pages_are_read_from_links() {
    let href = |s: &str| Some(s.to_string());
    assert_eq!(parse_page_from_href(&href("pdf:page:7"), None, 3), Some(7));
    assert_eq!(parse_page_from_href(&href("pdf:printed:2"), None, 3), Some(1));
    assert_eq!(parse_page_from_href(&href("pdf:printed:2"), Some(0), 3), Some(0));
    assert_eq!(parse_page_from_href(&href("pdf:printed:4"), None, 3), None);
    assert_eq!(parse_page_from_href(&href("pdf:printed:0"), None, 3), None);
    assert_eq!(parse_page_from_href(&href("x"), None, 3), None);
    assert_eq!(parse_page_from_href(&None, None, 3), None);
}

#[test]
fn chapters_are_copied() {
    let entries = vec![entry("One", 0), entry("Two", 1)];
    match copy_pdf_toc_selection(&Some(chapter("One", Some(0))), &entries, 4) {
        TocCopy::Extract { pages, message } => {
            assert_eq!(pages, vec![0]);
            assert_eq!(message, "Extracting \"One\" (page 1)...");
        }
        _ => panic!("pages to extract"),
    }
    match copy_pdf_toc_selection(&Some(chapter("Two", Some(1))), &entries, 4) {
        TocCopy::Extract { message, .. } => assert_eq!(message, "Extracting \"Two\" (3 pages)..."),
        _ => panic!("pages to extract"),
    }
    assert!(matches!(copy_pdf_toc_selection(&Some(chapter("X", None)), &entries, 4), TocCopy::NoPages));
    assert!(matches!(copy_pdf_toc_selection(&None, &entries, 4), TocCopy::NoItem));
    assert_eq!(
        copy_refusal_of(&TocCopy::NoItem),
        Some((NotificationLevel::Warning, Notice::NoTocItem))
    );
    assert_eq!(
        copy_refusal_of(&TocCopy::NoPages),
        Some((NotificationLevel::Warning, Notice::NoTocPages))
    );
    let copied = copy_pdf_toc_selection(&Some(chapter("One", Some(0))), &entries, 4);
    assert_eq!(copy_refusal_of(&copied), None);
}

#[test]
fn editors_are_started_at_the_line() {
    assert_eq!(make_editor_command("vim +{line} {file} {column}", "a.tex", 12), "vim +12 a.tex 0");
    match handle_synctex_inverse(&Some("e {file}:{line}".into()), "/d/a.tex", 3) {
        InversePlan::Launch { command, told } => {
            assert_eq!(command, "e /d/a.tex:3");
            assert_eq!(told, "SyncTeX: a.tex:3");
        }
        InversePlan::Tell { .. } => panic!("an editor is set"),
    }
    assert!(matches!(handle_synctex_inverse(&None, "/d/a.tex", 3), InversePlan::Tell { .. }));
    assert!(test_synctex_editor("ed {file} {line}").starts_with("ed "));
    assert!(!test_failure_message("", "1").is_empty());
}

#[test]
fn sources_are_looked_for_next_to_the_document() {
    let pdf = Some("/d/thesis.pdf".to_string());
    let c = synctex_candidates("/old/w/ch/a.tex", &pdf);
    assert!(c.contains(&"/d/a.tex".to_string()));
    assert!(c.contains(&"/d/ch/a.tex".to_string()));
    let none = vec![None; c.len()];
    assert_eq!(resolve_synctex_editor_file("/old/w/ch/a.tex", &none), "/old/w/ch/a.tex");
    let mut found: Vec<Option<String>> = vec![None; c.len()];
    let last = c.len() - 1;
    found[last] = Some("/real/a.tex".to_string());
    assert_eq!(resolve_synctex_editor_file("/old/w/ch/a.tex", &found), "/real/a.tex");
    let toc = synctex_candidates("x.toc", &pdf);
    assert!(toc.contains(&"/d/thesis.tex".to_string()));
}

#[test]
fn forward_commands_are_told() {
    let hit = handle_synctex_command(true, "/d/a.tex", 7, Some(4));
    assert_eq!(hit.page, Some(3));
    assert!(handle_synctex_command(true, "a.tex", 7, None).page.is_none());
    assert!(handle_synctex_command(false, "a.tex", 7, Some(4)).page.is_none());
}

#[test]
fn source_state_is_told() {
    let s = refresh_synctex_state(true, true, true);
    assert!(s.scanner && s.listener);
    assert_eq!(
        s.told.unwrap(),
        "SyncTeX enabled (Ctrl+click, right-click, or gd to jump to source, \\lv from editor)"
    );
    let s = refresh_synctex_state(true, false, true);
    assert!(s.scanner && !s.listener);
    assert_eq!(s.told.unwrap(), "SyncTeX loaded but socket listener failed");
    assert!(refresh_synctex_state(true, true, false).told.is_none());
    let s = refresh_synctex_state(false, true, true);
    assert!(!s.scanner && !s.listener && s.told.is_none());
}

#[test]
fn dropped_pictures_are_drawn_again() {
    let response = |id: Option<u32>, message: &str| KittyResponse { image_id: id, message: message.to_string() };
    let mut uploaded = vec![true, true, false, true];
    let lost = handle_kitty_eviction_responses(
        &vec![
            response(Some(1), "OK"),
            response(Some(2), "ENOENT:gone"),
            response(Some(2), "ENOENT:gone"),
            response(Some(3), "ENOENT:gone"),
            response(None, "ENOENT:gone"),
            response(Some(0), "EINVAL"),
            response(Some(99), "ENOENT"),
        ],
        &mut uploaded,
    );
    assert!(lost.redraw);
    let lost = lost.pages;
    assert_eq!(lost, vec![1, 0]);
    let none = handle_kitty_eviction_responses(&vec![response(Some(4), "OK")], &mut vec![true; 5]);
    assert!(none.pages.is_empty() && !none.redraw);
    assert_eq!(uploaded, vec![false, false, false, true]);
    let commands = re_enqueue_pdf_images(&lost, &vec![true, false, true]);
    assert_eq!(commands.len(), 2);
    assert!(matches!(&commands[0], RedrawCommand::DisplayFailed(pages) if pages == &vec![1, 0]));
    assert!(matches!(commands[1], RedrawCommand::EnqueuePage(0)));
    assert!(re_enqueue_pdf_images(&vec![], &vec![true]).is_empty());
}

#[test]
fn colours_are_packed() {
    assert_eq!(color_to_i32(Some((0x12, 0x34, 0x56))), 0x123456);
    assert_eq!(color_to_i32(None), 0);
    assert_eq!(palette_to_mupdf_colors(Some((1, 0, 0)), Some((0, 0, 2))), (0x010000, 2));
}
