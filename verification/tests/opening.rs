use bookokrat::book_manager::{BookFormat, BookManager, FoundFile, Listing};
use bookokrat::main_app::help_bar::{
    button_at, help_bar_buttons, key_for, key_pair, HelpFacts, KeyLabel, SearchShown, ShownNotice,
};
use bookokrat::main_app::notices::{hud_text, notice_text};
use bookokrat::main_app::opening::{
    converter_commands, find_epub_start, initial_page, initial_page_href,
    initial_pdf_bookmark, load_epub, load_pdf,
    navigate_chapter_relative, navigate_to_chapter, navigate_to_chapter_by_href, plan_opening,
    save_bookmark_with_throttle, set_kitty_delete_range_support_override,
    set_kitty_shm_support_override, should_auto_load_recent, ChapterCursor, CommentsOf,
    ConverterCommand, EpubBookmark, EpubStep, KittyOverrides, Loader, OpenError, PdfBookmark,
    PdfFacts, PdfStep, SavePlan, StartupFacts,
};
use bookokrat::main_app::state::{
    Action, App, ChapterDirection, Effect, FocusedPanel, Hud, KeyContext, MainPanel, Notice,
    NotificationLevel, OpenPosition, PopupWindow, Rect, SearchMode,
};

#[test]
fn recent_books_are_loaded_only_when_nothing_else_is_asked_for() {
    assert!(should_auto_load_recent(None, false, false));
    assert!(
        !should_auto_load_recent(None, false, true),
        "`bookokrat -c` must skip the home-library auto-open path"
    );
    assert!(!should_auto_load_recent(Some("a.epub"), false, false));
    assert!(!should_auto_load_recent(None, true, false));
}

#[test]
fn positions_fit_the_format() {
    let epub = plan_opening(Some(BookFormat::Epub), None, false).unwrap();
    assert_eq!((epub.loader, epub.skip_bookmarks), (Loader::Epub, false));
    let pdf = plan_opening(Some(BookFormat::Djvu), Some(OpenPosition::Page(3)), false).unwrap();
    assert_eq!((pdf.loader, pdf.skip_bookmarks), (Loader::Pdf, true));
    assert!(plan_opening(Some(BookFormat::Html), None, true).unwrap().skip_bookmarks);
    let err = plan_opening(Some(BookFormat::Html), Some(OpenPosition::Page(3)), false).unwrap_err();
    assert_eq!(err.message(""), "--page is not supported for EPUB files, use --chapter");
    let err = plan_opening(Some(BookFormat::Pdf), Some(OpenPosition::Chapter(3)), false).unwrap_err();
    assert_eq!(err.message(""), "--chapter is not yet supported for PDF files, use --page");
    let err = plan_opening(None, None, false).unwrap_err();
    assert_eq!(err.message("/a/b.txt"), "Unsupported file format: /a/b.txt");
    let app = App::new_with_config(Some((80, 24)), None, false, false);
    assert!(app.open_book_for_reading_by_path("/a/b.epub", None).is_ok());
    let files = Listing {
        has_metadata_db: false,
        files: vec![FoundFile { path: "/a/b.pdf".into(), opf: None }],
    };
    let manager = BookManager::new(&files);
    assert_eq!(app.open_book_for_reading(&manager, 0).unwrap().loader, Loader::Pdf);
    assert_eq!(app.open_book_for_reading(&manager, 1).unwrap_err(), OpenError::InvalidIndex(1));
}

#[test]
fn chapters_are_turned() {
    let at = |current: usize| Some(ChapterCursor { current, total: 3 });
    let n = navigate_to_chapter(at(0), 2);
    assert_eq!(n.result, Ok(2));
    assert!(n.remember);
    assert_eq!(navigate_to_chapter(at(0), 3).result, Err(OpenError::ChapterOutOfRange(3)));
    assert_eq!(navigate_to_chapter(None, 0).result, Err(OpenError::NoEpub));
    assert_eq!(navigate_chapter_relative(at(0), ChapterDirection::Next).result, Ok(1));
    assert_eq!(navigate_chapter_relative(at(2), ChapterDirection::Next).result, Err(OpenError::AtEdge));
    assert_eq!(navigate_chapter_relative(at(0), ChapterDirection::Previous).result, Err(OpenError::AtEdge));
    assert_eq!(navigate_to_chapter_by_href(at(0), Some(1)).result, Ok(1));
    assert_eq!(navigate_to_chapter_by_href(at(0), None).result, Err(OpenError::NoSuchHref));
}

#[test]
fn moves_show_the_chapter_and_save_the_place() {
    let at = |current: usize| Some(ChapterCursor { current, total: 3 });
    let step = vec![
        Effect::RefreshContent,
        Effect::UpdateTocState,
        Effect::SaveBookmark { force: true },
    ];
    let mut jump = vec![Effect::ClearActiveAnchor];
    jump.extend(step.iter().copied());
    assert_eq!(navigate_to_chapter(at(0), 2).effects(), jump);
    assert_eq!(navigate_to_chapter_by_href(at(0), Some(1)).effects(), jump);
    assert_eq!(navigate_chapter_relative(at(0), ChapterDirection::Next).effects(), step);
    assert!(navigate_chapter_relative(at(2), ChapterDirection::Next).effects().is_empty());
    assert!(navigate_to_chapter(at(0), 3).effects().is_empty());
    assert!(navigate_to_chapter(None, 0).effects().is_empty());
    assert!(navigate_to_chapter_by_href(at(0), None).effects().is_empty());
}

#[test]
fn bookmarks_restore_the_place() {
    let spine = vec![Some("a.xhtml".to_string()), Some("b.xhtml".to_string())];
    let mark = |h: &str| Some(EpubBookmark { chapter_href: h.to_string(), node_index: Some(4), total_nodes: Some(9) });
    let s = find_epub_start(&spine, 0, &mark("b.xhtml"));
    assert_eq!((s.chapter, s.node), (1, Some(4)));
    assert_eq!(find_epub_start(&spine, 0, &None).node, None);
    let plan = load_epub(&spine, 0, &mark("a.xhtml"), false);
    assert_eq!((plan.start.chapter, plan.start.node, plan.total_nodes), (0, Some(4), Some(9)));
    assert_eq!(plan.comments, CommentsOf::Stored);
    assert_eq!(
        plan.steps,
        vec![
            EpubStep::UseComments(CommentsOf::Stored),
            EpubStep::GoToChapter(0),
            EpubStep::CountNodes { known: Some(9) },
            EpubStep::ShowContents,
            EpubStep::RefreshContent,
            EpubStep::RestoreNode(4),
            EpubStep::Remember,
        ]
    );
    let first = plan.remember.unwrap();
    assert_eq!(first.chapter_href, "a.xhtml");
    assert_eq!((first.chapter_index, first.total_chapters, first.pdf_page), (Some(0), Some(2), None));
    let plan = load_epub(&spine, 0, &mark("a.xhtml"), true);
    assert_eq!((plan.start.chapter, plan.start.node, plan.total_nodes), (1, None, None));
    assert_eq!(plan.comments, CommentsOf::Empty);
    assert!(plan.remember.is_none());
    assert_eq!(
        plan.steps,
        vec![
            EpubStep::UseComments(CommentsOf::Empty),
            EpubStep::GoToChapter(1),
            EpubStep::CountNodes { known: None },
            EpubStep::ShowContents,
            EpubStep::RefreshContent,
        ]
    );
    let pdf = |page: Option<usize>, chapter: Option<usize>, href: &str| {
        Some(PdfBookmark {
            pdf_page: page,
            chapter_index: chapter,
            chapter_href: href.to_string(),
            invert_images: None,
            themed_rendering: None,
        })
    };
    assert_eq!(initial_page(&pdf(Some(5), Some(2), ""), 10), 5);
    assert_eq!(initial_page(&pdf(Some(50), None, ""), 10), 9);
    assert_eq!(initial_page(&None, 10), 0);
    assert_eq!(initial_page(&None, 0), 0);
    assert_eq!(initial_page_href(Some(3)), "3");
    assert_eq!(initial_page_href(None), "0");
}

#[test]
fn shared_memory_needs_kitty() {
    let facts = PdfFacts {
        kitty: true,
        supports_comments: true,
        ignore_bookmarks: false,
        page_count: 10,
        scroll_mode: true,
        shm_known: Some(true),
        shm_disabled: false,
        has_picker: true,
        delete_range: None,
        zoomed: true,
    };
    assert_eq!(load_pdf(&facts, &None).plan.converter, Some(true));
    let stored = Some(PdfBookmark {
        pdf_page: Some(4),
        chapter_index: None,
        chapter_href: String::new(),
        invert_images: Some(false),
        themed_rendering: None,
    });
    let plan = load_pdf(&facts, &stored).plan;
    assert_eq!((plan.initial_page, plan.pending_scroll, plan.toggle_invert), (4, Some(4), true));
    assert_eq!(
        load_pdf(&facts, &stored).steps,
        vec![
            PdfStep::Remember,
            PdfStep::ToggleInvert,
            PdfStep::StartConverter { shm: true },
            PdfStep::RefreshSource { announce: true },
            PdfStep::SetPageUnrendered(4),
            PdfStep::TellConverter,
            PdfStep::ShowContents,
            PdfStep::SavePlace { force: true },
        ]
    );
    let first = initial_pdf_bookmark(&facts, &stored);
    assert_eq!(first.chapter_href, "4");
    assert_eq!((first.pdf_page, first.total_chapters), (Some(4), Some(10)));
    let fresh = PdfFacts { ignore_bookmarks: true, ..facts };
    let plan = load_pdf(&fresh, &stored).plan;
    assert_eq!((plan.initial_page, plan.pending_scroll, plan.toggle_invert), (0, None, false));
    assert_eq!(plan.comments, CommentsOf::Empty);
    let first = initial_pdf_bookmark(&fresh, &stored);
    assert_eq!(first.chapter_href, "0");
    assert_eq!((first.pdf_page, first.total_chapters), (Some(0), Some(10)));
    let plain = PdfFacts { kitty: false, ..facts };
    assert_eq!(load_pdf(&plain, &None).plan.converter, Some(false));
    let known = PdfFacts { shm_disabled: true, ..facts };
    assert_eq!(load_pdf(&known, &None).plan.converter, Some(true));
    let off = PdfFacts { shm_disabled: true, shm_known: None, ..facts };
    assert_eq!(load_pdf(&off, &None).plan.converter, Some(false));
    let none = PdfFacts { has_picker: false, ..facts };
    assert_eq!(load_pdf(&none, &None).plan.converter, None);
    let bare_renderer = PdfFacts { kitty: false, has_picker: false, ..facts };
    assert_eq!(
        load_pdf(&bare_renderer, &None).steps,
        vec![
            PdfStep::Remember,
            PdfStep::RefreshSource { announce: true },
            PdfStep::SetPageUnrendered(0),
            PdfStep::SetZoom,
            PdfStep::ShowContents,
            PdfStep::SavePlace { force: true },
        ]
    );
    let unzoomed = PdfFacts { zoomed: false, ..bare_renderer };
    assert!(!load_pdf(&unzoomed, &None).plan.renderer_zooms);
    let bare = PdfFacts { supports_comments: false, ..facts };
    assert_eq!(load_pdf(&bare, &None).plan.comments, CommentsOf::Unsupported);
    assert_eq!(
        converter_commands(9, 3, true, false),
        vec![
            ConverterCommand::SetPageCount(9),
            ConverterCommand::NavigateTo(3),
            ConverterCommand::UpdateComments
        ]
    );
}

#[test]
fn overrides_hold_once_set() {
    let mut slots = KittyOverrides::new();
    assert_eq!(slots.pdf_kitty_shm_support(), None);
    set_kitty_shm_support_override(&mut slots, Some(false));
    assert_eq!(slots.pdf_kitty_shm_support(), Some(false));
    set_kitty_delete_range_support_override(&mut slots, Some(true));
    assert_eq!(slots.pdf_kitty_delete_range_support(), Some(true));
}

#[test]
fn bookmarks_are_written_now_and_then() {
    assert_eq!(save_bookmark_with_throttle(true, false, false, 0), SavePlan::PdfReader);
    assert_eq!(save_bookmark_with_throttle(false, false, true, 0), SavePlan::Nothing);
    assert_eq!(save_bookmark_with_throttle(false, true, true, 0), SavePlan::Update { write: true });
    assert_eq!(save_bookmark_with_throttle(false, true, false, 0), SavePlan::Update { write: false });
    assert_eq!(
        save_bookmark_with_throttle(false, true, false, 60_000_000_000),
        SavePlan::Update { write: true }
    );
}

#[test]
fn new_users_see_the_help() {
    let mut app = App::new_with_config(None, None, true, true);
    assert_eq!((app.terminal_size.width, app.terminal_size.height), (80, 24));
    let f = StartupFacts {
        auto_load_recent: true,
        has_recent: false,
        recent_in_library: false,
        pdf_settings_configured: true,
    };
    assert!(!App::opens_recent_book(&f));
    app.finish_startup(&f, false);
    assert_eq!(app.focused_panel, FocusedPanel::Popup(PopupWindow::Help));
    let f = StartupFacts { has_recent: true, recent_in_library: true, ..f };
    assert!(App::opens_recent_book(&f));
    let mut app = App::new_with_config(None, None, true, true);
    let effects = app.finish_startup(&f, true);
    assert!(effects.contains(&Effect::Notify(NotificationLevel::Error, Notice::AutoLoadFailed)));
}

#[test]
fn opening_another_kind_of_book_closes_the_first() {
    let mut app = App::new_with_config(Some((80, 24)), None, true, true);
    assert!(app.begin_epub(true).contains(&Effect::PdfClose));
    assert!(app.begin_epub(true).contains(&Effect::PdfClearGraphics));
    assert!(!app.begin_epub(false).contains(&Effect::PdfClearGraphics));
    assert_eq!(
        app.begin_pdf(true, true, false),
        vec![Effect::CloseEpub, Effect::SetLibraryGraphics(true)]
    );
    assert!(app.pdf_supports_graphics);
    assert_eq!(
        app.begin_pdf(false, false, true),
        vec![
            Effect::CloseEpub,
            Effect::SetLibraryGraphics(false),
            Effect::Notify(NotificationLevel::Warning, Notice::PdfBlocked),
        ]
    );
    assert!(!app.pdf_supports_graphics);
    assert_eq!(app.epub_loaded(true), vec![Effect::ClearJumpList]);
    assert!(app.windows.book_search);
    let before = app;
    assert_eq!(
        app.epub_loaded(false),
        vec![Effect::Notify(NotificationLevel::Error, Notice::LoadEpubFailed)]
    );
    assert_eq!(app, before);
}

// ---------------------------------------------------------------------------------------------
// Help bar and messages
// ---------------------------------------------------------------------------------------------
fn labels() -> Vec<KeyLabel> {
    let label = |context: KeyContext, action: Action, l: &str| KeyLabel { context, action, label: l.to_string() };
    vec![
        label(KeyContext::Global, Action::ToggleHelp, "?"),
        label(KeyContext::EpubContent, Action::MoveDown, "j"),
        label(KeyContext::EpubContent, Action::MoveUp, "k"),
    ]
}

#[test]
fn keys_are_shown_as_they_are_bound() {
    assert_eq!(key_for(&labels(), KeyContext::EpubContent, Action::MoveDown), "j");
    assert_ne!(key_for(&labels(), KeyContext::EpubContent, Action::Quit), "j");
    assert_eq!(key_pair(&labels(), KeyContext::EpubContent, Action::MoveDown, Action::MoveUp), "j/k");
}

#[test]
fn clicks_hit_the_button_under_them() {
    let buttons = help_bar_buttons(&labels());
    assert!(!buttons.is_empty());
    let area = Rect { x: 0, y: 37, width: 200, height: 3 };
    let mut hits = Vec::new();
    for x in 0..200u16 {
        if let Some(action) = button_at(area, &buttons, x, 38) {
            if hits.last() != Some(&action) {
                hits.push(action);
            }
        }
        assert!(button_at(area, &buttons, x, 10).is_none());
    }
    let actions: Vec<Action> = buttons.iter().map(|b| b.action).collect();
    assert_eq!(hits, actions);
}

#[test]
fn messages_come_first_in_the_bar() {
    let mut app = App::new_with_config(Some((100, 40)), None, false, false);
    app.focused_panel = FocusedPanel::Main(MainPanel::Content);
    let quiet = HelpFacts { notice: None, search: None, has_selection: false, fps: None };
    let bar = app.render_help_bar(&quiet, &labels());
    assert!(!bar.left.is_empty());
    let told = HelpFacts {
        notice: Some(ShownNotice { level: NotificationLevel::Error, message: "broken".into() }),
        search: Some(SearchShown {
            mode: SearchMode::InputMode,
            query: "query".into(),
            matches: 0,
            match_info: String::new(),
        }),
        ..quiet
    };
    assert!(app.render_help_bar(&told, &labels()).left.contains("broken"));
    assert!(!app.render_help_bar(&told, &labels()).left.contains("query"));
    let searching = HelpFacts { notice: None, ..told };
    assert!(app.render_help_bar(&searching, &labels()).left.contains("query"));
    assert!(app.handle_help_bar_click(&labels(), 0, 0).is_none());
}

#[test]
fn notices_are_worded() {
    assert_eq!(notice_text(Notice::SetLocalMark('a'), "", ""), "Set mark 'a'");
    assert_eq!(notice_text(Notice::SetGlobalMark('B'), "", ""), "Set global mark 'B'");
    assert_eq!(notice_text(Notice::NoLocalMark('a'), "", ""), "No mark 'a' in this book.");
    assert_eq!(notice_text(Notice::NoGlobalMark('B'), "", ""), "No global mark 'B'.");
    assert_eq!(notice_text(Notice::NoBookOpen, "", ""), "No book is open.");
    assert_eq!(notice_text(Notice::NoBookForMark, "", ""), "No book is open; cannot set a mark.");
    assert_eq!(notice_text(Notice::OpenedExternally, "", ""), "Opened in external viewer");
    assert_eq!(notice_text(Notice::JumpBackFailed, "", "gone"), "Failed to jump back: gone");
    assert_eq!(notice_text(Notice::BookGone, "/a.epub", ""), "Book no longer exists: /a.epub");
    assert_eq!(
        notice_text(Notice::NoLookupCommand, "", ""),
        "No lookup command configured. Set lookup_command in settings (Space+s)."
    );
    assert_eq!(notice_text(Notice::NoLookupText, "", ""), "No text selected");
    assert_eq!(notice_text(Notice::LookupLaunched, "dict {}", ""), "Launched: dict {}");
    assert_eq!(notice_text(Notice::LookupNotLaunched, "", "no sh"), "Failed to launch command: no sh");
    assert_eq!(notice_text(Notice::NoTocItem, "", ""), "No TOC item selected");
    assert_eq!(notice_text(Notice::NoTocPages, "", ""), "No pages found for this TOC item");
    assert!(hud_text(Hud::NoHighlightToRemove).is_some());
}
