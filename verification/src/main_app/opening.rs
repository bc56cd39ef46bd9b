//! Starting up, opening books and moving between their chapters.
use vstd::prelude::*;
use vstd::string::*;

use crate::book_manager::{detected, BookFormat, BookManager};
use crate::inputs::terminal_input::{says_evicted, KittyResponse};
use crate::main_app::chapters::{
    bookmark_href, chapter_by_href, find_chapter_index_by_href, href_matches,
    law_chapter_path_leads_home, place_href, spine_paths,
};
use crate::main_app::state::{group_run_app, group_run_sound, lemma_emit_app, sound};
use crate::main_app::state::{
    App, ChapterDirection, Effect, FocusedPanel, MainPanel, NotificationLevel, Notice, OpenPosition,
    PopupWindow, Rect, Run, RunView, SettingsTab, Windows,
};
use crate::text;
use crate::text::{decimal, parsed_uint};

verus! {

// ---------------------------------------------------------------------------------------------
// Starting up
// ---------------------------------------------------------------------------------------------
/// Whether the book read last is opened at the start: not where a file is named, in tests, or
/// where reading goes on across libraries.
pub fn should_auto_load_recent(
    file_path: Option<&str>,
    test_mode: bool,
    continue_reading: bool,
) -> (r: bool)
    ensures
        r == (file_path is None && !test_mode && !continue_reading),
{
    file_path.is_none() && !test_mode && !continue_reading
}

/// What is known at the start.
#[derive(Clone, Copy, Debug, PartialEq, Eq, Structural)]
pub struct StartupFacts {
    pub auto_load_recent: bool,
    /// Whether the home library has a book read last.
    pub has_recent: bool,
    /// Whether that book is in the library.
    pub recent_in_library: bool,
    pub pdf_settings_configured: bool,
}

/// Whether the book read last is opened.
pub open spec fn opens_recent(f: StartupFacts) -> bool {
    f.auto_load_recent && f.has_recent && f.recent_in_library
}

/// The state of the application at the start.
pub open spec fn initial_app(
    size: Option<(u16, u16)>,
    nav_width: Option<u16>,
    graphics: bool,
    scroll_mode: bool,
) -> App {
    App {
        focused_panel: FocusedPanel::Main(MainPanel::NavigationList),
        previous_main_panel: MainPanel::NavigationList,
        windows: Windows::none(),
        terminal_size: match size {
            Some((width, height)) => Rect { x: 0, y: 0, width, height },
            None => Rect { x: 0, y: 0, width: 80, height: 24 },
        },
        help_bar_area: Rect { x: 0, y: 0, width: 0, height: 0 },
        zen_mode: false,
        test_mode: false,
        nav_panel_width_override: nav_width,
        resizing_nav_panel: false,
        pending_visual_inner: false,
        pending_highlight_palette: false,
        highlight_palette_target: None,
        pending_mark_op: None,
        pending_force_redraw: false,
        pending_suspend: false,
        pdf_supports_graphics: graphics,
        pdf_supports_scroll_mode: scroll_mode,
        pdf_waiting_for_page: None,
        pdf_waiting_for_viewport: false,
    }
}

impl RunView {
    /// A closing window will return to the navigation panel.
    #[verifier::opaque]
    pub open spec fn return_to_navigation(self) -> RunView {
        self.to(App { previous_main_panel: MainPanel::NavigationList, ..self.app })
    }

    /// The start, once the book read last was opened or was not to be: a failure is told, a new
    /// user sees the help, and one who has not set up PDF yet sees the settings.
    pub open spec fn started(self, f: StartupFacts, failed: bool) -> RunView {
        let r = if opens_recent(f) {
            if failed {
                self.notify(NotificationLevel::Error, Notice::AutoLoadFailed)
            } else {
                self
            }
        } else if f.auto_load_recent && !f.has_recent {
            self.return_to_navigation().open_window(PopupWindow::Help)
        } else {
            self
        };
        if f.has_recent && !f.pdf_settings_configured && self.app.pdf_supports_graphics {
            r.return_to_navigation().emit(
                Effect::CreateSettings(SettingsTab::General),
            ).focus_window(PopupWindow::Settings).emit(Effect::PdfSettingsConfigured)
        } else {
            r
        }
    }
}

impl Run {
    fn return_to_navigation(&mut self)
        ensures
            final(self)@ == old(self)@.return_to_navigation(),
    {
        proof {
            reveal(RunView::return_to_navigation);
        }
        self.set_app(App { previous_main_panel: MainPanel::NavigationList, ..self.app });
    }
}

impl App {
    /// The application at the start, before a book is opened.
    pub fn new_with_config(
        size: Option<(u16, u16)>,
        nav_width: Option<u16>,
        graphics: bool,
        scroll_mode: bool,
    ) -> (r: App)
        ensures
            r == initial_app(size, nav_width, graphics, scroll_mode),
            r.wf(),
    {
        let terminal_size = match size {
            Some((width, height)) => Rect { x: 0, y: 0, width, height },
            None => Rect { x: 0, y: 0, width: 80, height: 24 },
        };
        App {
            focused_panel: FocusedPanel::Main(MainPanel::NavigationList),
            previous_main_panel: MainPanel::NavigationList,
            windows: Windows {
                reading_history: false,
                image_popup: false,
                marks_popup: false,
                book_search: false,
                help_popup: false,
                keybinding_errors_popup: false,
                comments_viewer: false,
                settings_popup: false,
                lookup_popup: false,
            },
            terminal_size,
            help_bar_area: Rect { x: 0, y: 0, width: 0, height: 0 },
            zen_mode: false,
            test_mode: false,
            nav_panel_width_override: nav_width,
            resizing_nav_panel: false,
            pending_visual_inner: false,
            pending_highlight_palette: false,
            highlight_palette_target: None,
            pending_mark_op: None,
            pending_force_redraw: false,
            pending_suspend: false,
            pdf_supports_graphics: graphics,
            pdf_supports_scroll_mode: scroll_mode,
            pdf_waiting_for_page: None,
            pdf_waiting_for_viewport: false,
        }
    }

    /// Whether the book read last is opened at the start.
    pub fn opens_recent_book(f: &StartupFacts) -> (r: bool)
        ensures
            r == opens_recent(*f),
    {
        f.auto_load_recent && f.has_recent && f.recent_in_library
    }

    /// Ends the start: `recent_failed` tells that the book read last could not be opened.
    pub fn finish_startup(&mut self, f: &StartupFacts, recent_failed: bool) -> (effects: Vec<Effect>)
        ensures
            ({
                let r = RunView::start(*old(self)).started(*f, recent_failed);
                *final(self) == r.app && effects@ == r.out
            }),
    {
        let graphics = self.pdf_supports_graphics;
        let mut run = Run::start(*self);
        if Self::opens_recent_book(f) {
            if recent_failed {
                run.notify(NotificationLevel::Error, Notice::AutoLoadFailed);
            }
        } else if f.auto_load_recent && !f.has_recent {
            run.return_to_navigation();
            run.open_window(PopupWindow::Help);
        }
        if f.has_recent && !f.pdf_settings_configured && graphics {
            run.return_to_navigation();
            run.emit(Effect::CreateSettings(SettingsTab::General));
            run.focus_window(PopupWindow::Settings);
            run.emit(Effect::PdfSettingsConfigured);
        }
        *self = run.app;
        run.out
    }
}

/// A new user sees the help at the start and no settings; closing it leads to the navigation panel.
pub proof fn law_new_user_sees_help(app: App, f: StartupFacts)
    requires
        f.auto_load_recent,
        !f.has_recent,
    ensures
        ({
            let after = RunView::start(app).started(f, false).app;
            &&& after.focused_panel == FocusedPanel::Popup(PopupWindow::Help)
            &&& after.previous_main_panel == MainPanel::NavigationList
            &&& after.wf()
        }),
{
    broadcast use group_run_app;

    reveal(RunView::return_to_navigation);
}

/// The start leaves the focus on what exists.
pub proof fn law_start_is_sound(app: App, f: StartupFacts, failed: bool)
    requires
        app.wf(),
    ensures
        sound(RunView::start(app).started(f, failed)),
{
    broadcast use group_run_sound;

    reveal(sound);
    reveal(RunView::return_to_navigation);
}

// ---------------------------------------------------------------------------------------------
// Opening
// ---------------------------------------------------------------------------------------------
/// Why a book is not opened, or a chapter not gone to.
#[derive(Clone, Copy, Debug, PartialEq, Eq, Structural)]
pub enum OpenError {
    InvalidIndex(usize),
    UnsupportedFormat,
    PageOfEpub,
    ChapterOfPdf,
    ChapterOutOfRange(usize),
    NoEpub,
    NoDocument,
    AtEdge,
    NoSuchHref,
}

/// The wording of an error; `detail` is the path or the link that it is about.
pub open spec fn error_text(e: OpenError, detail: Seq<char>) -> Seq<char> {
    match e {
        OpenError::InvalidIndex(i) => "Invalid book index: "@ + decimal(i as nat),
        OpenError::UnsupportedFormat => "Unsupported file format: "@ + detail,
        OpenError::PageOfEpub => "--page is not supported for EPUB files, use --chapter"@,
        OpenError::ChapterOfPdf => "--chapter is not yet supported for PDF files, use --page"@,
        OpenError::ChapterOutOfRange(i) => "Failed to navigate to chapter "@ + decimal(i as nat)
            + ". Chapter is out of the range"@,
        OpenError::NoEpub => "No EPUB document loaded"@,
        OpenError::NoDocument => "No document loaded"@,
        OpenError::AtEdge => "Already at the end/beginning of the book"@,
        OpenError::NoSuchHref => "Failed to find chapter with href: "@ + detail,
    }
}

impl OpenError {
    /// The wording of the error.
    pub fn message(&self, detail: &str) -> (r: String)
        ensures
            r@ == error_text(*self, detail@),
    {
        match self {
            OpenError::InvalidIndex(i) => {
                let mut s = text::copy("Invalid book index: ");
                let n = text::decimal_of(*i as u64);
                s.append(n.as_str());
                s
            },
            OpenError::UnsupportedFormat => {
                let mut s = text::copy("Unsupported file format: ");
                s.append(detail);
                s
            },
            OpenError::PageOfEpub => text::copy(
                "--page is not supported for EPUB files, use --chapter",
            ),
            OpenError::ChapterOfPdf => text::copy(
                "--chapter is not yet supported for PDF files, use --page",
            ),
            OpenError::ChapterOutOfRange(i) => {
                let mut s = text::copy("Failed to navigate to chapter ");
                let n = text::decimal_of(*i as u64);
                s.append(n.as_str());
                s.append(". Chapter is out of the range");
                s
            },
            OpenError::NoEpub => text::copy("No EPUB document loaded"),
            OpenError::NoDocument => text::copy("No document loaded"),
            OpenError::AtEdge => text::copy("Already at the end/beginning of the book"),
            OpenError::NoSuchHref => {
                let mut s = text::copy("Failed to find chapter with href: ");
                s.append(detail);
                s
            },
        }
    }
}

/// Which reader a book is opened in.
#[derive(Clone, Copy, Debug, PartialEq, Eq, Structural)]
pub enum Loader {
    Epub,
    Pdf,
}

/// How a book is opened.
#[derive(Clone, Copy, Debug, PartialEq, Eq, Structural)]
pub struct OpenPlan {
    pub loader: Loader,
    /// Whether the place read last is left aside.
    pub skip_bookmarks: bool,
}

/// How a book of the given format is opened at a position.
pub open spec fn opening(
    format: Option<BookFormat>,
    position: Option<OpenPosition>,
    test_mode: bool,
) -> Result<OpenPlan, OpenError> {
    let skip_bookmarks = position is Some || test_mode;
    match format {
        None => Err(OpenError::UnsupportedFormat),
        Some(f) => match f {
            BookFormat::Epub | BookFormat::Html => if position matches Some(OpenPosition::Page(_)) {
                Err(OpenError::PageOfEpub)
            } else {
                Ok(OpenPlan { loader: Loader::Epub, skip_bookmarks })
            },
            BookFormat::Pdf | BookFormat::Djvu => if position matches Some(
                OpenPosition::Chapter(_),
            ) {
                Err(OpenError::ChapterOfPdf)
            } else {
                Ok(OpenPlan { loader: Loader::Pdf, skip_bookmarks })
            },
        },
    }
}

/// How a book of a format is opened at a position.
pub fn plan_opening(
    format: Option<BookFormat>,
    position: Option<OpenPosition>,
    test_mode: bool,
) -> (r: Result<OpenPlan, OpenError>)
    ensures
        r == opening(format, position, test_mode),
{
    let skip_bookmarks = position.is_some() || test_mode;
    match format {
        None => Err(OpenError::UnsupportedFormat),
        Some(f) => match f {
            BookFormat::Epub | BookFormat::Html => {
                if let Some(OpenPosition::Page(_)) = position {
                    return Err(OpenError::PageOfEpub);
                }
                Ok(OpenPlan { loader: Loader::Epub, skip_bookmarks })
            },
            BookFormat::Pdf | BookFormat::Djvu => {
                if let Some(OpenPosition::Chapter(_)) = position {
                    return Err(OpenError::ChapterOfPdf);
                }
                Ok(OpenPlan { loader: Loader::Pdf, skip_bookmarks })
            },
        },
    }
}

impl RunView {
    /// The parts of an open PDF put away before an EPUB is loaded.
    pub open spec fn leave_pdf(self, pdf_open: bool) -> RunView {
        let r = if pdf_open {
            self.emit(Effect::PdfClearGraphics)
        } else {
            self
        };
        r.emit(Effect::PdfClose)
    }

    /// Whether the search of a book is there.
    #[verifier::opaque]
    pub open spec fn with_search(self, there: bool) -> RunView {
        self.to(App { windows: self.app.windows.with(PopupWindow::BookSearch, there), ..self.app })
    }

    /// What the terminal can show of a PDF.
    #[verifier::opaque]
    pub open spec fn with_pdf_support(self, graphics: bool, scroll_mode: bool) -> RunView {
        self.to(
            App {
                pdf_supports_graphics: graphics,
                pdf_supports_scroll_mode: scroll_mode,
                ..self.app
            },
        )
    }

    /// An EPUB was read: its search is there, and the jump list, which belongs to one book, is empty.
    /// Where it could not be read that is told, and the book before stays.
    pub open spec fn epub_loaded(self, loaded: bool) -> RunView {
        if loaded {
            self.emit(Effect::ClearJumpList).with_search(true)
        } else {
            self.notify(NotificationLevel::Error, Notice::LoadEpubFailed)
        }
    }

    /// A PDF is about to be loaded: the book before is closed with its search, and the library learns
    /// what the terminal can show. A terminal that cannot show the PDF says why.
    pub open spec fn begin_pdf(self, graphics: bool, scroll_mode: bool, blocked: bool) -> RunView {
        let r = self.emit(Effect::CloseEpub).with_search(false).with_pdf_support(
            graphics,
            scroll_mode,
        ).emit(Effect::SetLibraryGraphics(graphics));
        if blocked {
            r.notify(NotificationLevel::Warning, Notice::PdfBlocked)
        } else {
            r
        }
    }

    /// A book was opened: its text has the focus, and the position asked for is gone to.
    pub open spec fn book_opened(self, position: Option<OpenPosition>, pdf_open: bool) -> RunView {
        let r = self.emit(Effect::SetBookPath).show_panel(MainPanel::Content).emit(
            Effect::SyncTitle,
        );
        match position {
            Some(OpenPosition::Chapter(chapter)) => r.emit(Effect::NavigateTo { chapter }),
            Some(OpenPosition::Page(page)) => if pdf_open {
                r.emit(Effect::PdfSetPage(page))
            } else {
                r
            },
            None => r,
        }
    }
}

impl Run {
    fn with_search(&mut self, there: bool)
        ensures
            final(self)@ == old(self)@.with_search(there),
    {
        proof {
            reveal(RunView::with_search);
        }
        let mut windows = self.app.windows;
        windows.set(PopupWindow::BookSearch, there);
        self.set_app(App { windows, ..self.app });
    }

    fn with_pdf_support(&mut self, graphics: bool, scroll_mode: bool)
        ensures
            final(self)@ == old(self)@.with_pdf_support(graphics, scroll_mode),
    {
        proof {
            reveal(RunView::with_pdf_support);
        }
        self.set_app(
            App {
                pdf_supports_graphics: graphics,
                pdf_supports_scroll_mode: scroll_mode,
                ..self.app
            },
        );
    }
}

impl App {
    /// How the book of a path is opened at a position.
    pub fn open_book_for_reading_by_path(
        &self,
        path: &str,
        position: Option<OpenPosition>,
    ) -> (r: Result<OpenPlan, OpenError>)
        ensures
            r == opening(detected(path@), position, self.test_mode),
    {
        let format = BookManager::detect_format(path);
        plan_opening(format, position, self.test_mode)
    }

    /// How the book at a place of the library is opened.
    pub fn open_book_for_reading(&self, book_manager: &BookManager, book_index: usize) -> (r: Result<
        OpenPlan,
        OpenError,
    >)
        ensures
            book_index < book_manager.books@.len() ==> r == opening(
                detected(book_manager.books@[book_index as int].path@),
                None,
                self.test_mode,
            ),
            book_index >= book_manager.books@.len() ==> r == Err::<OpenPlan, OpenError>(
                OpenError::InvalidIndex(book_index),
            ),
    {
        match book_manager.get_book_info(book_index) {
            Some(info) => self.open_book_for_reading_by_path(info.path.as_str(), None),
            None => Err(OpenError::InvalidIndex(book_index)),
        }
    }

    /// Puts away an open PDF before an EPUB is loaded.
    pub fn begin_epub(&mut self, pdf_open: bool) -> (effects: Vec<Effect>)
        ensures
            ({
                let r = RunView::start(*old(self)).leave_pdf(pdf_open);
                *final(self) == r.app && effects@ == r.out
            }),
    {
        let mut run = Run::start(*self);
        if pdf_open {
            run.emit(Effect::PdfClearGraphics);
        }
        run.emit(Effect::PdfClose);
        *self = run.app;
        run.out
    }

    /// Goes on after an EPUB was read and indexed, or could not be read.
    pub fn epub_loaded(&mut self, loaded: bool) -> (effects: Vec<Effect>)
        ensures
            ({
                let r = RunView::start(*old(self)).epub_loaded(loaded);
                *final(self) == r.app && effects@ == r.out
            }),
    {
        let mut run = Run::start(*self);
        if loaded {
            run.emit(Effect::ClearJumpList);
            run.with_search(true);
        } else {
            run.notify(NotificationLevel::Error, Notice::LoadEpubFailed);
        }
        *self = run.app;
        run.out
    }

    /// Closes the book before a PDF is loaded; tells why where the terminal cannot show it.
    pub fn begin_pdf(&mut self, graphics: bool, scroll_mode: bool, blocked: bool) -> (effects: Vec<
        Effect,
    >)
        ensures
            ({
                let r = RunView::start(*old(self)).begin_pdf(graphics, scroll_mode, blocked);
                *final(self) == r.app && effects@ == r.out
            }),
    {
        let mut run = Run::start(*self);
        run.emit(Effect::CloseEpub);
        run.with_search(false);
        run.with_pdf_support(graphics, scroll_mode);
        run.emit(Effect::SetLibraryGraphics(graphics));
        if blocked {
            run.notify(NotificationLevel::Warning, Notice::PdfBlocked);
        }
        *self = run.app;
        run.out
    }

    /// Shows a book that was opened.
    pub fn book_opened(&mut self, position: Option<OpenPosition>, pdf_open: bool) -> (effects: Vec<
        Effect,
    >)
        ensures
            ({
                let r = RunView::start(*old(self)).book_opened(position, pdf_open);
                *final(self) == r.app && effects@ == r.out
            }),
    {
        let mut run = Run::start(*self);
        run.emit(Effect::SetBookPath);
        run.show_panel(MainPanel::Content);
        run.emit(Effect::SyncTitle);
        match position {
            Some(OpenPosition::Chapter(chapter)) => {
                run.emit(Effect::NavigateTo { chapter });
            },
            Some(OpenPosition::Page(page)) => {
                if pdf_open {
                    run.emit(Effect::PdfSetPage(page));
                }
            },
            None => {},
        }
        *self = run.app;
        run.out
    }
}

/// An opened book has the focus on its text, whatever had it before.
pub proof fn law_opened_book_is_shown(app: App, position: Option<OpenPosition>, pdf_open: bool)
    ensures
        ({
            let after = RunView::start(app).book_opened(position, pdf_open).app;
            after.focused_panel == FocusedPanel::Main(MainPanel::Content) && after.wf()
        }),
{
    broadcast use lemma_emit_app;

    let shown = RunView::start(app).emit(Effect::SetBookPath).show_panel(MainPanel::Content);
    assert(shown.app.focused_panel == FocusedPanel::Main(MainPanel::Content)) by {
        reveal(RunView::show_panel);
        reveal(RunView::to);
    }
}

/// What the terminal can show is the same to the application and to its library, and nothing else is
/// asked for before a PDF is loaded than to close the book before and to say why there is no PDF.
pub proof fn law_library_learns_of_graphics(
    app: App,
    graphics: bool,
    scroll_mode: bool,
    blocked: bool,
)
    ensures
        ({
            let r = RunView::start(app).begin_pdf(graphics, scroll_mode, blocked);
            &&& r.app.pdf_supports_graphics == graphics
            &&& r.app.pdf_supports_scroll_mode == scroll_mode
            &&& r.out == seq![Effect::CloseEpub, Effect::SetLibraryGraphics(graphics)] + (
            if blocked {
                seq![Effect::Notify(NotificationLevel::Warning, Notice::PdfBlocked)]
            } else {
                Seq::empty()
            })
        }),
{
    reveal(RunView::with_search);
    reveal(RunView::with_pdf_support);
    reveal(RunView::to);
    reveal(RunView::emit);
    reveal(RunView::notify);
}

/// A jump list belongs to one book: reading another one empties it, and a book that cannot be read
/// changes nothing but what is told.
pub proof fn law_jump_list_is_per_book(app: App)
    ensures
        RunView::start(app).epub_loaded(true).out == seq![Effect::ClearJumpList],
        RunView::start(app).epub_loaded(false).app == app,
{
    reveal(RunView::with_search);
    reveal(RunView::to);
    reveal(RunView::emit);
    assert(Seq::<Effect>::empty().push(Effect::ClearJumpList) =~= seq![Effect::ClearJumpList]);
}

/// A position is accepted exactly by the formats that have such positions: chapters by EPUB and
/// HTML, pages by PDF and DjVu.
pub proof fn law_position_fits_the_format(format: BookFormat, n: usize, test_mode: bool)
    ensures
        opening(Some(format), Some(OpenPosition::Chapter(n)), test_mode) is Ok <==> (format
            == BookFormat::Epub || format == BookFormat::Html),
        opening(Some(format), Some(OpenPosition::Page(n)), test_mode) is Ok <==> (format
            == BookFormat::Pdf || format == BookFormat::Djvu),
        opening(Some(format), None, test_mode) is Ok,
{
}

// ---------------------------------------------------------------------------------------------
// Chapters of an open book
// ---------------------------------------------------------------------------------------------
/// Where an open book stands.
#[derive(Clone, Copy, Debug, PartialEq, Eq, Structural)]
pub struct ChapterCursor {
    pub current: usize,
    pub total: usize,
}

impl ChapterCursor {
    /// The book stands at one of its chapters, if it has any.
    pub open spec fn wf(self) -> bool {
        self.total > 0 ==> self.current < self.total
    }
}

/// How a move to a chapter goes.
#[derive(Clone, Copy, Debug)]
pub struct Navigation {
    /// Whether the place before is remembered in the jump list.
    pub remember: bool,
    /// Whether the place that a link led to stays pointed out.
    pub keep_anchor: bool,
    /// The chapter gone to.
    pub result: Result<usize, OpenError>,
}

/// How a move to a chapter goes.
pub open spec fn navigation(
    book: Option<ChapterCursor>,
    chapter: usize,
    skip_jump_list: bool,
) -> Navigation {
    Navigation {
        remember: !skip_jump_list && (book matches Some(b) && b.current != chapter),
        keep_anchor: false,
        result: match book {
            None => Err(OpenError::NoEpub),
            Some(b) => if chapter < b.total {
                Ok(chapter)
            } else {
                Err(OpenError::ChapterOutOfRange(chapter))
            },
        },
    }
}

/// How a move to the next or previous chapter goes.
pub open spec fn relative_navigation(
    book: Option<ChapterCursor>,
    direction: ChapterDirection,
) -> Navigation {
    Navigation {
        remember: book is Some,
        keep_anchor: true,
        result: match book {
            None => Err(OpenError::NoDocument),
            Some(b) => match direction {
                ChapterDirection::Next => if b.current + 1 < b.total {
                    Ok((b.current + 1) as usize)
                } else {
                    Err(OpenError::AtEdge)
                },
                ChapterDirection::Previous => if b.current >= 1 {
                    Ok((b.current - 1) as usize)
                } else {
                    Err(OpenError::AtEdge)
                },
            },
        },
    }
}

/// How a move to a chapter goes.
pub fn navigate_to_chapter_inner(
    book: Option<ChapterCursor>,
    chapter_index: usize,
    skip_jump_list: bool,
) -> (r: Navigation)
    ensures
        r == navigation(book, chapter_index, skip_jump_list),
{
    match book {
        None => Navigation { remember: false, keep_anchor: false, result: Err(OpenError::NoEpub) },
        Some(b) => {
            let remember = !skip_jump_list && b.current != chapter_index;
            let result = if chapter_index < b.total {
                Ok(chapter_index)
            } else {
                Err(OpenError::ChapterOutOfRange(chapter_index))
            };
            Navigation { remember, keep_anchor: false, result }
        },
    }
}

/// How a move to a chapter goes that is remembered in the jump list.
pub fn navigate_to_chapter(book: Option<ChapterCursor>, chapter_index: usize) -> (r: Navigation)
    ensures
        r == navigation(book, chapter_index, false),
{
    navigate_to_chapter_inner(book, chapter_index, false)
}

/// How a move to the next or previous chapter goes.
pub fn navigate_chapter_relative(
    book: Option<ChapterCursor>,
    direction: ChapterDirection,
) -> (r: Navigation)
    ensures
        r == relative_navigation(book, direction),
{
    match book {
        None => Navigation {
            remember: false,
            keep_anchor: true,
            result: Err(OpenError::NoDocument),
        },
        Some(b) => {
            let result = match direction {
                ChapterDirection::Next => if b.total > 0 && b.current < b.total - 1 {
                    Ok(b.current + 1)
                } else {
                    Err(OpenError::AtEdge)
                },
                ChapterDirection::Previous => if b.current >= 1 {
                    Ok(b.current - 1)
                } else {
                    Err(OpenError::AtEdge)
                },
            };
            Navigation { remember: true, keep_anchor: true, result }
        },
    }
}

/// How a move to the chapter of a resource goes; `found` is the chapter that the resource is.
pub open spec fn href_navigation(book: Option<ChapterCursor>, found: Option<usize>) -> Navigation {
    match (book, found) {
        (None, _) => Navigation {
            remember: false,
            keep_anchor: false,
            result: Err(OpenError::NoEpub),
        },
        (Some(_), None) => Navigation {
            remember: false,
            keep_anchor: false,
            result: Err(OpenError::NoSuchHref),
        },
        (Some(_), Some(chapter)) => navigation(book, chapter, false),
    }
}

/// How a move to the chapter of a resource goes.
pub fn navigate_to_chapter_by_href(book: Option<ChapterCursor>, found: Option<usize>) -> (r:
    Navigation)
    ensures
        r == href_navigation(book, found),
{
    match (book, found) {
        (None, _) => Navigation {
            remember: false,
            keep_anchor: false,
            result: Err(OpenError::NoEpub),
        },
        (Some(_), None) => Navigation {
            remember: false,
            keep_anchor: false,
            result: Err(OpenError::NoSuchHref),
        },
        (Some(_), Some(chapter)) => navigate_to_chapter(book, chapter),
    }
}

/// What follows a move to a chapter, in this order: nothing where it failed; else the new text and its
/// place in the table of contents are shown, and the place is saved at once.
pub open spec fn navigation_effects(n: Navigation) -> Seq<Effect> {
    match n.result {
        Err(_) => Seq::empty(),
        Ok(_) => if n.keep_anchor {
            seq![
                Effect::RefreshContent,
                Effect::UpdateTocState,
                Effect::SaveBookmark { force: true },
            ]
        } else {
            seq![
                Effect::ClearActiveAnchor,
                Effect::RefreshContent,
                Effect::UpdateTocState,
                Effect::SaveBookmark { force: true },
            ]
        },
    }
}

impl Navigation {
    /// What follows the move.
    pub fn effects(&self) -> (r: Vec<Effect>)
        ensures
            r@ == navigation_effects(*self),
    {
        match self.result {
            Err(_) => Vec::new(),
            Ok(_) => {
                let mut r: Vec<Effect> = Vec::new();
                if !self.keep_anchor {
                    r.push(Effect::ClearActiveAnchor);
                }
                r.push(Effect::RefreshContent);
                r.push(Effect::UpdateTocState);
                r.push(Effect::SaveBookmark { force: true });
                assert(r@ =~= navigation_effects(*self));
                r
            },
        }
    }
}

/// Every move that succeeds ends with the place being saved at once, and only such a move changes
/// anything; the place that a link led to stays pointed out exactly on a step to the next or previous
/// chapter.
pub proof fn law_moves_are_saved(
    book: Option<ChapterCursor>,
    chapter: usize,
    found: Option<usize>,
    skip: bool,
    direction: ChapterDirection,
)
    ensures
        ({
            let to = navigation(book, chapter, skip);
            let step = relative_navigation(book, direction);
            let link = href_navigation(book, found);
            let save = Effect::SaveBookmark { force: true };
            let clear = Effect::ClearActiveAnchor;
            &&& to.result is Ok ==> navigation_effects(to).last() == save && navigation_effects(
                to,
            ).first() == clear
            &&& link.result is Ok ==> navigation_effects(link).last() == save
                && navigation_effects(link).first() == clear
            &&& step.result is Ok ==> navigation_effects(step).last() == save
                && !navigation_effects(step).contains(clear)
            &&& to.result is Err ==> navigation_effects(to).len() == 0
            &&& step.result is Err ==> navigation_effects(step).len() == 0
            &&& link.result is Err ==> navigation_effects(link).len() == 0
        }),
{
}

/// A step to the next chapter is undone by a step to the previous one, and the other way round.
pub proof fn law_steps_undo_each_other(book: ChapterCursor)
    requires
        book.wf(),
    ensures
        match relative_navigation(Some(book), ChapterDirection::Next).result {
            Ok(c) => relative_navigation(
                Some(ChapterCursor { current: c, total: book.total }),
                ChapterDirection::Previous,
            ).result == Ok::<usize, OpenError>(book.current),
            Err(_) => true,
        },
        match relative_navigation(Some(book), ChapterDirection::Previous).result {
            Ok(c) => book.total > 0 ==> relative_navigation(
                Some(ChapterCursor { current: c, total: book.total }),
                ChapterDirection::Next,
            ).result == Ok::<usize, OpenError>(book.current),
            Err(_) => true,
        },
{
}

/// A move that succeeds leads to a chapter of the book.
pub proof fn law_moves_stay_in_the_book(
    book: Option<ChapterCursor>,
    chapter: usize,
    skip: bool,
    direction: ChapterDirection,
)
    requires
        book matches Some(b) ==> b.wf() && b.total > 0,
    ensures
        navigation(book, chapter, skip).result matches Ok(c) ==> c < book->0.total,
        relative_navigation(book, direction).result matches Ok(c) ==> c < book->0.total,
{
}

// ---------------------------------------------------------------------------------------------
// Where an EPUB is opened
// ---------------------------------------------------------------------------------------------
/// The place of a book that was read before.
pub struct EpubBookmark {
    pub chapter_href: String,
    pub node_index: Option<usize>,
    /// How many nodes the book has, where they were counted.
    pub total_nodes: Option<usize>,
}

/// What is first remembered of a book that was opened.
#[derive(Clone, Debug)]
pub struct InitialBookmark {
    pub chapter_href: String,
    pub chapter_index: Option<usize>,
    pub total_chapters: Option<usize>,
    pub pdf_page: Option<usize>,
}

/// What is first remembered of a book, with its text as a sequence.
#[verifier::ext_equal]
pub struct InitialBookmarkView {
    pub chapter_href: Seq<char>,
    pub chapter_index: Option<usize>,
    pub total_chapters: Option<usize>,
    pub pdf_page: Option<usize>,
}

impl View for InitialBookmark {
    type V = InitialBookmarkView;

    open spec fn view(&self) -> InitialBookmarkView {
        InitialBookmarkView {
            chapter_href: self.chapter_href@,
            chapter_index: self.chapter_index,
            total_chapters: self.total_chapters,
            pdf_page: self.pdf_page,
        }
    }
}

/// The bookmark that counts: none where bookmarks are ignored.
pub open spec fn kept<T>(ignored: bool, bookmark: Option<T>) -> Option<T> {
    if ignored {
        None
    } else {
        bookmark
    }
}

/// Where the comments on a book come from.
#[derive(Clone, Copy, Debug, PartialEq, Eq, Structural)]
pub enum CommentsOf {
    /// The terminal cannot show comments.
    Unsupported,
    /// The book is read without what was stored of it.
    Empty,
    Stored,
}

/// Where an EPUB is shown after it was loaded.
#[derive(Clone, Copy, Debug, PartialEq, Eq, Structural)]
pub struct EpubStart {
    pub chapter: usize,
    /// The node that is scrolled to.
    pub node: Option<usize>,
}

/// Where an EPUB is shown: at the chapter that its bookmark leads to, else where it stands; without
/// a bookmark at the chapter after that, or at the second one, skipping the cover.
pub open spec fn epub_start(
    spine: Seq<Option<String>>,
    current: usize,
    bookmark: Option<EpubBookmark>,
) -> EpubStart {
    match bookmark {
        Some(b) => match chapter_by_href(spine, b.chapter_href@, 0) {
            Some(chapter) => EpubStart { chapter: chapter as usize, node: b.node_index },
            None => EpubStart { chapter: current, node: None },
        },
        None => if spine.len() > 1 {
            if current + 1 < spine.len() {
                EpubStart { chapter: (current + 1) as usize, node: None }
            } else {
                EpubStart { chapter: 1, node: None }
            }
        } else {
            EpubStart { chapter: current, node: None }
        },
    }
}

/// Where an EPUB is shown after it was loaded and stands at `current`.
pub fn find_epub_start(
    spine: &Vec<Option<String>>,
    current: usize,
    bookmark: &Option<EpubBookmark>,
) -> (r: EpubStart)
    ensures
        r == epub_start(spine@, current, *bookmark),
{
    match bookmark {
        Some(b) => {
            match find_chapter_index_by_href(spine, b.chapter_href.as_str()) {
                Some(chapter) => EpubStart { chapter, node: b.node_index },
                None => EpubStart { chapter: current, node: None },
            }
        },
        None => {
            let total: usize = spine.len();
            if total > 1 {
                if current < total - 1 {
                    EpubStart { chapter: current + 1, node: None }
                } else {
                    EpubStart { chapter: 1, node: None }
                }
            } else {
                EpubStart { chapter: current, node: None }
            }
        },
    }
}

/// What is done to show an EPUB that was read.
#[derive(Clone, Copy, Debug, PartialEq, Eq, Structural)]
pub enum EpubStep {
    UseComments(CommentsOf),
    GoToChapter(usize),
    /// The nodes are counted, unless their number is known.
    CountNodes { known: Option<usize> },
    /// The navigation panel shows the table of contents.
    ShowContents,
    /// The text of the chapter is shown.
    RefreshContent,
    RestoreNode(usize),
    /// What is first remembered of the book is stored.
    Remember,
}

/// What is done to show an EPUB that was read, in this order: the place in its text is gone to once
/// the text is there, and the book is remembered at that place.
pub open spec fn epub_steps(
    start: EpubStart,
    comments: CommentsOf,
    total_nodes: Option<usize>,
    remember: bool,
) -> Seq<EpubStep> {
    let shown = seq![
        EpubStep::UseComments(comments),
        EpubStep::GoToChapter(start.chapter),
        EpubStep::CountNodes { known: total_nodes },
        EpubStep::ShowContents,
        EpubStep::RefreshContent,
    ];
    let restored = match start.node {
        Some(node) => shown.push(EpubStep::RestoreNode(node)),
        None => shown,
    };
    if remember {
        restored.push(EpubStep::Remember)
    } else {
        restored
    }
}

fn make_epub_steps(
    start: EpubStart,
    comments: CommentsOf,
    total_nodes: Option<usize>,
    remember: bool,
) -> (r: Vec<EpubStep>)
    ensures
        r@ == epub_steps(start, comments, total_nodes, remember),
{
    let mut r = vec![
        EpubStep::UseComments(comments),
        EpubStep::GoToChapter(start.chapter),
        EpubStep::CountNodes { known: total_nodes },
        EpubStep::ShowContents,
        EpubStep::RefreshContent,
    ];
    assert(r@ =~= epub_steps(EpubStart { node: None, ..start }, comments, total_nodes, false));
    if let Some(node) = start.node {
        r.push(EpubStep::RestoreNode(node));
    }
    if remember {
        r.push(EpubStep::Remember);
    }
    r
}

/// How an EPUB is opened.
pub struct EpubPlan {
    pub start: EpubStart,
    pub comments: CommentsOf,
    /// How many nodes the book has; where this is not known they are counted.
    pub total_nodes: Option<usize>,
    /// What is remembered of the book as soon as it is shown.
    pub remember: Option<InitialBookmark>,
    /// What is done to show the book.
    pub steps: Vec<EpubStep>,
}

/// What is first remembered of an EPUB shown at a chapter.
pub open spec fn first_epub_bookmark(
    spine: Seq<Option<String>>,
    chapter: usize,
) -> InitialBookmarkView {
    InitialBookmarkView {
        chapter_href: place_href(spine, chapter),
        chapter_index: Some(chapter),
        total_chapters: Some(spine.len() as usize),
        pdf_page: None,
    }
}

/// How an EPUB is opened that stands at `current`: where it was left, with what is stored of it. Where
/// bookmarks are ignored nothing stored is used, and nothing is remembered.
pub fn load_epub(
    spine: &Vec<Option<String>>,
    current: usize,
    bookmark: &Option<EpubBookmark>,
    ignore_bookmarks: bool,
) -> (r: EpubPlan)
    ensures
        r.start == epub_start(spine@, current, kept(ignore_bookmarks, *bookmark)),
        r.comments == (if ignore_bookmarks {
            CommentsOf::Empty
        } else {
            CommentsOf::Stored
        }),
        r.total_nodes == (match kept(ignore_bookmarks, *bookmark) {
            Some(b) => b.total_nodes,
            None => None,
        }),
        match r.remember {
            Some(b) => !ignore_bookmarks && b@ == first_epub_bookmark(spine@, r.start.chapter),
            None => ignore_bookmarks,
        },
        r.steps@ == epub_steps(r.start, r.comments, r.total_nodes, !ignore_bookmarks),
{
    if ignore_bookmarks {
        let start = find_epub_start(spine, current, &None);
        return EpubPlan {
            start,
            comments: CommentsOf::Empty,
            total_nodes: None,
            remember: None,
            steps: make_epub_steps(start, CommentsOf::Empty, None, false),
        };
    }
    let start = find_epub_start(spine, current, bookmark);
    let total_nodes = match bookmark {
        Some(b) => b.total_nodes,
        None => None,
    };
    let remember = InitialBookmark {
        chapter_href: bookmark_href(spine, start.chapter),
        chapter_index: Some(start.chapter),
        total_chapters: Some(spine.len()),
        pdf_page: None,
    };
    let steps = make_epub_steps(start, CommentsOf::Stored, total_nodes, true);
    EpubPlan { start, comments: CommentsOf::Stored, total_nodes, remember: Some(remember), steps }
}

proof fn lemma_found_chapter_matches(spine: Seq<Option<String>>, target: Seq<char>, i: int)
    requires
        0 <= i,
    ensures
        chapter_by_href(spine, target, i) matches Some(k) ==> i <= k < spine.len() && href_matches(
            spine_paths(spine)[k],
            target,
        ),
    decreases spine.len() - i,
{
    if i < spine.len() {
        lemma_found_chapter_matches(spine, target, i + 1);
    }
}

/// What is remembered of an EPUB leads back to the chapter it was shown at, unless the path of an
/// earlier chapter contains that of this chapter or is contained in it.
pub proof fn law_epub_is_shown_where_it_was(
    spine: Seq<Option<String>>,
    current: usize,
    bookmark: EpubBookmark,
    chapter: usize,
)
    requires
        chapter < spine.len(),
        spine[chapter as int] is Some,
        bookmark.chapter_href@ == first_epub_bookmark(spine, chapter).chapter_href,
        forall|j: int|
            0 <= j < chapter ==> !href_matches(
                #[trigger] spine_paths(spine)[j],
                bookmark.chapter_href@,
            ),
    ensures
        epub_start(spine, current, Some(bookmark)) == (EpubStart {
            chapter,
            node: bookmark.node_index,
        }),
{
    law_chapter_path_leads_home(spine, chapter as int, 0);
    lemma_found_chapter_matches(spine, bookmark.chapter_href@, 0);
}

// ---------------------------------------------------------------------------------------------
// Where and how a PDF is opened
// ---------------------------------------------------------------------------------------------
/// What is remembered of a PDF that was read before.
pub struct PdfBookmark {
    pub pdf_page: Option<usize>,
    pub chapter_index: Option<usize>,
    pub chapter_href: String,
    pub invert_images: Option<bool>,
    pub themed_rendering: Option<bool>,
}

/// The page that a bookmark leads to.
pub open spec fn bookmarked_page(bookmark: Option<PdfBookmark>) -> usize {
    match bookmark {
        None => 0,
        Some(b) => match (b.pdf_page, b.chapter_index) {
            (Some(p), _) => p,
            (None, Some(c)) => c,
            (None, None) => match parsed_uint(b.chapter_href@, usize::MAX as nat) {
                Some(n) => n as usize,
                None => 0,
            },
        },
    }
}

/// The page that a document is opened at: that of the bookmark, or the last one where the document
/// has fewer.
pub open spec fn first_page(bookmark: Option<PdfBookmark>, page_count: usize) -> usize {
    let asked = bookmarked_page(bookmark);
    if page_count > 0 && asked >= page_count {
        (page_count - 1) as usize
    } else {
        asked
    }
}

/// The page that a document is opened at.
pub fn initial_page(bookmark: &Option<PdfBookmark>, page_count: usize) -> (r: usize)
    ensures
        r == first_page(*bookmark, page_count),
        page_count > 0 ==> r < page_count,
{
    let asked: usize = match bookmark {
        None => 0,
        Some(b) => match (b.pdf_page, b.chapter_index) {
            (Some(p), _) => p,
            (None, Some(c)) => c,
            (None, None) => {
                let cs = text::chars_of(b.chapter_href.as_str());
                match text::parse_uint(&cs, usize::MAX as u64) {
                    Some(n) => n as usize,
                    None => 0,
                }
            },
        },
    };
    if page_count > 0 && asked >= page_count {
        page_count - 1
    } else {
        asked
    }
}

/// The text under which the page of a document is first remembered.
pub open spec fn page_href(restored: Option<usize>) -> Seq<char> {
    match restored {
        Some(p) => decimal(p as nat),
        None => "0"@,
    }
}

/// The text under which the page of a document is first remembered.
pub fn initial_page_href(restored: Option<usize>) -> (r: String)
    ensures
        r@ == page_href(restored),
{
    match restored {
        Some(p) => text::decimal_of(p as u64),
        None => text::copy("0"),
    }
}

/// What is known when a document is opened.
#[derive(Clone, Copy, Debug, PartialEq, Eq, Structural)]
pub struct PdfFacts {
    /// Whether the terminal keeps the pictures of pages itself.
    pub kitty: bool,
    pub supports_comments: bool,
    pub ignore_bookmarks: bool,
    pub page_count: usize,
    /// Whether pages follow each other without gaps.
    pub scroll_mode: bool,
    /// Whether pictures can be handed over in shared memory, where that was found out.
    pub shm_known: Option<bool>,
    pub shm_disabled: bool,
    /// Whether the terminal said how it shows pictures.
    pub has_picker: bool,
    /// Whether pictures can be deleted by ranges, where that was found out.
    pub delete_range: Option<bool>,
    /// Whether the zoom is another one than that of a document that was never zoomed.
    pub zoomed: bool,
}

/// How a document is opened.
#[derive(Clone, Copy, Debug, PartialEq, Eq, Structural)]
pub struct PdfPlan {
    pub initial_page: usize,
    /// Whether the smaller cache of rendered pages is used.
    pub small_cache: bool,
    pub comments: CommentsOf,
    /// The page that is scrolled to once the pages are laid out.
    pub pending_scroll: Option<usize>,
    pub invert_images: Option<bool>,
    /// Whether the renderer, which inverts pictures, is told not to.
    pub toggle_invert: bool,
    pub themed_rendering: Option<bool>,
    /// Whether the renderer is told to use the colours of the document.
    pub plain_colors: bool,
    pub delete_range: Option<bool>,
    /// Whether a converter is started, and if so whether it uses shared memory.
    pub converter: Option<bool>,
    /// What is remembered of shared memory.
    pub remember_shm: Option<bool>,
    /// Whether the renderer is told the zoom; a terminal that keeps the pictures zooms them itself.
    pub renderer_zooms: bool,
}

/// How a document is opened.
pub open spec fn pdf_plan(f: PdfFacts, stored: Option<PdfBookmark>) -> PdfPlan {
    let bookmark = kept(f.ignore_bookmarks, stored);
    let page = first_page(bookmark, f.page_count);
    let invert = match bookmark {
        Some(b) => b.invert_images,
        None => None,
    };
    let themed = match bookmark {
        Some(b) => b.themed_rendering,
        None => None,
    };
    let shm = match f.shm_known {
        Some(s) => s,
        None => !f.shm_disabled,
    };
    PdfPlan {
        initial_page: page,
        small_cache: f.kitty,
        comments: if !f.supports_comments {
            CommentsOf::Unsupported
        } else if f.ignore_bookmarks {
            CommentsOf::Empty
        } else {
            CommentsOf::Stored
        },
        pending_scroll: if f.kitty && page > 0 && f.scroll_mode {
            Some(page)
        } else {
            None
        },
        invert_images: invert,
        toggle_invert: invert == Some(false),
        themed_rendering: themed,
        plain_colors: themed == Some(false),
        delete_range: f.delete_range,
        converter: if f.has_picker {
            Some(f.kitty && shm)
        } else {
            None
        },
        remember_shm: if f.has_picker && f.kitty {
            Some(shm)
        } else {
            f.shm_known
        },
        renderer_zooms: !f.kitty && f.zoomed,
    }
}

fn is_false(b: Option<bool>) -> (r: bool)
    ensures
        r == (b == Some(false)),
{
    match b {
        Some(v) => !v,
        None => false,
    }
}

/// What is done to show a document.
#[derive(Clone, Copy, Debug, PartialEq, Eq, Structural)]
pub enum PdfStep {
    /// What is first remembered of the document is stored.
    Remember,
    ToggleInvert,
    UsePlainColors,
    StartConverter { shm: bool },
    /// Its source is looked for, with a message where it is found.
    RefreshSource { announce: bool },
    /// The renderer is told its page, and renders nothing yet, as the size of a page is not known.
    SetPageUnrendered(usize),
    SetZoom,
    TellConverter,
    /// The navigation panel shows the table of contents.
    ShowContents,
    SavePlace { force: bool },
}

/// A step that is only taken where it applies.
pub open spec fn taken(applies: bool, step: PdfStep) -> Seq<PdfStep> {
    if applies {
        seq![step]
    } else {
        Seq::empty()
    }
}

/// What is done to show a document, in this order.
pub open spec fn pdf_steps(p: PdfPlan) -> Seq<PdfStep> {
    seq![PdfStep::Remember] + taken(p.toggle_invert, PdfStep::ToggleInvert) + taken(
        p.plain_colors,
        PdfStep::UsePlainColors,
    ) + taken(
        p.converter is Some,
        PdfStep::StartConverter { shm: p.converter == Some(true) },
    ) + seq![
        PdfStep::RefreshSource { announce: true },
        PdfStep::SetPageUnrendered(p.initial_page),
    ] + taken(p.renderer_zooms, PdfStep::SetZoom) + taken(
        p.converter is Some,
        PdfStep::TellConverter,
    ) + seq![PdfStep::ShowContents, PdfStep::SavePlace { force: true }]
}

/// What is done to show a document.
pub fn make_pdf_steps(p: &PdfPlan) -> (r: Vec<PdfStep>)
    ensures
        r@ == pdf_steps(*p),
{
    let mut r: Vec<PdfStep> = Vec::new();
    r.push(PdfStep::Remember);
    if p.toggle_invert {
        r.push(PdfStep::ToggleInvert);
    }
    if p.plain_colors {
        r.push(PdfStep::UsePlainColors);
    }
    if let Some(shm) = p.converter {
        r.push(PdfStep::StartConverter { shm });
    }
    r.push(PdfStep::RefreshSource { announce: true });
    r.push(PdfStep::SetPageUnrendered(p.initial_page));
    if p.renderer_zooms {
        r.push(PdfStep::SetZoom);
    }
    if p.converter.is_some() {
        r.push(PdfStep::TellConverter);
    }
    r.push(PdfStep::ShowContents);
    r.push(PdfStep::SavePlace { force: true });
    assert(r@ =~= pdf_steps(*p));
    r
}

/// A document that is shown is remembered first and saved last, once its table of contents is shown;
/// its source is always looked for, and the renderer is always told the page.
pub proof fn law_shown_document_is_saved(p: PdfPlan)
    ensures
        pdf_steps(p).first() == PdfStep::Remember,
        pdf_steps(p).last() == (PdfStep::SavePlace { force: true }),
        pdf_steps(p)[pdf_steps(p).len() - 2] == PdfStep::ShowContents,
        pdf_steps(p).contains(PdfStep::SetPageUnrendered(p.initial_page)),
        pdf_steps(p).contains(PdfStep::RefreshSource { announce: true }),
{
    let s = pdf_steps(p);
    let k = 1 + taken(p.toggle_invert, PdfStep::ToggleInvert).len() + taken(
        p.plain_colors,
        PdfStep::UsePlainColors,
    ).len() + (if p.converter is Some {
        1int
    } else {
        0int
    });
    assert(s[k] == (PdfStep::RefreshSource { announce: true }));
    assert(s[k + 1] == PdfStep::SetPageUnrendered(p.initial_page));
}

/// How a document is opened, and what is done to show it.
#[derive(Debug)]
pub struct PdfOpening {
    pub plan: PdfPlan,
    pub steps: Vec<PdfStep>,
}

/// How a document is opened, and what is done to show it.
pub fn load_pdf(f: &PdfFacts, stored: &Option<PdfBookmark>) -> (r: PdfOpening)
    ensures
        r.plan == pdf_plan(*f, *stored),
        r.steps@ == pdf_steps(r.plan),
{
    let plan = plan_pdf(f, stored);
    let steps = make_pdf_steps(&plan);
    PdfOpening { plan, steps }
}

fn plan_pdf(f: &PdfFacts, stored: &Option<PdfBookmark>) -> (r: PdfPlan)
    ensures
        r == pdf_plan(*f, *stored),
{
    let bookmark = if f.ignore_bookmarks {
        &None
    } else {
        stored
    };
    let page = initial_page(bookmark, f.page_count);
    let invert = match bookmark {
        Some(b) => b.invert_images,
        None => None,
    };
    let themed = match bookmark {
        Some(b) => b.themed_rendering,
        None => None,
    };
    let shm = match f.shm_known {
        Some(s) => s,
        None => !f.shm_disabled,
    };
    PdfPlan {
        initial_page: page,
        small_cache: f.kitty,
        comments: if !f.supports_comments {
            CommentsOf::Unsupported
        } else if f.ignore_bookmarks {
            CommentsOf::Empty
        } else {
            CommentsOf::Stored
        },
        pending_scroll: if f.kitty && page > 0 && f.scroll_mode {
            Some(page)
        } else {
            None
        },
        invert_images: invert,
        toggle_invert: is_false(invert),
        themed_rendering: themed,
        plain_colors: is_false(themed),
        delete_range: f.delete_range,
        converter: if f.has_picker {
            Some(f.kitty && shm)
        } else {
            None
        },
        remember_shm: if f.has_picker && f.kitty {
            Some(shm)
        } else {
            f.shm_known
        },
        renderer_zooms: !f.kitty && f.zoomed,
    }
}

/// What is first remembered of a PDF: the page that was stored, or the first one.
pub open spec fn first_pdf_bookmark(
    f: PdfFacts,
    stored: Option<PdfBookmark>,
) -> InitialBookmarkView {
    let restored = match kept(f.ignore_bookmarks, stored) {
        Some(b) => b.pdf_page,
        None => None,
    };
    InitialBookmarkView {
        chapter_href: page_href(restored),
        chapter_index: None,
        total_chapters: Some(f.page_count),
        pdf_page: if restored is Some {
            restored
        } else {
            Some(0)
        },
    }
}

/// What is first remembered of a PDF.
pub fn initial_pdf_bookmark(f: &PdfFacts, stored: &Option<PdfBookmark>) -> (r: InitialBookmark)
    ensures
        r@ == first_pdf_bookmark(*f, *stored),
{
    let mut restored: Option<usize> = None;
    if !f.ignore_bookmarks {
        if let Some(b) = stored {
            restored = b.pdf_page;
        }
    }
    InitialBookmark {
        chapter_href: initial_page_href(restored),
        chapter_index: None,
        total_chapters: Some(f.page_count),
        pdf_page: if restored.is_some() {
            restored
        } else {
            Some(0)
        },
    }
}

/// A document that is opened without bookmarks is opened as if it had none.
pub proof fn law_ignored_bookmark_does_nothing(f: PdfFacts, stored: Option<PdfBookmark>)
    requires
        f.ignore_bookmarks,
    ensures
        pdf_plan(f, stored) == pdf_plan(f, None),
        first_pdf_bookmark(f, stored) == first_pdf_bookmark(f, None),
{
}

/// What the converter is first told.
#[derive(Clone, Copy, Debug, PartialEq, Eq, Structural)]
pub enum ConverterCommand {
    SetPageCount(usize),
    NavigateTo(usize),
    UpdateComments,
    UpdateHighlights,
}

/// What the converter is first told: how many pages there are, where to start, and the marks on the
/// pages where there are any.
pub open spec fn first_commands(
    page_count: usize,
    page: usize,
    has_comments: bool,
    has_highlights: bool,
) -> Seq<ConverterCommand> {
    let a = seq![ConverterCommand::SetPageCount(page_count), ConverterCommand::NavigateTo(page)];
    let b = if has_comments {
        a.push(ConverterCommand::UpdateComments)
    } else {
        a
    };
    if has_highlights {
        b.push(ConverterCommand::UpdateHighlights)
    } else {
        b
    }
}

/// What the converter is first told.
pub fn converter_commands(
    page_count: usize,
    page: usize,
    has_comments: bool,
    has_highlights: bool,
) -> (r: Vec<ConverterCommand>)
    ensures
        r@ == first_commands(page_count, page, has_comments, has_highlights),
{
    let mut r: Vec<ConverterCommand> = Vec::new();
    r.push(ConverterCommand::SetPageCount(page_count));
    r.push(ConverterCommand::NavigateTo(page));
    assert(r@ =~= seq![
        ConverterCommand::SetPageCount(page_count),
        ConverterCommand::NavigateTo(page),
    ]);
    if has_comments {
        r.push(ConverterCommand::UpdateComments);
    }
    if has_highlights {
        r.push(ConverterCommand::UpdateHighlights);
    }
    r
}

/// Shared memory is used only with a terminal that keeps the pictures itself.
pub proof fn law_shared_memory_needs_kitty(f: PdfFacts, bookmark: Option<PdfBookmark>)
    ensures
        pdf_plan(f, bookmark).converter == Some(true) ==> f.kitty,
{
}

/// What was remembered of a page leads back to it as long as the document has it.
pub proof fn law_page_is_restored(b: PdfBookmark, page: usize, page_count: usize)
    requires
        b.pdf_page == Some(page) || (b.pdf_page is None && b.chapter_index is None
            && b.chapter_href@ == page_href(Some(page))),
        page < page_count,
    ensures
        first_page(Some(b), page_count) == page,
{
    if b.pdf_page is None {
        text::lemma_decimal_reads_back(page as nat, usize::MAX as nat);
    }
}

// ---------------------------------------------------------------------------------------------
// What was found out of the terminal
// ---------------------------------------------------------------------------------------------
/// What was found out of the terminal before the application started; each is noted once.
#[derive(Clone, Copy, Debug, PartialEq, Eq, Structural)]
pub struct KittyOverrides {
    pub shm: Option<Option<bool>>,
    pub delete_range: Option<Option<bool>>,
}

impl KittyOverrides {
    /// Nothing found out yet.
    pub fn new() -> (r: Self)
        ensures
            r == (KittyOverrides { shm: None, delete_range: None }),
    {
        KittyOverrides { shm: None, delete_range: None }
    }

    /// What was found out of shared memory.
    pub open spec fn shm_support(self) -> Option<bool> {
        match self.shm {
            Some(s) => s,
            None => None,
        }
    }

    /// What was found out of deleting pictures by ranges.
    pub open spec fn delete_range_support(self) -> Option<bool> {
        match self.delete_range {
            Some(s) => s,
            None => None,
        }
    }

    /// What was found out of shared memory.
    pub fn pdf_kitty_shm_support(&self) -> (r: Option<bool>)
        ensures
            r == self.shm_support(),
    {
        match self.shm {
            Some(s) => s,
            None => None,
        }
    }

    /// What was found out of deleting pictures by ranges.
    pub fn pdf_kitty_delete_range_support(&self) -> (r: Option<bool>)
        ensures
            r == self.delete_range_support(),
    {
        match self.delete_range {
            Some(s) => s,
            None => None,
        }
    }
}

/// Notes whether pictures can be handed over in shared memory. Only the first note counts.
pub fn set_kitty_shm_support_override(slots: &mut KittyOverrides, support: Option<bool>)
    ensures
        *final(slots) == (KittyOverrides {
            shm: if old(slots).shm is Some {
                old(slots).shm
            } else {
                Some(support)
            },
            ..*old(slots)
        }),
{
    if slots.shm.is_none() {
        slots.shm = Some(support);
    }
}

/// Notes whether pictures can be deleted by ranges. Only the first note counts.
pub fn set_kitty_delete_range_support_override(slots: &mut KittyOverrides, support: Option<bool>)
    ensures
        *final(slots) == (KittyOverrides {
            delete_range: if old(slots).delete_range is Some {
                old(slots).delete_range
            } else {
                Some(support)
            },
            ..*old(slots)
        }),
{
    if slots.delete_range.is_none() {
        slots.delete_range = Some(support);
    }
}

// ---------------------------------------------------------------------------------------------
// Saving the place
// ---------------------------------------------------------------------------------------------
/// What is done to keep the place.
#[derive(Clone, Copy, Debug, PartialEq, Eq, Structural)]
pub enum SavePlan {
    /// The reader of the document keeps it.
    PdfReader,
    /// The bookmark is updated, and perhaps written out.
    Update { write: bool },
    /// No book is open.
    Nothing,
}

/// What is done to keep the place: bookmarks are written out at once where that is asked for, else
/// only when more than half a second has passed since the last time.
pub open spec fn saving(
    pdf_open: bool,
    book_open: bool,
    force: bool,
    nanos_since_save: u128,
) -> SavePlan {
    if pdf_open {
        SavePlan::PdfReader
    } else if book_open {
        SavePlan::Update { write: force || nanos_since_save > 500_000_000 }
    } else {
        SavePlan::Nothing
    }
}

/// What is done to keep the place.
pub fn save_bookmark_with_throttle(
    pdf_open: bool,
    book_open: bool,
    force: bool,
    nanos_since_save: u128,
) -> (r: SavePlan)
    ensures
        r == saving(pdf_open, book_open, force, nanos_since_save),
{
    if pdf_open {
        SavePlan::PdfReader
    } else if book_open {
        SavePlan::Update { write: force || nanos_since_save > 500_000_000 }
    } else {
        SavePlan::Nothing
    }
}

// ---------------------------------------------------------------------------------------------
// Colours
// ---------------------------------------------------------------------------------------------
/// A colour as one number, red in the highest byte of three.
pub open spec fn rgb_number(color: Option<(u8, u8, u8)>) -> int {
    match color {
        Some((r, g, b)) => r * 65536 + g * 256 + b,
        None => 0,
    }
}

/// A colour as one number; one that has no fixed value counts as black.
pub fn color_to_i32(color: Option<(u8, u8, u8)>) -> (n: i32)
    ensures
        n == rgb_number(color),
{
    match color {
        Some((r, g, b)) => (r as i32) * 65536 + (g as i32) * 256 + (b as i32),
        None => 0,
    }
}

/// The colours that a document is rendered in: its background and its text.
pub fn palette_to_mupdf_colors(
    background: Option<(u8, u8, u8)>,
    foreground: Option<(u8, u8, u8)>,
) -> (r: (i32, i32))
    ensures
        r.0 == rgb_number(background),
        r.1 == rgb_number(foreground),
{
    (color_to_i32(background), color_to_i32(foreground))
}

// ---------------------------------------------------------------------------------------------
// Pictures that the terminal dropped
// ---------------------------------------------------------------------------------------------
/// The page whose picture a response is about, where it says that the picture is gone. The picture
/// of a page has the number of the page plus one.
pub open spec fn lost_page(response: (Option<u32>, Seq<char>)) -> Option<int> {
    match response.0 {
        Some(id) => if says_evicted(response.1) || response.1 != "OK"@ {
            Some(if id > 0 {
                id - 1
            } else {
                0
            })
        } else {
            None
        },
        None => None,
    }
}

/// After the first `n` responses: which pages still have their pictures, and which lost them, in
/// the order in which that was learnt.
pub open spec fn after_responses(
    responses: Seq<KittyResponse>,
    n: nat,
    uploaded: Seq<bool>,
) -> (Seq<bool>, Seq<usize>)
    decreases n,
{
    if n == 0 || n > responses.len() {
        (uploaded, Seq::empty())
    } else {
        let (up, lost) = after_responses(responses, (n - 1) as nat, uploaded);
        match lost_page(responses[n - 1]@) {
            Some(page) => if page < up.len() && up[page] {
                (up.update(page, false), lost.push(page as usize))
            } else {
                (up, lost)
            },
            None => (up, lost),
        }
    }
}

/// What follows from pictures that the terminal dropped.
#[derive(Debug)]
pub struct Evictions {
    /// The pages that have to be drawn again.
    pub pages: Vec<usize>,
    /// Whether a redraw is forced.
    pub redraw: bool,
}

/// Takes note of the pictures that the terminal dropped: `uploaded` says of each page whether the
/// terminal has its picture. The pages that have to be drawn again are handed back, and a redraw is
/// forced where there are any.
pub fn handle_kitty_eviction_responses(
    responses: &Vec<KittyResponse>,
    uploaded: &mut Vec<bool>,
) -> (r: Evictions)
    ensures
        (final(uploaded)@, r.pages@) == after_responses(
            responses@,
            responses@.len(),
            old(uploaded)@,
        ),
        r.redraw == (r.pages@.len() > 0),
{
    let mut evicted: Vec<usize> = Vec::new();
    let mut i: usize = 0;
    assert(evicted@ =~= Seq::empty());
    while i < responses.len()
        invariant
            i <= responses@.len(),
            (uploaded@, evicted@) == after_responses(responses@, i as nat, old(uploaded)@),
        decreases responses@.len() - i,
    {
        let response = &responses[i];
        if response.is_evicted() || response.is_error() {
            if let Some(image_id) = response.image_id {
                let page: usize = if image_id > 0 {
                    image_id as usize - 1
                } else {
                    0
                };
                if page < uploaded.len() && uploaded[page] {
                    uploaded.set(page, false);
                    evicted.push(page);
                }
            }
        }
        i += 1;
    }
    let redraw = evicted.len() > 0;
    Evictions { pages: evicted, redraw }
}

/// What the converter is told of pages that have to be drawn again.
#[derive(Debug)]
pub enum RedrawCommand {
    /// The pictures of these pages are gone.
    DisplayFailed(Vec<usize>),
    /// A page that was rendered before is converted again.
    EnqueuePage(usize),
}

/// What the converter is told of pages that have to be drawn again.
pub enum RedrawView {
    DisplayFailed(Seq<usize>),
    EnqueuePage(usize),
}

impl View for RedrawCommand {
    type V = RedrawView;

    open spec fn view(&self) -> RedrawView {
        match self {
            RedrawCommand::DisplayFailed(pages) => RedrawView::DisplayFailed(pages@),
            RedrawCommand::EnqueuePage(page) => RedrawView::EnqueuePage(*page),
        }
    }
}

/// The commands for those of the first `n` pages that were rendered before.
pub open spec fn enqueued(pages: Seq<usize>, cached: Seq<bool>, n: nat) -> Seq<RedrawView>
    decreases n,
{
    if n == 0 || n > pages.len() {
        Seq::empty()
    } else {
        let before = enqueued(pages, cached, (n - 1) as nat);
        let page = pages[n - 1];
        if page < cached.len() && cached[page as int] {
            before.push(RedrawView::EnqueuePage(page))
        } else {
            before
        }
    }
}

/// What the converter is told of pages that have to be drawn again: nothing where there are none.
pub open spec fn redraw_commands(pages: Seq<usize>, cached: Seq<bool>) -> Seq<RedrawView> {
    if pages.len() == 0 {
        Seq::empty()
    } else {
        seq![RedrawView::DisplayFailed(pages)] + enqueued(pages, cached, pages.len())
    }
}

/// What the converter is told of pages whose pictures are gone; `cached` says of each page whether
/// it was rendered before.
pub fn re_enqueue_pdf_images(pages: &Vec<usize>, cached: &Vec<bool>) -> (r: Vec<RedrawCommand>)
    ensures
        r@.map_values(|c: RedrawCommand| c@) == redraw_commands(pages@, cached@),
{
    let mut r: Vec<RedrawCommand> = Vec::new();
    if pages.len() == 0 {
        assert(r@.map_values(|c: RedrawCommand| c@) =~= Seq::empty());
        return r;
    }
    let mut own: Vec<usize> = Vec::new();
    let mut k: usize = 0;
    while k < pages.len()
        invariant
            k <= pages@.len(),
            own@ =~= pages@.take(k as int),
        decreases pages@.len() - k,
    {
        own.push(pages[k]);
        k += 1;
    }
    assert(own@ =~= pages@);
    r.push(RedrawCommand::DisplayFailed(own));
    let ghost head = seq![RedrawView::DisplayFailed(pages@)];
    assert(r@.map_values(|c: RedrawCommand| c@) =~= head + enqueued(pages@, cached@, 0));
    let mut i: usize = 0;
    while i < pages.len()
        invariant
            i <= pages@.len(),
            r@.map_values(|c: RedrawCommand| c@) =~= head + enqueued(pages@, cached@, i as nat),
        decreases pages@.len() - i,
    {
        let page = pages[i];
        if page < cached.len() && cached[page] {
            let ghost before = r@;
            r.push(RedrawCommand::EnqueuePage(page));
            assert(r@.map_values(|c: RedrawCommand| c@) =~= before.map_values(
                |c: RedrawCommand| c@,
            ).push(RedrawView::EnqueuePage(page)));
        }
        i += 1;
    }
    r
}

/// A page is drawn again only where the terminal had its picture, and only once; it then counts as
/// not there, and every other page stays as it was.
pub proof fn law_lost_pages_were_there(responses: Seq<KittyResponse>, n: nat, uploaded: Seq<bool>)
    requires
        n <= responses.len(),
        uploaded.len() <= usize::MAX,
    ensures
        ({
            let (up, lost) = after_responses(responses, n, uploaded);
            &&& up.len() == uploaded.len()
            &&& forall|k: int|
                0 <= k < lost.len() ==> {
                    let p = #[trigger] lost[k];
                    p < uploaded.len() && uploaded[p as int] && !up[p as int]
                }
            &&& lost.no_duplicates()
            &&& forall|p: int|
                0 <= p < uploaded.len() && !lost.contains(p as usize) ==> #[trigger] up[p]
                    == uploaded[p]
        }),
    decreases n,
{
    if n > 0 {
        law_lost_pages_were_there(responses, (n - 1) as nat, uploaded);
        let (up0, lost0) = after_responses(responses, (n - 1) as nat, uploaded);
        let (up, lost) = after_responses(responses, n, uploaded);
        if let Some(page) = lost_page(responses[n - 1]@) {
            if page < up0.len() && up0[page] {
                assert forall|k: int| 0 <= k < lost0.len() implies lost0[k] != page by {
                    assert(!up0[lost0[k] as int]);
                }
                assert forall|k: int| 0 <= k < lost.len() implies {
                    let p = #[trigger] lost[k];
                    p < uploaded.len() && uploaded[p as int] && !up[p as int]
                } by {
                    if k < lost0.len() {
                        assert(lost[k] == lost0[k]);
                    } else {
                        if uploaded[page] != up0[page] {
                            assert(lost0.contains(page as usize));
                        }
                    }
                }
                assert forall|p: int|
                    0 <= p < uploaded.len() && !lost.contains(p as usize) implies #[trigger] up[p]
                    == uploaded[p] by {
                    if p == page {
                        assert(lost[lost.len() - 1] == page as usize);
                    } else {
                        if lost0.contains(p as usize) {
                            let k = choose|k: int| 0 <= k < lost0.len() && lost0[k] == p as usize;
                            assert(lost[k] == p as usize);
                        }
                    }
                }
            }
        }
    }
}

} // verus!
