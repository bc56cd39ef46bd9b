//! What the start shows, how books are opened and left, and where they are shown.
use vstd::prelude::*;
use vstd::string::*;

use crate::book_manager::BookFormat;
use crate::main_app::chapters::chapter_by_href;
use crate::main_app::opening::{
    after_responses, enqueued, epub_start, epub_steps, error_text, first_commands, first_epub_bookmark,
    first_page, first_pdf_bookmark, href_navigation, initial_app, lost_page, navigation,
    navigation_effects, opening, opens_recent, pdf_plan, pdf_steps, redraw_commands,
    relative_navigation, rgb_number, saving, ChapterCursor, CommentsOf, ConverterCommand, EpubBookmark,
    EpubStart, EpubStep, Loader, OpenError, OpenPlan, PdfBookmark, PdfFacts, PdfPlan, PdfStep,
    RedrawView, SavePlan, StartupFacts,
};
use crate::inputs::terminal_input::KittyResponse;
use crate::main_app::reading_laws::{asks, law_windows_are_kept_apart, leads};
use crate::main_app::state::{
    App, ChapterDirection, Effect, FocusedPanel, MainPanel, Notice, NotificationLevel, OpenPosition,
    PopupWindow, Rect, RunView, SettingsTab,
};
use crate::text;
use crate::text::{decimal, parsed_uint};

verus! {

// ---------------------------------------------------------------------------------------------
// The start
// ---------------------------------------------------------------------------------------------
/// At the start the navigation panel has the focus, no window but the statistics is there, nothing is awaited,
/// and a terminal of unknown size counts as eighty columns and twenty-four rows.
pub proof fn law_first_state(
    width: u16,
    height: u16,
    nav: Option<u16>,
    graphics: bool,
    scroll: bool,
    w: PopupWindow,
)
    ensures
        ({
            let app = initial_app(Some((width, height)), nav, graphics, scroll);
            &&& app.focused_panel == FocusedPanel::Main(MainPanel::NavigationList)
            &&& app.previous_main_panel == MainPanel::NavigationList
            &&& w != PopupWindow::BookStats ==> !app.windows.has(w)
            &&& !app.zen_mode && !app.test_mode && !app.resizing_nav_panel
            &&& !app.pending_force_redraw && !app.pending_suspend && !app.pdf_waiting_for_viewport
            &&& app.pending_mark_op is None && app.pdf_waiting_for_page is None
            &&& app.nav_panel_width_override == nav
            &&& app.help_bar_area == (Rect { x: 0, y: 0, width: 0, height: 0 })
            &&& !app.pending_visual_inner && !app.pending_highlight_palette
            &&& app.highlight_palette_target is None
            &&& app.pdf_supports_graphics == graphics && app.pdf_supports_scroll_mode == scroll
            &&& app.terminal_size == (Rect { x: 0, y: 0, width, height })
            &&& initial_app(None, nav, graphics, scroll).terminal_size == (Rect {
                x: 0,
                y: 0,
                width: 80,
                height: 24,
            })
        }),
{
}

/// The book read last is opened where that is asked for and it is in the library; that it failed is told.
pub proof fn law_last_book_is_opened(r: RunView, f: StartupFacts)
    requires
        f.has_recent,
        f.pdf_settings_configured,
    ensures
        opens_recent(f) <==> f.auto_load_recent && f.recent_in_library,
        r.started(f, false) == r,
        opens_recent(f) ==> asks(
            r,
            r.started(f, true),
            seq![Effect::Notify(NotificationLevel::Error, Notice::AutoLoadFailed)],
        ),
        !opens_recent(f) ==> r.started(f, true) == r,
{
    reveal(RunView::emit);
}

/// One who has read before and has not set up documents yet is shown the settings, where the terminal can
/// show documents.
pub proof fn law_settings_are_shown_at_first(r: RunView, f: StartupFacts)
    requires
        f.has_recent,
        !f.pdf_settings_configured,
    ensures
        !r.app.pdf_supports_graphics ==> r.started(f, false) == r,
        r.app.pdf_supports_graphics ==> r.started(f, false).app.focused_panel == FocusedPanel::Popup(
            PopupWindow::Settings,
        ) && r.started(f, false).out =~= r.out + seq![
            Effect::CreateSettings(SettingsTab::General),
            Effect::PdfSettingsConfigured,
        ],
{
    reveal(RunView::emit);
    reveal(RunView::to);
    reveal(RunView::return_to_navigation);
    let a = r.return_to_navigation();
    assert(a.out == r.out);
    let b = a.emit(Effect::CreateSettings(SettingsTab::General));
    let c = b.focus_window(PopupWindow::Settings);
    assert(c.out == b.out && c.app.focused_panel == FocusedPanel::Popup(PopupWindow::Settings)) by {
        reveal(RunView::focus_window);
    }
}

// ---------------------------------------------------------------------------------------------
// Opening
// ---------------------------------------------------------------------------------------------
/// Books and pages of the web are read as text, documents page by page; the place read last is left aside
/// where a place is asked for, and in tests.
pub proof fn law_how_books_are_opened(n: usize, position: Option<OpenPosition>, test: bool)
    ensures
        ({
            let text = Ok::<OpenPlan, OpenError>(
                OpenPlan { loader: Loader::Epub, skip_bookmarks: test },
            );
            let pages = Ok::<OpenPlan, OpenError>(
                OpenPlan { loader: Loader::Pdf, skip_bookmarks: test },
            );
            let chapter = Some(OpenPosition::Chapter(n));
            let page = Some(OpenPosition::Page(n));
            let there = Ok::<OpenPlan, OpenError>(
                OpenPlan { loader: Loader::Epub, skip_bookmarks: true },
            );
            let there_paged = Ok::<OpenPlan, OpenError>(
                OpenPlan { loader: Loader::Pdf, skip_bookmarks: true },
            );
            &&& opening(Some(BookFormat::Epub), None, test) == text
            &&& opening(Some(BookFormat::Html), None, test) == text
            &&& opening(Some(BookFormat::Pdf), None, test) == pages
            &&& opening(Some(BookFormat::Djvu), None, test) == pages
            &&& opening(Some(BookFormat::Epub), chapter, test) == there
            &&& opening(Some(BookFormat::Pdf), page, test) == there_paged
            &&& opening(Some(BookFormat::Epub), page, test) == Err::<OpenPlan, OpenError>(
                OpenError::PageOfEpub,
            )
            &&& opening(Some(BookFormat::Djvu), chapter, test) == Err::<OpenPlan, OpenError>(
                OpenError::ChapterOfPdf,
            )
            &&& opening(None, position, test) == Err::<OpenPlan, OpenError>(
                OpenError::UnsupportedFormat,
            )
        }),
{
}

/// What each error says.
pub proof fn law_errors_are_worded(i: usize, detail: Seq<char>)
    ensures
        error_text(OpenError::InvalidIndex(i), detail) == "Invalid book index: "@ + decimal(i as nat),
        error_text(OpenError::UnsupportedFormat, detail) == "Unsupported file format: "@ + detail,
        error_text(OpenError::PageOfEpub, detail)
            == "--page is not supported for EPUB files, use --chapter"@,
        error_text(OpenError::ChapterOfPdf, detail)
            == "--chapter is not yet supported for PDF files, use --page"@,
        error_text(OpenError::ChapterOutOfRange(i), detail) == "Failed to navigate to chapter "@
            + decimal(i as nat) + ". Chapter is out of the range"@,
        error_text(OpenError::NoEpub, detail) == "No EPUB document loaded"@,
        error_text(OpenError::NoDocument, detail) == "No document loaded"@,
        error_text(OpenError::AtEdge, detail) == "Already at the end/beginning of the book"@,
        error_text(OpenError::NoSuchHref, detail) == "Failed to find chapter with href: "@ + detail,
{
}

/// A document that is left for a book is closed, and its pictures are cleared where it was shown; a book
/// that was read can be searched, and one that was not is told.
pub proof fn law_books_take_turns(r: RunView, graphics: bool, scroll: bool)
    ensures
        asks(r, r.leave_pdf(true), seq![Effect::PdfClearGraphics, Effect::PdfClose]),
        asks(r, r.leave_pdf(false), seq![Effect::PdfClose]),
        r.epub_loaded(true).app.windows.has(PopupWindow::BookSearch),
        asks(
            r,
            r.epub_loaded(false),
            seq![Effect::Notify(NotificationLevel::Error, Notice::LoadEpubFailed)],
        ),
        !r.begin_pdf(graphics, scroll, false).app.windows.has(PopupWindow::BookSearch),
{
    reveal(RunView::emit);
    reveal(RunView::to);
    reveal(RunView::with_search);
    reveal(RunView::with_pdf_support);
    law_windows_are_kept_apart(r.app.windows, PopupWindow::BookSearch, PopupWindow::BookSearch, true);
    law_windows_are_kept_apart(r.app.windows, PopupWindow::BookSearch, PopupWindow::BookSearch, false);
}

/// An opened book is noted, named in the title, and shown where it was asked for.
pub proof fn law_opened_book_goes_to_its_place(r: RunView, n: usize)
    ensures
        ({
            let app = App { focused_panel: FocusedPanel::Main(MainPanel::Content), ..r.app };
            let opened = seq![Effect::SetBookPath, Effect::SyncTitle];
            &&& leads(r, r.book_opened(None, true), app, opened)
            &&& leads(
                r,
                r.book_opened(Some(OpenPosition::Chapter(n)), false),
                app,
                opened.push(Effect::NavigateTo { chapter: n }),
            )
            &&& leads(
                r,
                r.book_opened(Some(OpenPosition::Page(n)), true),
                app,
                opened.push(Effect::PdfSetPage(n)),
            )
            &&& leads(r, r.book_opened(Some(OpenPosition::Page(n)), false), app, opened)
        }),
{
    reveal(RunView::emit);
    reveal(RunView::to);
    reveal(RunView::show_panel);
}

// ---------------------------------------------------------------------------------------------
// Chapters
// ---------------------------------------------------------------------------------------------
/// A move to a chapter leads to that chapter exactly where the book has it, and the place before is
/// remembered where it was another chapter and the jump list is not to stay.
pub proof fn law_moves_lead_to_their_chapter(book: ChapterCursor, chapter: usize, skip: bool)
    ensures
        ({
            let n = navigation(Some(book), chapter, skip);
            &&& chapter < book.total ==> n.result == Ok::<usize, OpenError>(chapter)
            &&& chapter >= book.total ==> n.result == Err::<usize, OpenError>(
                OpenError::ChapterOutOfRange(chapter),
            )
            &&& n.remember <==> !skip && book.current != chapter
            &&& !n.keep_anchor
            &&& navigation(None, chapter, skip).result == Err::<usize, OpenError>(OpenError::NoEpub)
            &&& !navigation(None, chapter, skip).remember
            &&& href_navigation(Some(book), Some(chapter)) == navigation(Some(book), chapter, false)
            &&& href_navigation(Some(book), None).result == Err::<usize, OpenError>(
                OpenError::NoSuchHref,
            )
            &&& href_navigation(None, Some(chapter)).result == Err::<usize, OpenError>(
                OpenError::NoEpub,
            )
        }),
{
}

/// The next chapter is one further and the previous one one back; at the last and at the first chapter
/// there is none.
pub proof fn law_next_and_previous_chapters(book: ChapterCursor)
    requires
        book.current < book.total,
    ensures
        ({
            let next = relative_navigation(Some(book), ChapterDirection::Next);
            let previous = relative_navigation(Some(book), ChapterDirection::Previous);
            let edge = Err::<usize, OpenError>(OpenError::AtEdge);
            &&& book.current + 1 < book.total ==> next.result == Ok::<usize, OpenError>(
                (book.current + 1) as usize,
            )
            &&& book.current + 1 == book.total ==> next.result == edge
            &&& book.current > 0 ==> previous.result == Ok::<usize, OpenError>(
                (book.current - 1) as usize,
            )
            &&& book.current == 0 ==> previous.result == edge
            &&& next.remember && previous.remember && next.keep_anchor && previous.keep_anchor
            &&& relative_navigation(None, ChapterDirection::Next).result == Err::<usize, OpenError>(
                OpenError::NoDocument,
            )
            &&& !relative_navigation(None, ChapterDirection::Next).remember
        }),
{
}

/// A chapter that was gone to is shown, then looked up in the table of contents, then saved.
pub proof fn law_moves_show_the_chapter(book: ChapterCursor, chapter: usize)
    requires
        chapter < book.total,
        book.current + 1 < book.total,
    ensures
        navigation_effects(navigation(Some(book), chapter, false)) =~= seq![
            Effect::ClearActiveAnchor,
            Effect::RefreshContent,
            Effect::UpdateTocState,
            Effect::SaveBookmark { force: true },
        ],
        navigation_effects(relative_navigation(Some(book), ChapterDirection::Next)) =~= seq![
            Effect::RefreshContent,
            Effect::UpdateTocState,
            Effect::SaveBookmark { force: true },
        ],
{
}

// ---------------------------------------------------------------------------------------------
// Where books are shown
// ---------------------------------------------------------------------------------------------
/// A book is shown at the chapter and node of its bookmark; where that chapter is gone, where it stands; and
/// a book that was never read, behind its cover.
pub proof fn law_where_a_book_is_shown(
    spine: Seq<Option<String>>,
    current: usize,
    b: EpubBookmark,
    chapter: usize,
)
    requires
        spine.len() <= usize::MAX,
    ensures
        ({
            let at = chapter_by_href(spine, b.chapter_href@, 0);
            let place = epub_start(spine, current, Some(b));
            let fresh = epub_start(spine, current, None);
            &&& at == Some(chapter as int) ==> place == (EpubStart { chapter, node: b.node_index })
            &&& at is None ==> place == (EpubStart { chapter: current, node: None })
            &&& fresh.node is None
            &&& spine.len() <= 1 ==> fresh.chapter == current
            &&& spine.len() > 1 && current == 0 ==> fresh.chapter == 1
            &&& spine.len() > 1 && current + 1 < spine.len() ==> fresh.chapter == current + 1
            &&& spine.len() > 1 && current + 1 >= spine.len() ==> fresh.chapter == 1
        }),
{
}

/// What is done to show a book, in order.
pub proof fn law_steps_of_showing_a_book(
    chapter: usize,
    node: usize,
    comments: CommentsOf,
    nodes: Option<usize>,
)
    ensures
        ({
            let shown = seq![
                EpubStep::UseComments(comments),
                EpubStep::GoToChapter(chapter),
                EpubStep::CountNodes { known: nodes },
                EpubStep::ShowContents,
                EpubStep::RefreshContent,
            ];
            let at = EpubStart { chapter, node: Some(node) };
            let top = EpubStart { chapter, node: None };
            &&& epub_steps(at, comments, nodes, true) =~= shown + seq![
                EpubStep::RestoreNode(node),
                EpubStep::Remember,
            ]
            &&& epub_steps(at, comments, nodes, false) =~= shown + seq![EpubStep::RestoreNode(node)]
            &&& epub_steps(top, comments, nodes, true) =~= shown + seq![EpubStep::Remember]
            &&& epub_steps(top, comments, nodes, false) =~= shown
        }),
{
}

/// A book is first remembered by its chapter and by how many it has, a document by its page.
pub proof fn law_first_bookmarks(
    spine: Seq<Option<String>>,
    chapter: usize,
    f: PdfFacts,
    b: PdfBookmark,
    page: usize,
)
    requires
        b.pdf_page == Some(page),
        spine.len() <= usize::MAX,
    ensures
        ({
            let first = first_epub_bookmark(spine, chapter);
            &&& first.chapter_index == Some(chapter)
            &&& first.total_chapters == Some(spine.len() as usize)
            &&& first.pdf_page is None
        }),
        ({
            let known = PdfFacts { ignore_bookmarks: false, ..f };
            let first = first_pdf_bookmark(known, Some(b));
            let fresh = first_pdf_bookmark(known, None);
            &&& first.pdf_page == Some(page)
            &&& first.chapter_href == decimal(page as nat)
            &&& first.total_chapters == Some(f.page_count)
            &&& first.chapter_index is None
            &&& fresh.pdf_page == Some(0usize)
            &&& fresh.chapter_href == "0"@
            &&& fresh.total_chapters == Some(f.page_count)
        }),
{
}

/// A document is opened at the page of its bookmark: the page that was noted, else the chapter, else the
/// number that was noted as text; and never behind its end.
pub proof fn law_where_a_document_is_shown(b: PdfBookmark, page: usize, chapter: usize, count: usize)
    requires
        count > 0,
    ensures
        ({
            let cut = |n: nat|
                if n < count {
                    n as usize
                } else {
                    (count - 1) as usize
                };
            &&& first_page(None, count) == 0
            &&& first_page(Some(PdfBookmark { pdf_page: Some(page), ..b }), count) == cut(page as nat)
            &&& first_page(
                Some(PdfBookmark { pdf_page: None, chapter_index: Some(chapter), ..b }),
                count,
            ) == cut(chapter as nat)
            &&& b.chapter_href@ == decimal(page as nat) ==> first_page(
                Some(PdfBookmark { pdf_page: None, chapter_index: None, ..b }),
                count,
            ) == cut(page as nat)
            &&& parsed_uint(b.chapter_href@, usize::MAX as nat) is None ==> first_page(
                Some(PdfBookmark { pdf_page: None, chapter_index: None, ..b }),
                count,
            ) == 0
        }),
{
    text::lemma_decimal_reads_back(page as nat, usize::MAX as nat);
}

/// How a document is shown: what its bookmark says of its pictures and colours is kept, and told to the
/// renderer where it differs from what it does by itself.
pub proof fn law_documents_keep_their_looks(f: PdfFacts, b: PdfBookmark)
    requires
        !f.ignore_bookmarks,
    ensures
        ({
            let p = pdf_plan(f, Some(b));
            let fresh = pdf_plan(f, None);
            &&& p.invert_images == b.invert_images && p.themed_rendering == b.themed_rendering
            &&& p.toggle_invert <==> b.invert_images == Some(false)
            &&& p.plain_colors <==> b.themed_rendering == Some(false)
            &&& p.initial_page == first_page(Some(b), f.page_count)
            &&& fresh.invert_images is None && fresh.themed_rendering is None
            &&& !fresh.toggle_invert && !fresh.plain_colors && fresh.initial_page == 0
            &&& p.delete_range == f.delete_range
        }),
{
}

/// What a terminal that keeps the pictures of pages changes: a smaller cache, zooming by itself, a page that
/// is scrolled to later, and pictures in shared memory unless that does not work or is not wanted.
pub proof fn law_documents_fit_the_terminal(f: PdfFacts, stored: Option<PdfBookmark>)
    ensures
        ({
            let p = pdf_plan(f, stored);
            &&& p.small_cache <==> f.kitty
            &&& p.renderer_zooms <==> f.zoomed && !f.kitty
            &&& p.pending_scroll is Some <==> f.kitty && f.scroll_mode && p.initial_page > 0
            &&& p.pending_scroll is Some ==> p.pending_scroll == Some(p.initial_page)
            &&& p.converter is Some <==> f.has_picker
            &&& f.has_picker && f.kitty && f.shm_known is Some ==> p.converter == f.shm_known
            &&& f.has_picker && f.kitty && f.shm_known is None ==> p.converter == Some(!f.shm_disabled)
            &&& f.has_picker && !f.kitty ==> p.converter == Some(false)
            &&& f.has_picker && f.kitty ==> p.remember_shm == p.converter
            &&& !f.has_picker || !f.kitty ==> p.remember_shm == f.shm_known
            &&& !f.supports_comments ==> p.comments == CommentsOf::Unsupported
            &&& f.supports_comments && f.ignore_bookmarks ==> p.comments == CommentsOf::Empty
            &&& f.supports_comments && !f.ignore_bookmarks ==> p.comments == CommentsOf::Stored
        }),
{
}

/// What is done to show a document, in order.
pub proof fn law_steps_of_showing_a_document(p: PdfPlan, shm: bool)
    ensures
        ({
            let page = p.initial_page;
            let all = PdfPlan {
                toggle_invert: true,
                plain_colors: true,
                converter: Some(shm),
                renderer_zooms: true,
                ..p
            };
            let least = PdfPlan {
                toggle_invert: false,
                plain_colors: false,
                converter: None,
                renderer_zooms: false,
                ..p
            };
            &&& pdf_steps(all) =~= seq![
                PdfStep::Remember,
                PdfStep::ToggleInvert,
                PdfStep::UsePlainColors,
                PdfStep::StartConverter { shm },
                PdfStep::RefreshSource { announce: true },
                PdfStep::SetPageUnrendered(page),
                PdfStep::SetZoom,
                PdfStep::TellConverter,
                PdfStep::ShowContents,
                PdfStep::SavePlace { force: true },
            ]
            &&& pdf_steps(least) =~= seq![
                PdfStep::Remember,
                PdfStep::RefreshSource { announce: true },
                PdfStep::SetPageUnrendered(page),
                PdfStep::ShowContents,
                PdfStep::SavePlace { force: true },
            ]
            &&& pdf_steps(PdfPlan { toggle_invert: true, ..least }) =~= seq![
                PdfStep::Remember,
                PdfStep::ToggleInvert,
            ] + pdf_steps(least).skip(1)
            &&& pdf_steps(PdfPlan { plain_colors: true, ..least }) =~= seq![
                PdfStep::Remember,
                PdfStep::UsePlainColors,
            ] + pdf_steps(least).skip(1)
        }),
{
}

/// The converter is told the number of pages, where to start, and what is marked on them.
pub proof fn law_converter_is_told(count: usize, page: usize)
    ensures
        ({
            let first = seq![ConverterCommand::SetPageCount(count), ConverterCommand::NavigateTo(page)];
            let comments = ConverterCommand::UpdateComments;
            let highlights = ConverterCommand::UpdateHighlights;
            &&& first_commands(count, page, false, false) =~= first
            &&& first_commands(count, page, true, false) =~= first + seq![comments]
            &&& first_commands(count, page, false, true) =~= first + seq![highlights]
            &&& first_commands(count, page, true, true) =~= first + seq![comments, highlights]
        }),
{
}

/// A place is written out at once where that is asked for, and else at most every half second; the reader of
/// documents keeps its own.
pub proof fn law_places_are_saved(since: u128, book: bool, force: bool)
    ensures
        saving(true, book, force, since) == SavePlan::PdfReader,
        saving(false, true, true, since) == (SavePlan::Update { write: true }),
        saving(false, true, false, since) == (SavePlan::Update { write: since > 500_000_000 }),
        saving(false, false, force, since) == SavePlan::Nothing,
{
}

/// The three bytes of a colour are red, green and blue.
pub proof fn law_bytes_of_a_colour(r: u8, g: u8, b: u8)
    ensures
        ({
            let n = rgb_number(Some((r, g, b)));
            &&& 0 <= n < 0x1000000
            &&& n / 0x10000 == r
            &&& (n / 0x100) % 0x100 == g
            &&& n % 0x100 == b
        }),
        rgb_number(None) == 0,
{
}

// ---------------------------------------------------------------------------------------------
// Lost pictures
// ---------------------------------------------------------------------------------------------
/// An answer about the picture of a page says that it is lost unless it is a plain OK; the picture of a page
/// has the number behind it.
pub proof fn law_answers_about_pages(page: int, message: Seq<char>)
    requires
        0 <= page < u32::MAX,
        message != "OK"@,
    ensures
        lost_page((Some((page + 1) as u32), message)) == Some(page),
        lost_page((None, message)) is None,
{
}

/// Every page whose picture was there and is lost is drawn again.
pub proof fn law_lost_pages_are_drawn_again(
    responses: Seq<KittyResponse>,
    n: nat,
    uploaded: Seq<bool>,
    k: int,
    page: int,
)
    requires
        0 <= k < n <= responses.len(),
        lost_page(responses[k]@) == Some(page),
        0 <= page < uploaded.len() <= usize::MAX,
        uploaded[page],
    ensures
        after_responses(responses, n, uploaded).1.contains(page as usize),
        !after_responses(responses, n, uploaded).0[page],
    decreases n,
{
    crate::main_app::opening::law_lost_pages_were_there(responses, n, uploaded);
    let before = after_responses(responses, (n - 1) as nat, uploaded);
    let after = after_responses(responses, n, uploaded);
    crate::main_app::opening::law_lost_pages_were_there(responses, (n - 1) as nat, uploaded);
    if k < n - 1 {
        law_lost_pages_are_drawn_again(responses, (n - 1) as nat, uploaded, k, page);
        let j = choose|j: int| 0 <= j < before.1.len() && before.1[j] == page as usize;
        assert(after.1[j] == page as usize);
    } else if before.0[page] {
        assert(after.1.last() == page as usize);
    } else {
        assert(before.0[page] != uploaded[page]);
        assert(before.1.contains(page as usize));
        let j = choose|j: int| 0 <= j < before.1.len() && before.1[j] == page as usize;
        assert(after.1[j] == page as usize);
    }
}

/// Of pages to be drawn again the converter is told which failed, and those that were rendered before are
/// put into its queue, in order; where there are none it is told nothing.
pub proof fn law_pages_are_queued(pages: Seq<usize>, page: usize, cached: Seq<bool>)
    ensures
        redraw_commands(Seq::empty(), cached) =~= Seq::empty(),
        redraw_commands(pages.push(page), cached)[0] == RedrawView::DisplayFailed(pages.push(page)),
        ({
            let rest = redraw_commands(pages.push(page), cached).skip(1);
            let before = enqueued(pages, cached, pages.len());
            &&& page < cached.len() && cached[page as int] ==> rest =~= before.push(
                RedrawView::EnqueuePage(page),
            )
            &&& page >= cached.len() || !cached[page as int] ==> rest =~= before
        }),
{
    let all = pages.push(page);
    lemma_enqueued_before(pages, page, cached, pages.len());
    assert(redraw_commands(all, cached).skip(1) =~= enqueued(all, cached, all.len()));
}

proof fn lemma_enqueued_before(pages: Seq<usize>, page: usize, cached: Seq<bool>, n: nat)
    requires
        n <= pages.len(),
    ensures
        enqueued(pages.push(page), cached, n) == enqueued(pages, cached, n),
    decreases n,
{
    if n > 0 {
        lemma_enqueued_before(pages, page, cached, (n - 1) as nat);
        assert(pages.push(page)[n - 1] == pages[n - 1]);
    }
}

} // verus!
