//! What the actions of the whole application do, what its windows ask for, and what follows a finished work.
use vstd::prelude::*;

use crate::inputs::event::KeyEvent;
use crate::main_app::reading_laws::{asks, law_windows_are_kept_apart, leads};
use crate::main_app::state::{
    Action, App, Effect, Facts, FocusedPanel, Lookup, MainPanel, NavigationPanelAction,
    NotificationLevel, Notice, Outcome, PopupWindow, RunView, SettingsAction, SettingsTab, Task,
    TocDestination, WindowReply,
};

verus! {

/// Whether an action of the whole application is done, and asks for the given effects.
pub open spec fn does(r: RunView, action: Action, f: Facts, effects: Seq<Effect>) -> bool {
    r.global_action(action, f).1 && asks(r, r.global_action(action, f).0, effects)
}

/// Whether an action of the whole application is not done, and nothing changes.
pub open spec fn refuses(r: RunView, action: Action, f: Facts) -> bool {
    r.global_action(action, f) == (r, false)
}

/// Whether a step opens a window: it is there and has the focus, and the panel that had it is the one to
/// come back to.
pub open spec fn opens(r: RunView, after: RunView, w: PopupWindow, effects: Seq<Effect>) -> bool {
    &&& after.app.focused_panel == FocusedPanel::Popup(w)
    &&& after.app.windows.has(w)
    &&& after.app.previous_main_panel == (match r.app.focused_panel {
        FocusedPanel::Main(panel) => panel,
        FocusedPanel::Popup(_) => r.app.previous_main_panel,
    })
    &&& after.app.zen_mode == r.app.zen_mode
    &&& after.out =~= r.out + effects
}

/// Whether a step leaves a window: it is gone, and the panel from which it was opened has the focus.
pub open spec fn leaves(r: RunView, after: RunView, w: PopupWindow, effects: Seq<Effect>) -> bool {
    &&& after.app.focused_panel == FocusedPanel::Main(
        if r.app.zen_mode {
            MainPanel::Content
        } else {
            r.app.previous_main_panel
        },
    )
    &&& !after.app.windows.has(w)
    &&& after.app.zen_mode == r.app.zen_mode
    &&& after.out =~= r.out + effects
}

proof fn lemma_opens(r: RunView, w: PopupWindow)
    ensures
        opens(r, r.remember_panel().open_window(w), w, seq![Effect::CreateWindow(w)]),
{
    law_windows_are_kept_apart(r.app.windows, w, w, true);
    reveal(RunView::emit);
    reveal(RunView::to);
    reveal(RunView::focus_window);
    reveal(RunView::remember_panel);
}

proof fn lemma_leaves(r: RunView, w: PopupWindow)
    requires
        w != PopupWindow::BookStats,
        w != PopupWindow::ImagePopup,
        r.app.focused_panel == FocusedPanel::Popup(w),
    ensures
        leaves(r, r.leave_window(w), w, seq![Effect::DropWindow(w)]),
{
    law_windows_are_kept_apart(r.app.windows, w, w, false);
    reveal(RunView::emit);
    reveal(RunView::to);
    reveal(RunView::drop_window);
    reveal(RunView::close_popup);
}

/// The windows that an action opens, and closes again where they are in focus.
pub proof fn law_actions_on_windows(r: RunView, f: Facts)
    ensures
        ({
            let help = r.global_action(Action::ToggleHelp, f);
            let marks = r.global_action(Action::ToggleMarksList, f);
            let history = r.global_action(Action::ToggleReadingHistory, f);
            let focus = r.app.focused_panel;
            &&& help.1 && marks.1 && history.1
            &&& opens(r, help.0, PopupWindow::Help, seq![Effect::CreateWindow(PopupWindow::Help)])
            &&& focus != FocusedPanel::Popup(PopupWindow::MarksList) ==> opens(
                r,
                marks.0,
                PopupWindow::MarksList,
                seq![Effect::CreateWindow(PopupWindow::MarksList)],
            )
            &&& focus == FocusedPanel::Popup(PopupWindow::MarksList) ==> leaves(
                r,
                marks.0,
                PopupWindow::MarksList,
                seq![Effect::DropWindow(PopupWindow::MarksList)],
            )
            &&& focus != FocusedPanel::Popup(PopupWindow::ReadingHistory) ==> opens(
                r,
                history.0,
                PopupWindow::ReadingHistory,
                seq![Effect::CreateWindow(PopupWindow::ReadingHistory)],
            )
            &&& focus == FocusedPanel::Popup(PopupWindow::ReadingHistory) ==> leaves(
                r,
                history.0,
                PopupWindow::ReadingHistory,
                seq![Effect::DropWindow(PopupWindow::ReadingHistory)],
            )
        }),
{
    lemma_opens(r, PopupWindow::Help);
    lemma_opens(r, PopupWindow::MarksList);
    lemma_opens(r, PopupWindow::ReadingHistory);
    if r.app.focused_panel == FocusedPanel::Popup(PopupWindow::MarksList) {
        lemma_leaves(r, PopupWindow::MarksList);
    }
    if r.app.focused_panel == FocusedPanel::Popup(PopupWindow::ReadingHistory) {
        lemma_leaves(r, PopupWindow::ReadingHistory);
    }
}

/// The settings open at their first page or at the themes.
pub proof fn law_settings_open(r: RunView, f: Facts)
    ensures
        opens(
            r,
            r.global_action(Action::OpenSettings, f).0,
            PopupWindow::Settings,
            seq![Effect::CreateSettings(SettingsTab::General)],
        ),
        r.app.focused_panel != FocusedPanel::Popup(PopupWindow::Settings) ==> opens(
            r,
            r.global_action(Action::OpenThemeSelector, f).0,
            PopupWindow::Settings,
            seq![Effect::CreateSettings(SettingsTab::Themes)],
        ),
        r.app.focused_panel == FocusedPanel::Popup(PopupWindow::Settings) ==> leaves(
            r,
            r.global_action(Action::OpenThemeSelector, f).0,
            PopupWindow::Settings,
            seq![Effect::DropWindow(PopupWindow::Settings)],
        ),
        does(r, Action::ReloadKeybindings, f, seq![Effect::Perform(Task::ReloadKeybindings)]),
        f.book_open || f.pdf_open ==> does(
            r,
            Action::ToggleBookStats,
            f,
            seq![Effect::Perform(Task::CalculateStats)],
        ),
        !f.book_open && !f.pdf_open ==> refuses(r, Action::ToggleBookStats, f),
{
    if r.app.focused_panel == FocusedPanel::Popup(PopupWindow::Settings) {
        lemma_leaves(r, PopupWindow::Settings);
    }
    reveal(RunView::emit);
    reveal(RunView::to);
    reveal(RunView::focus_window);
    reveal(RunView::remember_panel);
}

/// The search of a book opens where there is something to search, with its words kept or without them; a
/// PDF is indexed first.
pub proof fn law_book_search_opens(r: RunView, f: Facts, fresh: bool)
    ensures
        ({
            let action = if fresh {
                Action::OpenBookSearchFresh
            } else {
                Action::OpenBookSearch
            };
            let there = r.app.windows.book_search;
            let after = r.global_action(action, f);
            &&& there && (f.book_open || f.pdf_open) ==> after.1 && opens(
                r,
                after.0,
                PopupWindow::BookSearch,
                seq![Effect::OpenSearch { clear_input: fresh }],
            )
            &&& !there && f.pdf_open ==> after.1 && after.0.out =~= r.out.push(
                Effect::Perform(Task::IndexPdf { clear_input: fresh }),
            ) && after.0.app.focused_panel == r.app.focused_panel
            &&& !f.pdf_open && !(f.book_open && there) ==> after == (r, false)
        }),
{
    reveal(RunView::emit);
    reveal(RunView::to);
    reveal(RunView::focus_window);
    reveal(RunView::remember_panel);
}

/// The comments open where a document has any place for them, and keep their place when they close.
pub proof fn law_comments_open(r: RunView, f: Facts)
    ensures
        ({
            let w = PopupWindow::CommentsViewer;
            let after = r.global_action(Action::ToggleCommentsViewer, f);
            let shut = r.app.focused_panel != FocusedPanel::Popup(w);
            &&& shut && f.pdf_open && f.pdf_has_comments ==> after.1 && opens(
                r,
                after.0,
                w,
                seq![Effect::CreatePdfComments],
            )
            &&& shut && f.pdf_open && !f.pdf_has_comments ==> after == (r, false)
            &&& shut && !f.pdf_open && f.book_open ==> after.1 && opens(
                r,
                after.0,
                w,
                seq![Effect::CreateWindow(w)],
            )
            &&& shut && !f.pdf_open && !f.book_open ==> after == (r, false)
            &&& !shut && r.app.windows.comments_viewer ==> after.1 && leaves(
                r,
                after.0,
                w,
                seq![Effect::SaveCommentsPosition, Effect::DropWindow(w)],
            )
        }),
{
    lemma_opens(r, PopupWindow::CommentsViewer);
    reveal(RunView::emit);
    if r.app.focused_panel == FocusedPanel::Popup(PopupWindow::CommentsViewer) {
        lemma_leaves(r.emit(Effect::SaveCommentsPosition), PopupWindow::CommentsViewer);
    }
    reveal(RunView::to);
    reveal(RunView::focus_window);
    reveal(RunView::remember_panel);
}

/// The width of the navigation panel: three tenths of the terminal, else what was chosen, and nothing in
/// zen mode; three cells more or less stay between five cells and half the terminal.
pub proof fn law_width_of_the_panel(r: RunView, f: Facts, width: u16)
    requires
        r.app.terminal_size.width >= 10,
        !r.app.zen_mode,
        r.app.focused_panel is Main,
    ensures
        ({
            let most = r.app.terminal_size.width as int / 2;
            let now = match r.app.nav_panel_width_override {
                Some(w) => w as int,
                None => r.app.terminal_size.width as int * 3 / 10,
            };
            let wider = r.global_action(Action::ExpandNavPanel, f).0.app;
            let narrower = r.global_action(Action::ShrinkNavPanel, f).0.app;
            let reset = r.global_action(Action::ResetNavPanelWidth, f).0.app;
            &&& r.app.nav_width() == now
            &&& 5 <= now + 3 <= most ==> wider.nav_width() == now + 3
            &&& now + 3 > most ==> wider.nav_width() == most
            &&& 5 <= now - 3 <= most ==> narrower.nav_width() == now - 3
            &&& now - 3 < 5 ==> narrower.nav_width() == 5
            &&& reset.nav_width() == r.app.terminal_size.width as int * 3 / 10
            &&& wider == (App { nav_panel_width_override: wider.nav_panel_width_override, ..r.app })
        }),
{
    reveal(RunView::emit);
    reveal(RunView::to);
    reveal(RunView::resize_nav);
    reveal(RunView::reset_nav);
}

/// What changes with the width: the place in the text is kept, the width is kept, and a PDF learns of it.
pub proof fn law_effects_of_the_view(r: RunView, f: Facts)
    ensures
        ({
            let free = !r.app.zen_mode && r.app.focused_panel is Main;
            let kept = if f.pdf_open {
                seq![
                    Effect::RememberPosition,
                    Effect::PdfViewportWidthChanged,
                    Effect::RestorePosition,
                    Effect::PersistNavWidth,
                ]
            } else {
                seq![Effect::RememberPosition, Effect::RestorePosition, Effect::PersistNavWidth]
            };
            &&& free ==> r.global_action(Action::ExpandNavPanel, f).0.out =~= r.out + kept
            &&& free ==> r.global_action(Action::ShrinkNavPanel, f).0.out =~= r.out + kept
            &&& !free ==> refuses(r, Action::ExpandNavPanel, f) && refuses(
                r,
                Action::ShrinkNavPanel,
                f,
            )
            &&& leads(
                r,
                r.global_action(Action::ForceRedraw, f).0,
                App { pending_force_redraw: true, ..r.app },
                Seq::empty(),
            )
            &&& leads(
                r,
                r.global_action(Action::Suspend, f).0,
                App { pending_suspend: true, ..r.app },
                Seq::empty(),
            )
            &&& leads(
                r,
                r.global_action(Action::ResetNavPanelWidth, f).0,
                App { nav_panel_width_override: None, ..r.app },
                if f.pdf_open {
                    seq![Effect::PersistNavWidth, Effect::PdfViewportWidthChanged]
                } else {
                    seq![Effect::PersistNavWidth]
                },
            )
            &&& f.book_open ==> does(
                r,
                Action::ToggleJustifyText,
                f,
                seq![
                    Effect::RememberPosition,
                    Effect::ToggleJustify,
                    Effect::RestorePosition,
                    Effect::Notify(
                        NotificationLevel::Info,
                        if f.justify_text {
                            Notice::JustifyOff
                        } else {
                            Notice::JustifyOn
                        },
                    ),
                ],
            )
            &&& !f.book_open ==> refuses(r, Action::ToggleJustifyText, f)
        }),
{
    reveal(RunView::emit);
    reveal(RunView::to);
    reveal(RunView::resize_nav);
    reveal(RunView::reset_nav);
    reveal(RunView::request_redraw);
    reveal(RunView::request_suspend);
}

/// Zen mode is turned over, and the place in the text is kept; the text gets the focus where the panel
/// that is hidden had it.
pub proof fn law_zen_mode_is_turned_over(r: RunView, f: Facts)
    ensures
        ({
            let after = r.global_action(Action::ToggleZenMode, f).0;
            let moved = !r.app.zen_mode && f.book_open && r.app.focused_panel == FocusedPanel::Main(
                MainPanel::NavigationList,
            );
            &&& after.app.zen_mode == !r.app.zen_mode
            &&& moved ==> after.app.focused_panel == FocusedPanel::Main(MainPanel::Content)
            &&& !moved ==> after.app == (App { zen_mode: !r.app.zen_mode, ..r.app })
            &&& !f.pdf_open ==> after.out =~= r.out + seq![
                Effect::RememberPosition,
                Effect::RestorePosition,
            ]
            &&& f.pdf_open ==> after.out =~= r.out + seq![
                Effect::RememberPosition,
                Effect::RestorePosition,
                Effect::PdfZenToggled,
            ]
        }),
{
    reveal(RunView::emit);
    reveal(RunView::to);
    reveal(RunView::toggle_zen);
}

/// The actions on the open document: they go to the PDF where one is open, else to the book, and are not
/// done where neither is.
pub proof fn law_actions_on_the_document(r: RunView, f: Facts)
    ensures
        ({
            let text = r.app.focused_panel == FocusedPanel::Main(MainPanel::Content);
            let panel = r.app.focused_panel == FocusedPanel::Main(MainPanel::NavigationList);
            let info = NotificationLevel::Info;
            let warning = NotificationLevel::Warning;
            &&& does(r, Action::OpenExternalViewer, f, seq![Effect::Perform(Task::OpenExternalViewer)])
            &&& f.pdf_open ==> does(
                r,
                Action::CopyChapterText,
                f,
                seq![Effect::PdfExtractPage, Effect::Notify(info, Notice::ExtractingPage)],
            )
            &&& !f.pdf_open && text ==> does(r, Action::CopyChapterText, f, seq![Effect::CopyChapter])
            &&& !f.pdf_open && !text ==> refuses(r, Action::CopyChapterText, f)
            &&& f.pdf_open && panel && f.shows_toc ==> does(
                r,
                Action::CopyTocItem,
                f,
                seq![Effect::PdfCopyTocSelection],
            )
            &&& f.pdf_open && !(panel && f.shows_toc) ==> does(
                r,
                Action::CopyTocItem,
                f,
                seq![Effect::Notify(warning, Notice::TocFirst)],
            )
            &&& f.book_open ==> does(
                r,
                Action::TogglePdfWatching,
                f,
                seq![Effect::Notify(warning, Notice::WatchingPdfOnly)],
            )
            &&& !f.book_open && f.pdf_open ==> does(
                r,
                Action::TogglePdfWatching,
                f,
                seq![Effect::PdfToggleWatching],
            )
            &&& f.pdf_open ==> does(r, Action::GoToPage, f, seq![Effect::PdfStartGoToPage])
            &&& !f.pdf_open ==> refuses(r, Action::GoToPage, f)
            &&& f.selection_has_text ==> does(r, Action::LookupSelection, f, seq![Effect::LookUpSelection])
            &&& !f.selection_has_text ==> does(
                r,
                Action::LookupSelection,
                f,
                seq![Effect::Notify(info, Notice::NoTextSelected)],
            )
        }),
{
    reveal(RunView::emit);
}

/// The layouts of pages and columns, and the ways to render a PDF.
pub proof fn law_layouts_of_the_document(r: RunView, f: Facts)
    ensures
        f.pdf_open ==> does(
            r,
            Action::TogglePdfPageLayout,
            f,
            seq![
                Effect::PdfTogglePageLayout,
                Effect::PdfResetViewport,
                Effect::PdfHud(Notice::PageLayout),
            ],
        ),
        !f.pdf_open && f.book_open ==> does(
            r,
            Action::TogglePdfPageLayout,
            f,
            seq![
                Effect::ToggleColumns,
                Effect::RememberPosition,
                Effect::SyncColumns,
                Effect::RestorePosition,
                Effect::Notify(NotificationLevel::Info, Notice::ColumnLayout),
            ],
        ),
        !f.pdf_open && !f.book_open ==> refuses(r, Action::TogglePdfPageLayout, f),
        f.pdf_open && r.app.pdf_supports_scroll_mode ==> does(
            r,
            Action::TogglePdfRenderMode,
            f,
            seq![
                Effect::PdfToggleRenderMode,
                Effect::PdfResetViewport,
                Effect::PdfHud(Notice::RenderMode),
            ],
        ),
        f.pdf_open && !r.app.pdf_supports_scroll_mode ==> does(
            r,
            Action::TogglePdfRenderMode,
            f,
            seq![Effect::PdfHudError(Notice::ScrollModeUnsupported)],
        ),
        !f.pdf_open ==> refuses(r, Action::TogglePdfRenderMode, f),
{
    reveal(RunView::emit);
}

/// The bindings of the whole application: a key that is bound does what it is bound to, one that begins a
/// binding waits, and a sequence that leads nowhere is dropped before the key counts alone.
pub proof fn law_bindings_of_the_application(r: RunView, key: KeyEvent, f: Facts, action: Action)
    requires
        !r.cleared,
    ensures
        f.key_sequence_empty && f.global.single == Lookup::Found(action) ==> r.global_hotkeys(key, f)
            == r.global_action(action, f),
        f.key_sequence_empty && f.global.single == Lookup::Prefix ==> asks(
            r,
            r.global_hotkeys(key, f).0,
            seq![Effect::PushKey(key)],
        ) && r.global_hotkeys(key, f).1,
        f.key_sequence_empty && f.global.single == Lookup::NoMatch ==> r.global_hotkeys(key, f) == (
            r,
            false,
        ),
        !f.key_sequence_empty && f.sequence_is_global_prefix && f.global.sequence == Lookup::Found(
            action,
        ) ==> r.global_hotkeys(key, f) == r.clear_keys().global_action(action, f),
        !f.key_sequence_empty && f.sequence_is_global_prefix && f.global.sequence == Lookup::Prefix
            ==> asks(r, r.global_hotkeys(key, f).0, seq![Effect::PushKey(key)]),
        !f.key_sequence_empty && f.sequence_is_global_prefix && f.global.sequence == Lookup::NoMatch
            && f.global.single == Lookup::NoMatch ==> asks(
            r,
            r.global_hotkeys(key, f).0,
            seq![Effect::ClearKeySequence],
        ) && !r.global_hotkeys(key, f).1,
        !f.key_sequence_empty && f.sequence_is_global_prefix && f.global.sequence == Lookup::NoMatch
            && f.global.single == Lookup::Found(action) ==> r.global_hotkeys(key, f)
            == r.clear_keys().global_action(action, f),
{
    reveal(RunView::emit);
    reveal(RunView::clear_keys);
}

// ---------------------------------------------------------------------------------------------
// What windows ask for
// ---------------------------------------------------------------------------------------------
/// Closing a window leaves it; the statistics are only hidden, the search is kept, and the comments keep
/// their place.
pub proof fn law_windows_are_closed(r: RunView, w: PopupWindow, f: Facts)
    requires
        r.app.focused_panel == FocusedPanel::Popup(w),
        w == PopupWindow::MarksList || w == PopupWindow::ReadingHistory || w == PopupWindow::Help || w
            == PopupWindow::CommentsViewer,
        r.app.windows.has(w),
    ensures
        w != PopupWindow::CommentsViewer ==> leaves(
            r,
            r.window_reply(w, WindowReply::Close, f),
            w,
            seq![Effect::DropWindow(w)],
        ),
        w == PopupWindow::CommentsViewer ==> leaves(
            r,
            r.window_reply(w, WindowReply::Close, f),
            w,
            seq![Effect::SaveCommentsPosition, Effect::DropWindow(w)],
        ),
        r.window_reply(w, WindowReply::Nothing, f) == r,
{
    lemma_leaves(r, w);
    reveal(RunView::emit);
    lemma_leaves(r.emit(Effect::SaveCommentsPosition), w);
}

/// Closing the output of a lookup drops it, and gives the focus back to the settings where they are open.
pub proof fn law_lookup_is_closed(r: RunView, f: Facts)
    requires
        r.app.focused_panel == FocusedPanel::Popup(PopupWindow::Lookup),
    ensures
        ({
            let after = r.window_reply(PopupWindow::Lookup, WindowReply::Close, f);
            let main = FocusedPanel::Main(
                if r.app.zen_mode {
                    MainPanel::Content
                } else {
                    r.app.previous_main_panel
                },
            );
            &&& !after.app.windows.has(PopupWindow::Lookup)
            &&& after.out =~= r.out.push(Effect::DropWindow(PopupWindow::Lookup))
            &&& r.app.windows.settings_popup ==> after.app.focused_panel == FocusedPanel::Popup(
                PopupWindow::Settings,
            )
            &&& !r.app.windows.settings_popup ==> after.app.focused_panel == main
            &&& r.window_reply(PopupWindow::Lookup, WindowReply::Nothing, f) == r
        }),
{
    reveal(RunView::emit);
    reveal(RunView::to);
    reveal(RunView::drop_window);
    reveal(RunView::close_popup);
    reveal(RunView::focus_window);
}

/// What is chosen in a window of places is gone to, and the text has the focus.
pub proof fn law_chosen_places_are_gone_to(
    r: RunView,
    f: Facts,
    chapter: usize,
    node: usize,
    page: usize,
    line: usize,
)
    ensures
        ({
            let text = App {
                focused_panel: FocusedPanel::Main(MainPanel::Content),
                previous_main_panel: MainPanel::Content,
                ..r.app
            };
            let search = PopupWindow::BookSearch;
            let stats = PopupWindow::BookStats;
            let listed = WindowReply::ListedChapter(chapter);
            &&& leads(
                r,
                r.window_reply(search, WindowReply::SearchHit { chapter, node }, f),
                text,
                seq![Effect::Perform(Task::GoToSearchHit { chapter, node })],
            )
            &&& f.pdf_open ==> leads(
                r,
                r.window_reply(search, WindowReply::PdfSearchHit { page, line }, f),
                if f.pdf_kitty {
                    text
                } else {
                    App { pdf_waiting_for_page: Some(page), ..text }
                },
                seq![Effect::PdfJumpToSearchHit { page, line }],
            )
            &&& !f.pdf_open ==> leads(
                r,
                r.window_reply(stats, listed, f),
                text,
                seq![Effect::HideStats, Effect::Perform(Task::GoToListedChapter { chapter })],
            )
            &&& f.pdf_open ==> leads(
                r,
                r.window_reply(stats, listed, f),
                text,
                seq![Effect::HideStats, Effect::PdfGoToPage(chapter)],
            )
        }),
{
    reveal(RunView::emit);
    reveal(RunView::to);
    reveal(RunView::focus_main);
    reveal(RunView::await_page);
}

/// The windows of marks, of the reading history and of comments do what is chosen in them; the bookmark of
/// the book that is open is not removed.
pub proof fn law_chosen_entries(r: RunView, f: Facts)
    ensures
        ({
            let marks = PopupWindow::MarksList;
            let history = PopupWindow::ReadingHistory;
            let comments = PopupWindow::CommentsViewer;
            &&& asks(
                r,
                r.window_reply(marks, WindowReply::DeleteMark, f),
                seq![Effect::Perform(Task::DeleteSelectedMark)],
            )
            &&& r.window_reply(history, WindowReply::OpenBook { listed: false }, f) == r
            &&& asks(
                r,
                r.window_reply(history, WindowReply::OpenBookAbsolute, f),
                seq![Effect::Perform(Task::OpenHistoryBookAbsolute)],
            )
            &&& asks(
                r,
                r.window_reply(history, WindowReply::DeleteBookmark { open_now: false }, f),
                seq![Effect::Perform(Task::RemoveHistoryBookmark)],
            )
            &&& asks(
                r,
                r.window_reply(history, WindowReply::DeleteBookmark { open_now: true }, f),
                seq![Effect::Notify(NotificationLevel::Warning, Notice::CannotDeleteOpenBook)],
            )
            &&& asks(
                r,
                r.window_reply(comments, WindowReply::DeleteComment { selected: true }, f),
                seq![Effect::Perform(Task::DeleteSelectedComment)],
            )
            &&& r.window_reply(comments, WindowReply::DeleteComment { selected: false }, f) == r
            &&& asks(
                r,
                r.window_reply(comments, WindowReply::ExportComments, f),
                seq![Effect::Perform(Task::ExportComments)],
            )
        }),
{
    reveal(RunView::emit);
}

/// A mark and a book of the history are gone to once their window is gone.
pub proof fn law_chosen_marks_and_books(r: RunView, f: Facts)
    ensures
        ({
            let to_mark = r.window_reply(PopupWindow::MarksList, WindowReply::JumpToMark, f);
            let to_book = r.window_reply(
                PopupWindow::ReadingHistory,
                WindowReply::OpenBook { listed: true },
                f,
            );
            &&& to_mark.out.last() == Effect::Perform(Task::JumpToSelectedMark)
            &&& !to_mark.app.windows.marks_popup
            &&& to_book.out =~= r.out + seq![
                Effect::DropWindow(PopupWindow::ReadingHistory),
                Effect::Perform(Task::OpenHistoryBook),
            ]
            &&& to_book.app.focused_panel == FocusedPanel::Main(MainPanel::Content)
            &&& !to_book.app.windows.reading_history
        }),
{
    reveal(RunView::emit);
    reveal(RunView::to);
    reveal(RunView::drop_window);
    reveal(RunView::close_popup);
    reveal(RunView::focus_main);
}

/// A comment is gone to: on its page of a PDF, else at its place of the text.
pub proof fn law_comments_are_gone_to(r: RunView, f: Facts, page: usize, node: usize)
    requires
        r.app.windows.comments_viewer,
        r.app.focused_panel == FocusedPanel::Popup(PopupWindow::CommentsViewer),
    ensures
        ({
            let w = PopupWindow::CommentsViewer;
            let to_page = r.window_reply(
                w,
                WindowReply::JumpToComment { pdf_page: Some(page), text_node: None },
                f,
            );
            let to_node = r.window_reply(
                w,
                WindowReply::JumpToComment { pdf_page: None, text_node: Some(node) },
                f,
            );
            &&& f.pdf_open ==> to_page.out =~= r.out + seq![
                Effect::SaveCommentsPosition,
                Effect::PdfJumpToComment(page),
                Effect::DropWindow(w),
            ]
            &&& to_page.app.focused_panel == FocusedPanel::Main(MainPanel::Content)
            &&& !to_page.app.windows.comments_viewer
            &&& to_node.out =~= r.out + seq![
                Effect::SaveCommentsPosition,
                Effect::RestoreNode(node),
                Effect::Perform(Task::GoToComment),
            ]
            &&& to_node.app.focused_panel == FocusedPanel::Main(MainPanel::Content)
        }),
{
    reveal(RunView::emit);
    reveal(RunView::to);
    reveal(RunView::drop_window);
    reveal(RunView::close_popup);
    reveal(RunView::focus_main);
}

/// What the settings ask for.
pub proof fn law_what_settings_ask_for(r: RunView, f: Facts)
    ensures
        ({
            let w = PopupWindow::Settings;
            let after = |a: SettingsAction| r.window_reply(w, WindowReply::Settings(a), f);
            let laid_out = seq![
                Effect::RememberPosition,
                Effect::SyncColumns,
                Effect::RestorePosition,
            ];
            let changed = seq![
                Effect::InvalidateRenderCache,
                Effect::PdfApplyTheme,
                Effect::Notify(NotificationLevel::Info, Notice::Theme),
                Effect::RefreshBooks,
                Effect::ShowBooks,
            ];
            &&& asks(r, after(SettingsAction::TestLookupCommand), seq![Effect::TestLookupCommand])
            &&& asks(r, after(SettingsAction::TestSynctexEditor), seq![Effect::TestSynctexEditor])
            &&& !f.pdf_open ==> asks(r, after(SettingsAction::PageLayoutChanged), laid_out)
            &&& f.pdf_open ==> asks(
                r,
                after(SettingsAction::PageLayoutChanged),
                seq![Effect::PdfResetViewport] + laid_out,
            )
            &&& f.pdf_enabled || !f.pdf_open ==> asks(
                r,
                after(SettingsAction::SettingsChanged),
                changed,
            )
            &&& !f.pdf_enabled && f.pdf_open ==> after(SettingsAction::SettingsChanged).out =~= r.out
                + changed + seq![
                Effect::PdfClearGraphics,
                Effect::PdfClose,
                Effect::ForgetCurrentBook,
                Effect::SwitchToBookList,
                Effect::SyncTitle,
                Effect::DropWindow(PopupWindow::Settings),
            ]
            &&& r.window_reply(w, WindowReply::Settings(SettingsAction::Close), f)
                == r.leave_window(w)
        }),
{
    reveal(RunView::emit);
    reveal(RunView::to);
    reveal(RunView::drop_window);
    reveal(RunView::close_popup);
    reveal(RunView::show_panel);
}

// ---------------------------------------------------------------------------------------------
// The navigation panel
// ---------------------------------------------------------------------------------------------
/// A key is left for others exactly where the navigation panel made nothing of it.
pub proof fn law_panel_leaves_what_it_does_not_take(r: RunView, f: Facts, action: NavigationPanelAction)
    ensures
        r.navigation_action(action, f).1 <==> action is Bypass,
        r.navigation_action(NavigationPanelAction::Bypass, f).0 == r,
{
}

/// What the navigation panel asks for: books and chapters are opened, and the text is shown then; sections
/// open and close, and the books change their order.
pub proof fn law_what_the_panel_asks_for(r: RunView, f: Facts, page: usize, chapter: usize)
    ensures
        ({
            let text = App { focused_panel: FocusedPanel::Main(MainPanel::Content), ..r.app };
            let books = App { focused_panel: FocusedPanel::Main(MainPanel::NavigationList), ..r.app };
            let after = |a: NavigationPanelAction| r.navigation_action(a, f).0;
            let to = |d: TocDestination|
                r.navigation_action(NavigationPanelAction::NavigateToChapter(d), f).0;
            &&& asks(
                r,
                after(NavigationPanelAction::SelectBook),
                seq![Effect::Perform(Task::OpenSelectedBook)],
            )
            &&& leads(
                r,
                after(NavigationPanelAction::SwitchToBookList),
                books,
                seq![Effect::SwitchToBookList],
            )
            &&& leads(r, to(TocDestination::PdfPage(Some(page))), text, seq![Effect::PdfGoToPage(page)])
            &&& leads(
                r,
                to(TocDestination::Chapter(Some(chapter))),
                text,
                seq![Effect::NavigateToHref { chapter }],
            )
            &&& asks(r, to(TocDestination::PdfPage(None)), Seq::empty())
            &&& asks(r, to(TocDestination::External), seq![Effect::OpenExternalLink])
            &&& asks(
                r,
                to(TocDestination::Chapter(None)),
                seq![Effect::Notify(NotificationLevel::Error, Notice::ChapterNotFound)],
            )
            &&& asks(
                r,
                after(NavigationPanelAction::ToggleSection),
                seq![Effect::ToggleSelectedSection, Effect::PersistTocExpansion],
            )
            &&& asks(
                r,
                after(NavigationPanelAction::TocExpansionChanged),
                seq![Effect::PersistTocExpansion],
            )
            &&& asks(
                r,
                after(NavigationPanelAction::ToggleSortOrder),
                seq![
                    Effect::ToggleSortOrder,
                    Effect::ShowBooks,
                    Effect::SelectOpenBook,
                    Effect::Notify(
                        NotificationLevel::Info,
                        if f.sorted_by_name {
                            Notice::SortedByType
                        } else {
                            Notice::SortedByName
                        },
                    ),
                ],
            )
        }),
{
    reveal(RunView::emit);
    reveal(RunView::to);
    reveal(RunView::show_panel);
}

// ---------------------------------------------------------------------------------------------
// What follows a work
// ---------------------------------------------------------------------------------------------
/// Whether a work that ended so is only told of.
pub open spec fn tells(
    r: RunView,
    task: Task,
    outcome: Outcome,
    f: Facts,
    level: NotificationLevel,
    notice: Notice,
) -> bool {
    asks(r, r.task_done(task, outcome, f), seq![Effect::Notify(level, notice)])
}

/// What follows the removal and the export of comments is told, and only where something was removed.
pub proof fn law_works_on_comments(r: RunView, f: Facts)
    ensures
        tells(r, Task::DeleteCommentAtCursor, Outcome::Removed(true), f, NotificationLevel::Info, Notice::AnnotationRemoved),
        r.task_done(Task::DeleteCommentAtCursor, Outcome::Removed(false), f) == r,
        tells(r, Task::DeleteCommentAtCursor, Outcome::Failed, f, NotificationLevel::Error, Notice::DeleteAnnotationFailed),
        tells(r, Task::ExportComments, Outcome::Done, f, NotificationLevel::Info, Notice::ExportedComments),
        tells(r, Task::ExportComments, Outcome::Failed, f, NotificationLevel::Error, Notice::ExportFailed),
        r.task_done(Task::DeleteSelectedComment, Outcome::Deleted { comments: 0, failed: false }, f) == r,
        tells(r, Task::DeleteSelectedComment, Outcome::Deleted { comments: 1, failed: true }, f, NotificationLevel::Error, Notice::DeleteCommentFailed),
        asks(
            r,
            r.task_done(
                Task::DeleteSelectedComment,
                Outcome::Deleted { comments: 1, failed: false },
                f,
            ),
            seq![Effect::RemoveSelectedComment, Effect::Notify(NotificationLevel::Info, Notice::AnnotationDeleted)],
        ),
        asks(
            r,
            r.task_done(
                Task::DeleteSelectedComment,
                Outcome::Deleted { comments: 2, failed: false },
                f,
            ),
            seq![Effect::RemoveSelectedComment, Effect::Notify(NotificationLevel::Info, Notice::AnnotationsDeleted)],
        ),
{
    reveal(RunView::emit);
}

/// What follows a move to a place: nothing more where it succeeded but for a search hit, which is shown, and a message where it failed.
pub proof fn law_works_on_places(r: RunView, f: Facts, chapter: usize, node: usize)
    ensures
        r.task_done(Task::GoToListedChapter { chapter }, Outcome::Done, f) == r,
        tells(r, Task::GoToListedChapter { chapter }, Outcome::Failed, f, NotificationLevel::Error, Notice::NavigateToChapterFailed),
        r.task_done(Task::GoToComment, Outcome::Done, f) == r,
        tells(r, Task::GoToComment, Outcome::Failed, f, NotificationLevel::Error, Notice::NavigateToCommentFailed),
        tells(r, Task::GoToSearchHit { chapter, node }, Outcome::Failed, f, NotificationLevel::Error, Notice::NavigateToChapterFailed),
        tells(r, Task::JumpBack, Outcome::Failed, f, NotificationLevel::Error, Notice::JumpBackFailed),
        r.task_done(Task::JumpBack, Outcome::Done, f) == r,
        tells(r, Task::JumpForward, Outcome::Failed, f, NotificationLevel::Error, Notice::JumpForwardFailed),
        r.task_done(Task::JumpForward, Outcome::Done, f) == r,
        asks(
            r,
            r.task_done(Task::GoToSearchHit { chapter, node }, Outcome::Done, f),
            seq![Effect::RestoreNode(node), Effect::QueueSearchHit(node)],
        ),
        asks(
            r,
            r.task_done(Task::DragText { column: 1, row: 1 }, Outcome::Moved(true), f),
            seq![Effect::SaveBookmark { force: false }],
        ),
        r.task_done(Task::DragText { column: 1, row: 1 }, Outcome::Moved(false), f) == r,
{
    reveal(RunView::emit);
}

/// What follows the work on marks is told with their letter.
pub proof fn law_works_on_marks(r: RunView, f: Facts, c: char)
    ensures
        tells(r, Task::SetMark(c), Outcome::LocalMark(true), f, NotificationLevel::Info, Notice::SetLocalMark(c)),
        tells(r, Task::SetMark(c), Outcome::LocalMark(false), f, NotificationLevel::Warning, Notice::LocalMarkRefused(c)),
        tells(r, Task::SetMark(c), Outcome::GlobalMark, f, NotificationLevel::Info, Notice::SetGlobalMark(c)),
        tells(r, Task::SetMark(c), Outcome::Missing, f, NotificationLevel::Warning, Notice::NoBookForMark),
        tells(r, Task::GotoMark(c), Outcome::Missing, f, NotificationLevel::Warning, Notice::NoBookOpen),
        tells(r, Task::GotoMark(c), Outcome::NoLocalMark, f, NotificationLevel::Warning, Notice::NoLocalMark(c)),
        tells(r, Task::GotoMark(c), Outcome::NoGlobalMark, f, NotificationLevel::Warning, Notice::NoGlobalMark(c)),
        r.task_done(Task::GotoMark(c), Outcome::Done, f) == r,
        r.app.windows.marks_popup ==> asks(
            r,
            r.task_done(Task::DeleteSelectedMark, Outcome::Removed(true), f),
            seq![Effect::RebuildMarks],
        ),
        r.task_done(Task::DeleteSelectedMark, Outcome::Removed(false), f) == r,
{
    reveal(RunView::emit);
}

/// What follows the work on books, on the bindings and on statistics.
pub proof fn law_works_on_books(r: RunView, f: Facts)
    ensures
        r.task_done(Task::OpenSelectedBook, Outcome::Done, f) == r,
        tells(r, Task::OpenSelectedBook, Outcome::Failed, f, NotificationLevel::Error, Notice::OpenBookFailed),
        tells(r, Task::OpenHistoryBookAbsolute, Outcome::SourceFailed, f, NotificationLevel::Error, Notice::SourceBookmarksFailed),
        tells(r, Task::OpenHistoryBookAbsolute, Outcome::Failed, f, NotificationLevel::Error, Notice::OpenBookFailed),
        tells(r, Task::OpenExternalViewer, Outcome::Done, f, NotificationLevel::Info, Notice::OpenedExternally),
        tells(r, Task::OpenExternalViewer, Outcome::Failed, f, NotificationLevel::Error, Notice::OpenExternallyFailed),
        tells(r, Task::ReloadKeybindings, Outcome::Keymap(0), f, NotificationLevel::Info, Notice::KeybindingsReloaded),
        tells(r, Task::CalculateStats, Outcome::Failed, f, NotificationLevel::Error, Notice::StatisticsFailed),
        f.pdf_open ==> tells(
            r,
            Task::OpenExternalViewer,
            Outcome::Missing,
            f,
            NotificationLevel::Error,
            Notice::NoPdfLoaded,
        ),
        !f.pdf_open ==> tells(
            r,
            Task::OpenExternalViewer,
            Outcome::Missing,
            f,
            NotificationLevel::Error,
            Notice::NoEpubLoaded,
        ),
        opens(
            r,
            r.task_done(Task::ReloadKeybindings, Outcome::Keymap(1), f),
            PopupWindow::KeybindingErrors,
            seq![Effect::CreateWindow(PopupWindow::KeybindingErrors)],
        ),
        opens(
            r,
            r.task_done(Task::CalculateStats, Outcome::Done, f),
            PopupWindow::BookStats,
            seq![Effect::ShowStats],
        ),
        r.app.windows.reading_history ==> asks(
            r,
            r.task_done(Task::RemoveHistoryBookmark, Outcome::Removed(true), f),
            seq![Effect::ReloadHistory],
        ),
        r.task_done(Task::RemoveHistoryBookmark, Outcome::Removed(false), f) == r,
        r.task_done(Task::OpenHistoryBookAbsolute, Outcome::Done, f).app.focused_panel
            == FocusedPanel::Main(MainPanel::Content),
        !r.task_done(Task::OpenHistoryBookAbsolute, Outcome::Done, f).app.windows.reading_history,
{
    lemma_opens(r, PopupWindow::KeybindingErrors);
    reveal(RunView::emit);
    reveal(RunView::to);
    reveal(RunView::focus_window);
    reveal(RunView::remember_panel);
    reveal(RunView::drop_window);
    reveal(RunView::focus_main);
}

} // verus!
