//! What the steps of the application and the actions of reading do: which way the text goes, how far, and
//! what else is asked for.
use vstd::prelude::*;

use crate::main_app::state::{
    Action, App, ChapterDirection, Effect, Facts, FocusedPanel, Hud, MainPanel, Motion, PageMotion,
    PendingCharMotion, PendingMarkOp, PopupWindow, RunView, Scroll, SearchIn, SearchMode, Task,
    VisualMode, Windows,
};

verus! {

/// Whether a step asks for the given effects, in this order, and changes nothing of the state.
pub open spec fn asks(before: RunView, after: RunView, effects: Seq<Effect>) -> bool {
    &&& after.app == before.app
    &&& after.out =~= before.out + effects
}

/// Whether a step leads to the given state and asks for the given effects, in this order.
pub open spec fn leads(before: RunView, after: RunView, app: App, effects: Seq<Effect>) -> bool {
    &&& after.app == app
    &&& after.out =~= before.out + effects
}

// ---------------------------------------------------------------------------------------------
// Windows and focus
// ---------------------------------------------------------------------------------------------
/// A window that was made is there, one that was dropped is not, and no other window comes or goes with
/// it; the statistics are always there.
pub proof fn law_windows_are_kept_apart(windows: Windows, a: PopupWindow, b: PopupWindow, there: bool)
    ensures
        a != PopupWindow::BookStats ==> windows.with(a, there).has(a) == there,
        a != b ==> windows.with(a, there).has(b) == windows.has(b),
        windows.has(PopupWindow::BookStats),
        a != PopupWindow::BookStats ==> !Windows::none().has(a),
{
}

/// A window that is opened is made and has the focus; the panel to come back to stays.
pub proof fn law_opened_window_has_the_focus(r: RunView, w: PopupWindow)
    ensures
        ({
            let after = r.open_window(w);
            &&& after.app.focused_panel == FocusedPanel::Popup(w)
            &&& after.app.windows.has(w)
            &&& after.app == (App {
                focused_panel: FocusedPanel::Popup(w),
                windows: after.app.windows,
                ..r.app
            })
            &&& after.out == r.out.push(Effect::CreateWindow(w))
            &&& forall|v: PopupWindow|
                v != w ==> after.app.windows.has(v) == #[trigger] r.app.windows.has(v)
        }),
{
    let after = r.open_window(w);
    assert(after.app == (App {
        focused_panel: FocusedPanel::Popup(w),
        windows: r.app.windows.with(w, true),
        ..r.app
    }) && after.out == r.out.push(Effect::CreateWindow(w))) by {
        reveal(RunView::emit);
        reveal(RunView::to);
        reveal(RunView::focus_window);
    }
    law_windows_are_kept_apart(r.app.windows, w, w, true);
    assert forall|v: PopupWindow| v != w implies after.app.windows.has(v)
        == #[trigger] r.app.windows.has(v) by {
        law_windows_are_kept_apart(r.app.windows, w, v, true);
    }
}

/// A window that is dropped is gone, and nothing else is.
pub proof fn law_dropped_window_is_gone(r: RunView, w: PopupWindow)
    requires
        w != PopupWindow::BookStats,
    ensures
        ({
            let after = r.drop_window(w);
            &&& !after.app.windows.has(w)
            &&& after.app == (App { windows: after.app.windows, ..r.app })
            &&& after.out == r.out.push(Effect::DropWindow(w))
            &&& forall|v: PopupWindow|
                v != w ==> after.app.windows.has(v) == #[trigger] r.app.windows.has(v)
        }),
{
    let after = r.drop_window(w);
    assert(after.app == (App { windows: r.app.windows.with(w, false), ..r.app }) && after.out
        == r.out.push(Effect::DropWindow(w))) by {
        reveal(RunView::emit);
        reveal(RunView::to);
        reveal(RunView::drop_window);
    }
    law_windows_are_kept_apart(r.app.windows, w, w, false);
    assert forall|v: PopupWindow| v != w implies after.app.windows.has(v)
        == #[trigger] r.app.windows.has(v) by {
        law_windows_are_kept_apart(r.app.windows, w, v, false);
    }
}

/// Where a window is left, the focus is on the panel that it was opened from, in zen mode on the text;
/// the picture of an image window is cleaned up.
pub proof fn law_left_window_gives_back_the_focus(r: RunView)
    ensures
        r.close_popup().app == (App {
            focused_panel: FocusedPanel::Main(
                if r.app.zen_mode {
                    MainPanel::Content
                } else {
                    r.app.previous_main_panel
                },
            ),
            ..r.app
        }),
        r.app.focused_panel == FocusedPanel::Popup(PopupWindow::ImagePopup) ==> r.close_popup().out
            =~= r.out + seq![Effect::RequestOverlayCleanup, Effect::InvalidateImageProtocols],
        r.app.focused_panel != FocusedPanel::Popup(PopupWindow::ImagePopup) ==> r.close_popup().out
            == r.out,
{
    reveal(RunView::emit);
    reveal(RunView::to);
    reveal(RunView::close_popup);
}

/// The focus on a main panel is remembered for when a window closes, and that of a window is not.
pub proof fn law_panels_are_remembered(r: RunView, panel: MainPanel)
    ensures
        leads(
            r,
            r.focus_main(panel),
            App {
                focused_panel: FocusedPanel::Main(panel),
                previous_main_panel: panel,
                ..r.app
            },
            Seq::empty(),
        ),
        r.focus_main(panel).close_popup().app.focused_panel == FocusedPanel::Main(
            if r.app.zen_mode {
                MainPanel::Content
            } else {
                panel
            },
        ),
        match r.app.focused_panel {
            FocusedPanel::Main(p) => leads(
                r,
                r.remember_panel(),
                App { previous_main_panel: p, ..r.app },
                Seq::empty(),
            ),
            FocusedPanel::Popup(_) => r.remember_panel() == r,
        },
        asks(r, r.clear_keys(), seq![Effect::ClearKeySequence]),
        r.clear_keys().cleared,
{
    reveal(RunView::emit);
    reveal(RunView::to);
    reveal(RunView::focus_main);
    reveal(RunView::remember_panel);
    reveal(RunView::close_popup);
    reveal(RunView::clear_keys);
}

/// A search that is given up is cancelled while its words are typed, and left when they are found; what
/// is typed goes to the search that is under way. That of the navigation panel comes first.
pub proof fn law_searches_are_given_up(r: RunView, f: Facts, c: char)
    ensures
        f.navigation_search == Some(SearchMode::InputMode) ==> asks(
            r,
            r.cancel_search(f),
            seq![Effect::CancelSearch(SearchIn::Navigation)],
        ) && asks(r, r.type_search(f, c), seq![Effect::SearchType(SearchIn::Navigation, c)]),
        f.navigation_search == Some(SearchMode::NavigationMode) ==> asks(
            r,
            r.cancel_search(f),
            seq![Effect::ExitSearch(SearchIn::Navigation)],
        ),
        f.navigation_search is None && f.text_search == Some(SearchMode::InputMode) ==> asks(
            r,
            r.cancel_search(f),
            seq![Effect::CancelSearch(SearchIn::Text)],
        ) && asks(r, r.type_search(f, c), seq![Effect::SearchType(SearchIn::Text, c)]),
        f.navigation_search is None && f.text_search == Some(SearchMode::NavigationMode) ==> asks(
            r,
            r.cancel_search(f),
            seq![Effect::ExitSearch(SearchIn::Text)],
        ),
        f.navigation_search is None && f.text_search is None ==> asks(
            r,
            r.cancel_search(f),
            Seq::empty(),
        ) && asks(r, r.type_search(f, c), Seq::empty()) && !f.searching() && !f.typing_search(),
        f.navigation_search == Some(SearchMode::InputMode) ==> f.searching() && f.typing_search(),
        f.navigation_search == Some(SearchMode::NavigationMode) ==> f.searching()
            && !f.typing_search(),
        f.navigation_search is None && f.text_search == Some(SearchMode::InputMode)
            ==> f.searching() && f.typing_search(),
        f.navigation_search is None && f.text_search == Some(SearchMode::NavigationMode)
            ==> f.searching() && !f.typing_search(),
{
    reveal(RunView::emit);
    reveal(RunView::cancel_search);
    reveal(RunView::type_search);
}

// ---------------------------------------------------------------------------------------------
// Scrolling
// ---------------------------------------------------------------------------------------------
/// Each scrolling action goes the way and as far as it is named, a line, half a screen or a screen, and
/// then the place is noted and the table of contents follows.
pub proof fn law_scrolling_goes_its_way(r: RunView, f: Facts)
    ensures
        asks(
            r,
            r.content_action(Action::ScrollDown, f).0,
            seq![
                Effect::ScrollText(Scroll::Down),
                Effect::SaveBookmark { force: false },
                Effect::UpdateTocState,
            ],
        ),
        asks(
            r,
            r.content_action(Action::ScrollUp, f).0,
            seq![
                Effect::ScrollText(Scroll::Up),
                Effect::SaveBookmark { force: false },
                Effect::UpdateTocState,
            ],
        ),
        asks(
            r,
            r.content_action(Action::ScrollHalfDown, f).0,
            seq![
                Effect::ScrollText(Scroll::HalfScreenDown(f.visible_height)),
                Effect::SaveBookmark { force: false },
                Effect::UpdateTocState,
            ],
        ),
        asks(
            r,
            r.content_action(Action::ScrollHalfUp, f).0,
            seq![
                Effect::ScrollText(Scroll::HalfScreenUp(f.visible_height)),
                Effect::SaveBookmark { force: false },
                Effect::UpdateTocState,
            ],
        ),
        asks(
            r,
            r.content_action(Action::ScrollPageDown, f).0,
            seq![
                Effect::ScrollText(Scroll::FullScreenDown(f.visible_height)),
                Effect::SaveBookmark { force: false },
                Effect::UpdateTocState,
            ],
        ),
        asks(
            r,
            r.content_action(Action::ScrollPageUp, f).0,
            seq![
                Effect::ScrollText(Scroll::FullScreenUp(f.visible_height)),
                Effect::SaveBookmark { force: false },
                Effect::UpdateTocState,
            ],
        ),
{
    reveal(RunView::emit);
}

/// What an action of the text asks for.
pub open spec fn text_asks(r: RunView, action: Action, f: Facts, effects: Seq<Effect>) -> bool {
    asks(r, r.content_action(action, f).0, effects) && r.content_action(action, f).1 is None
}

/// The actions that move about in a book: to the next and the previous chapter, to the top and the
/// bottom, by paragraphs, and back and forth among the places jumped from.
pub proof fn law_moving_about_a_book(r: RunView, f: Facts)
    ensures
        text_asks(r, Action::NextChapter, f, seq![Effect::NavigateChapter(ChapterDirection::Next)]),
        text_asks(r, Action::PrevChapter, f, seq![Effect::NavigateChapter(ChapterDirection::Previous)]),
        text_asks(r, Action::GoTop, f, seq![Effect::GoTop, Effect::SaveBookmark { force: false }]),
        f.book_open ==> text_asks(r, Action::GoBottom, f, seq![Effect::GoBottom]),
        !f.book_open ==> text_asks(r, Action::GoBottom, f, Seq::empty()),
        text_asks(r, Action::ParagraphForward, f, seq![Effect::ScrollParagraphDown]),
        text_asks(r, Action::ParagraphBackward, f, seq![Effect::ScrollParagraphUp]),
        text_asks(r, Action::JumpForward, f, seq![Effect::Perform(Task::JumpForward)]),
        text_asks(r, Action::JumpBackward, f, seq![Effect::Perform(Task::JumpBack)]),
        text_asks(r, Action::FollowLink, f, seq![Effect::FollowLink]),
{
    reveal(RunView::emit);
}

/// The actions on the text that is shown: searches and the other view of it where the text has the focus,
/// comments where there is something to comment on, copies, selections and yanks.
pub proof fn law_working_on_the_text(r: RunView, f: Facts)
    ensures
        ({
            let here = r.app.focused_panel == FocusedPanel::Main(MainPanel::Content);
            &&& here ==> text_asks(r, Action::StartSearch, f, seq![Effect::StartSearch])
            &&& !here ==> text_asks(r, Action::StartSearch, f, Seq::empty())
            &&& here ==> text_asks(r, Action::ToggleNormalMode, f, seq![Effect::ToggleNormalMode])
            &&& !here ==> text_asks(r, Action::ToggleNormalMode, f, Seq::empty())
            &&& here && f.book_open ==> text_asks(r, Action::ToggleRawHtml, f, seq![Effect::ToggleRawHtml])
            &&& !(here && f.book_open) ==> text_asks(r, Action::ToggleRawHtml, f, Seq::empty())
            &&& f.has_text_selection || f.visual_mode is Some ==> text_asks(r, Action::AddComment, f, seq![Effect::StartCommentInput])
            &&& !(f.has_text_selection || f.visual_mode is Some) ==> text_asks(r, Action::AddComment, f, Seq::empty())
            &&& !f.comment_input_active ==> text_asks(r, Action::DeleteComment, f, seq![Effect::Perform(Task::DeleteCommentAtCursor)])
            &&& f.comment_input_active ==> text_asks(r, Action::DeleteComment, f, Seq::empty())
            &&& text_asks(r, Action::CopySelection, f, seq![Effect::CopySelection])
            &&& text_asks(r, Action::EnterVisualMode, f, seq![Effect::EnterVisualMode(VisualMode::CharacterWise)])
            &&& text_asks(r, Action::EnterVisualLineMode, f, seq![Effect::EnterVisualMode(VisualMode::LineWise)])
            &&& text_asks(r, Action::StartYank, f, seq![Effect::StartYank])
            &&& text_asks(r, Action::ToggleProfiling, f, seq![Effect::ToggleProfiling])
        }),
{
    reveal(RunView::emit);
}

/// A wider or a narrower margin keeps the place in the text and is kept itself.
pub proof fn law_margins_keep_the_place(r: RunView, f: Facts)
    ensures
        text_asks(
            r,
            Action::IncreaseMargin,
            f,
            seq![
                Effect::RememberPosition,
                Effect::IncreaseMargin,
                Effect::RestorePosition,
                Effect::PersistMargin,
            ],
        ),
        text_asks(
            r,
            Action::DecreaseMargin,
            f,
            seq![
                Effect::RememberPosition,
                Effect::DecreaseMargin,
                Effect::RestorePosition,
                Effect::PersistMargin,
            ],
        ),
{
    reveal(RunView::emit);
}

/// Cancelling takes away a message first, then a selection, then a search, one at a time.
pub proof fn law_cancelling_undoes_one_thing(r: RunView, f: Facts)
    ensures
        f.has_notification ==> text_asks(r, Action::Cancel, f, seq![Effect::DismissNotification]),
        !f.has_notification && f.has_text_selection ==> text_asks(
            r,
            Action::Cancel,
            f,
            seq![Effect::ClearSelection],
        ),
        !f.has_notification && !f.has_text_selection && f.navigation_search is None && f.text_search
            == Some(SearchMode::InputMode) ==> text_asks(
            r,
            Action::Cancel,
            f,
            seq![Effect::CancelSearch(SearchIn::Text)],
        ),
        !f.has_notification && !f.has_text_selection && f.navigation_search is None && f.text_search
            is None ==> text_asks(r, Action::Cancel, f, Seq::empty()),
{
    reveal(RunView::emit);
    reveal(RunView::cancel_search);
}

/// The help opens from the text; the letters that follow set a mark or lead to one; the focus goes to the
/// other panel, but not in zen mode.
pub proof fn law_other_actions_of_the_text(r: RunView, f: Facts)
    ensures
        r.content_action(Action::ToggleHelp, f).0 == r.open_window(PopupWindow::Help),
        leads(
            r,
            r.content_action(Action::SetMark, f).0,
            App { pending_mark_op: Some(PendingMarkOp::Assign), ..r.app },
            Seq::empty(),
        ),
        leads(
            r,
            r.content_action(Action::GotoMark, f).0,
            App { pending_mark_op: Some(PendingMarkOp::Goto), ..r.app },
            Seq::empty(),
        ),
        r.app.zen_mode ==> text_asks(r, Action::SwitchFocus, f, Seq::empty()),
        !r.app.zen_mode && r.app.focused_panel == FocusedPanel::Main(MainPanel::Content) ==> leads(
            r,
            r.content_action(Action::SwitchFocus, f).0,
            App {
                focused_panel: FocusedPanel::Main(MainPanel::NavigationList),
                previous_main_panel: MainPanel::NavigationList,
                ..r.app
            },
            Seq::empty(),
        ),
        !r.app.zen_mode && r.app.focused_panel == FocusedPanel::Main(MainPanel::NavigationList)
            ==> leads(
            r,
            r.content_action(Action::SwitchFocus, f).0,
            App {
                focused_panel: FocusedPanel::Main(MainPanel::Content),
                previous_main_panel: MainPanel::Content,
                ..r.app
            },
            seq![Effect::ClearManualNavigation],
        ),
{
    reveal(RunView::emit);
    reveal(RunView::to);
    reveal(RunView::pend_mark);
    reveal(RunView::focus_main);
}

// ---------------------------------------------------------------------------------------------
// The cursor
// ---------------------------------------------------------------------------------------------
/// Whether an action of normal mode is one and asks for the given effects.
pub open spec fn cursor_asks(r: RunView, action: Action, f: Facts, effects: Seq<Effect>) -> bool {
    r.normal_action(action, f).1 && asks(r, r.normal_action(action, f).0, effects)
}

/// The motions that a count repeats go the way that they are named, as often as the count says.
pub proof fn law_counted_motions(r: RunView, f: Facts)
    ensures
        cursor_asks(
            r,
            Action::MoveLeft,
            f,
            seq![Effect::TakeCount, Effect::Move { motion: Motion::Left, times: f.count }],
        ),
        cursor_asks(
            r,
            Action::MoveDown,
            f,
            seq![Effect::TakeCount, Effect::Move { motion: Motion::Down, times: f.count }],
        ),
        cursor_asks(
            r,
            Action::MoveUp,
            f,
            seq![Effect::TakeCount, Effect::Move { motion: Motion::Up, times: f.count }],
        ),
        cursor_asks(
            r,
            Action::MoveRight,
            f,
            seq![Effect::TakeCount, Effect::Move { motion: Motion::Right, times: f.count }],
        ),
        cursor_asks(
            r,
            Action::WordForward,
            f,
            seq![Effect::TakeCount, Effect::Move { motion: Motion::WordForward, times: f.count }],
        ),
        cursor_asks(
            r,
            Action::WordBackward,
            f,
            seq![Effect::TakeCount, Effect::Move { motion: Motion::WordBackward, times: f.count }],
        ),
        cursor_asks(
            r,
            Action::WordEnd,
            f,
            seq![Effect::TakeCount, Effect::Move { motion: Motion::WordEnd, times: f.count }],
        ),
        cursor_asks(
            r,
            Action::ParagraphBackward,
            f,
            seq![Effect::TakeCount, Effect::Move { motion: Motion::ParagraphUp, times: f.count }],
        ),
        cursor_asks(
            r,
            Action::ParagraphForward,
            f,
            seq![Effect::TakeCount, Effect::Move { motion: Motion::ParagraphDown, times: f.count }],
        ),
        cursor_asks(
            r,
            Action::RepeatFind,
            f,
            seq![Effect::TakeCount, Effect::Move { motion: Motion::RepeatFind, times: f.count }],
        ),
        cursor_asks(
            r,
            Action::RepeatFindReverse,
            f,
            seq![Effect::TakeCount, Effect::Move { motion: Motion::RepeatFindReverse, times: f.count }],
        ),
{
    reveal(RunView::emit);
}

/// The motions to a place of the line or of the text are made once, whatever the count, which is
/// dropped; those by screens go as far as the screen is high.
pub proof fn law_motions_to_a_place(r: RunView, f: Facts)
    ensures
        cursor_asks(
            r,
            Action::LineStart,
            f,
            seq![Effect::ClearCount, Effect::Move { motion: Motion::LineStart, times: 1 }],
        ),
        cursor_asks(
            r,
            Action::FirstNonBlank,
            f,
            seq![Effect::ClearCount, Effect::Move { motion: Motion::FirstNonBlank, times: 1 }],
        ),
        cursor_asks(
            r,
            Action::LineEnd,
            f,
            seq![Effect::ClearCount, Effect::Move { motion: Motion::LineEnd, times: 1 }],
        ),
        cursor_asks(
            r,
            Action::GoTop,
            f,
            seq![Effect::ClearCount, Effect::Move { motion: Motion::DocumentTop, times: 1 }],
        ),
        cursor_asks(
            r,
            Action::GoBottom,
            f,
            seq![Effect::ClearCount, Effect::Move { motion: Motion::DocumentBottom, times: 1 }],
        ),
        cursor_asks(
            r,
            Action::ScrollHalfDown,
            f,
            seq![
                Effect::ClearCount,
                Effect::MovePage { page_motion: PageMotion::HalfDown, height: f.visible_height },
            ],
        ),
        cursor_asks(
            r,
            Action::ScrollHalfUp,
            f,
            seq![
                Effect::ClearCount,
                Effect::MovePage { page_motion: PageMotion::HalfUp, height: f.visible_height },
            ],
        ),
        cursor_asks(
            r,
            Action::ScrollPageDown,
            f,
            seq![
                Effect::ClearCount,
                Effect::MovePage { page_motion: PageMotion::FullDown, height: f.visible_height },
            ],
        ),
        cursor_asks(
            r,
            Action::ScrollPageUp,
            f,
            seq![
                Effect::ClearCount,
                Effect::MovePage { page_motion: PageMotion::FullUp, height: f.visible_height },
            ],
        ),
{
    reveal(RunView::emit);
}

/// A search for a character waits for the character; marks wait for their letter; the palette opens on a
/// selection or a highlight, and says so where there is neither.
pub proof fn law_motions_that_wait(r: RunView, f: Facts)
    ensures
        cursor_asks(r, Action::FindForward, f, seq![Effect::SetPendingFind(PendingCharMotion::FindForward)]),
        cursor_asks(r, Action::FindBackward, f, seq![Effect::SetPendingFind(PendingCharMotion::FindBackward)]),
        cursor_asks(r, Action::TillForward, f, seq![Effect::SetPendingFind(PendingCharMotion::TillForward)]),
        cursor_asks(r, Action::TillBackward, f, seq![Effect::SetPendingFind(PendingCharMotion::TillBackward)]),
        leads(
            r,
            r.normal_action(Action::SetMark, f).0,
            App { pending_mark_op: Some(PendingMarkOp::Assign), ..r.app },
            Seq::empty(),
        ),
        leads(
            r,
            r.normal_action(Action::GotoMark, f).0,
            App { pending_mark_op: Some(PendingMarkOp::Goto), ..r.app },
            Seq::empty(),
        ),
        f.visual_mode is None && f.highlight_here is None ==> cursor_asks(
            r,
            Action::OpenHighlightPalette,
            f,
            seq![Effect::ClearCount, Effect::ShowHud(Hud::SelectTextFirst)],
        ),
        f.highlight_here is Some ==> leads(
            r,
            r.normal_action(Action::OpenHighlightPalette, f).0,
            App {
                pending_highlight_palette: true,
                highlight_palette_target: f.highlight_here,
                ..r.app
            },
            seq![Effect::ClearCount, Effect::ShowHud(Hud::PaletteEdit)],
        ),
        f.visual_mode is Some && f.highlight_here is None ==> leads(
            r,
            r.normal_action(Action::OpenHighlightPalette, f).0,
            App { pending_highlight_palette: true, highlight_palette_target: None, ..r.app },
            seq![Effect::ClearCount, Effect::ShowHud(Hud::Palette)],
        ),
        !f.comment_input_active ==> cursor_asks(
            r,
            Action::DeleteComment,
            f,
            seq![Effect::Perform(Task::DeleteCommentAtCursor)],
        ),
        !r.normal_action(Action::NextChapter, f).1,
        !r.normal_action(Action::Quit, f).1,
{
    reveal(RunView::emit);
    reveal(RunView::to);
    reveal(RunView::pend_mark);
    reveal(RunView::open_palette);
}

} // verus!
