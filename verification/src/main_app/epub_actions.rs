//! The actions of the EPUB reader: cursor motions in normal mode, and scrolling.
use vstd::prelude::*;

use crate::main_app::state::{extends, group_run_sound, sound};
use crate::main_app::state::{
    Action, App, AppAction, ChapterDirection, Effect, Facts, Hud, MainPanel, Motion,
    PageMotion, PendingCharMotion, PendingMarkOp, PopupWindow, Run, RunView, Scroll, Task,
    VisualMode,
};

verus! {

/// The motion that an action makes as often as the count says.
pub open spec fn counted_motion(action: Action) -> Option<Motion> {
    match action {
        Action::MoveLeft => Some(Motion::Left),
        Action::MoveDown => Some(Motion::Down),
        Action::MoveUp => Some(Motion::Up),
        Action::MoveRight => Some(Motion::Right),
        Action::WordForward => Some(Motion::WordForward),
        Action::WordBackward => Some(Motion::WordBackward),
        Action::WordEnd => Some(Motion::WordEnd),
        Action::ParagraphBackward => Some(Motion::ParagraphUp),
        Action::ParagraphForward => Some(Motion::ParagraphDown),
        Action::RepeatFind => Some(Motion::RepeatFind),
        Action::RepeatFindReverse => Some(Motion::RepeatFindReverse),
        _ => None,
    }
}

/// The motion that an action makes once, whatever count was typed.
pub open spec fn single_motion(action: Action) -> Option<Motion> {
    match action {
        Action::LineStart => Some(Motion::LineStart),
        Action::FirstNonBlank => Some(Motion::FirstNonBlank),
        Action::LineEnd => Some(Motion::LineEnd),
        Action::GoTop => Some(Motion::DocumentTop),
        Action::GoBottom => Some(Motion::DocumentBottom),
        _ => None,
    }
}

/// The motion by the height of the view that an action makes.
pub open spec fn page_motion(action: Action) -> Option<PageMotion> {
    match action {
        Action::ScrollHalfDown => Some(PageMotion::HalfDown),
        Action::ScrollHalfUp => Some(PageMotion::HalfUp),
        Action::ScrollPageDown => Some(PageMotion::FullDown),
        Action::ScrollPageUp => Some(PageMotion::FullUp),
        _ => None,
    }
}

/// The character search that an action begins.
pub open spec fn find_motion(action: Action) -> Option<PendingCharMotion> {
    match action {
        Action::FindForward => Some(PendingCharMotion::FindForward),
        Action::FindBackward => Some(PendingCharMotion::FindBackward),
        Action::TillForward => Some(PendingCharMotion::TillForward),
        Action::TillBackward => Some(PendingCharMotion::TillBackward),
        _ => None,
    }
}

/// The scrolling that an action of the content makes, in a view of the given height.
pub open spec fn scroll_of(action: Action, height: usize) -> Option<Scroll> {
    match action {
        Action::ScrollPageUp => Some(Scroll::FullScreenUp(height)),
        Action::ScrollPageDown => Some(Scroll::FullScreenDown(height)),
        Action::ScrollHalfDown => Some(Scroll::HalfScreenDown(height)),
        Action::ScrollHalfUp => Some(Scroll::HalfScreenUp(height)),
        Action::ScrollDown => Some(Scroll::Down),
        Action::ScrollUp => Some(Scroll::Up),
        _ => None,
    }
}

fn counted_motion_of(action: Action) -> (r: Option<Motion>)
    ensures
        r == counted_motion(action),
{
    match action {
        Action::MoveLeft => Some(Motion::Left),
        Action::MoveDown => Some(Motion::Down),
        Action::MoveUp => Some(Motion::Up),
        Action::MoveRight => Some(Motion::Right),
        Action::WordForward => Some(Motion::WordForward),
        Action::WordBackward => Some(Motion::WordBackward),
        Action::WordEnd => Some(Motion::WordEnd),
        Action::ParagraphBackward => Some(Motion::ParagraphUp),
        Action::ParagraphForward => Some(Motion::ParagraphDown),
        Action::RepeatFind => Some(Motion::RepeatFind),
        Action::RepeatFindReverse => Some(Motion::RepeatFindReverse),
        _ => None,
    }
}

fn single_motion_of(action: Action) -> (r: Option<Motion>)
    ensures
        r == single_motion(action),
{
    match action {
        Action::LineStart => Some(Motion::LineStart),
        Action::FirstNonBlank => Some(Motion::FirstNonBlank),
        Action::LineEnd => Some(Motion::LineEnd),
        Action::GoTop => Some(Motion::DocumentTop),
        Action::GoBottom => Some(Motion::DocumentBottom),
        _ => None,
    }
}

fn page_motion_of(action: Action) -> (r: Option<PageMotion>)
    ensures
        r == page_motion(action),
{
    match action {
        Action::ScrollHalfDown => Some(PageMotion::HalfDown),
        Action::ScrollHalfUp => Some(PageMotion::HalfUp),
        Action::ScrollPageDown => Some(PageMotion::FullDown),
        Action::ScrollPageUp => Some(PageMotion::FullUp),
        _ => None,
    }
}

fn find_motion_of(action: Action) -> (r: Option<PendingCharMotion>)
    ensures
        r == find_motion(action),
{
    match action {
        Action::FindForward => Some(PendingCharMotion::FindForward),
        Action::FindBackward => Some(PendingCharMotion::FindBackward),
        Action::TillForward => Some(PendingCharMotion::TillForward),
        Action::TillBackward => Some(PendingCharMotion::TillBackward),
        _ => None,
    }
}

fn scroll_for(action: Action, height: usize) -> (r: Option<Scroll>)
    ensures
        r == scroll_of(action, height),
{
    match action {
        Action::ScrollPageUp => Some(Scroll::FullScreenUp(height)),
        Action::ScrollPageDown => Some(Scroll::FullScreenDown(height)),
        Action::ScrollHalfDown => Some(Scroll::HalfScreenDown(height)),
        Action::ScrollHalfUp => Some(Scroll::HalfScreenUp(height)),
        Action::ScrollDown => Some(Scroll::Down),
        Action::ScrollUp => Some(Scroll::Up),
        _ => None,
    }
}

impl RunView {
    /// The next letter names a mark.
    #[verifier::opaque]
    pub open spec fn pend_mark(self, op: PendingMarkOp) -> RunView {
        self.to(App { pending_mark_op: Some(op), ..self.app })
    }

    /// The annotation at the cursor deleted, unless one is being written.
    pub open spec fn delete_comment(self, f: Facts) -> RunView {
        if f.comment_input_active {
            self
        } else {
            self.emit(Effect::Perform(Task::DeleteCommentAtCursor))
        }
    }

    /// The highlight palette opened on the highlight given, for a new one where there is none.
    #[verifier::opaque]
    pub open spec fn open_palette(self, f: Facts) -> RunView {
        self.to(
            App {
                highlight_palette_target: f.highlight_here,
                pending_highlight_palette: true,
                ..self.app
            },
        ).emit(
            Effect::ShowHud(
                if f.highlight_here is Some {
                    Hud::PaletteEdit
                } else {
                    Hud::Palette
                },
            ),
        )
    }

    /// What an action of normal mode does, and whether it is one.
    pub open spec fn normal_action(self, action: Action, f: Facts) -> (RunView, bool) {
        if let Some(motion) = counted_motion(action) {
            (self.emit(Effect::TakeCount).emit(Effect::Move { motion, times: f.count }), true)
        } else if let Some(motion) = single_motion(action) {
            (self.emit(Effect::ClearCount).emit(Effect::Move { motion, times: 1 }), true)
        } else if let Some(page_motion) = page_motion(action) {
            (
                self.emit(Effect::ClearCount).emit(
                    Effect::MovePage { page_motion, height: f.visible_height },
                ),
                true,
            )
        } else if let Some(motion) = find_motion(action) {
            (self.emit(Effect::SetPendingFind(motion)), true)
        } else if action == Action::SetMark {
            (self.pend_mark(PendingMarkOp::Assign), true)
        } else if action == Action::GotoMark {
            (self.pend_mark(PendingMarkOp::Goto), true)
        } else if action == Action::DeleteComment {
            (self.delete_comment(f), true)
        } else if action == Action::OpenHighlightPalette {
            if f.visual_mode is Some || f.highlight_here is Some {
                (self.emit(Effect::ClearCount).open_palette(f), true)
            } else {
                (
                    self.emit(Effect::ClearCount).emit(Effect::ShowHud(Hud::SelectTextFirst)),
                    true,
                )
            }
        } else {
            (self, false)
        }
    }

    /// The text scrolled, the place noted.
    pub open spec fn scroll_text(self, how: Scroll) -> RunView {
        self.emit(Effect::ScrollText(how)).emit(Effect::SaveBookmark { force: false }).emit(
            Effect::UpdateTocState,
        )
    }

    /// The focus moved between the two main panels; not in zen mode and not from a window.
    pub open spec fn switch_focus(self) -> RunView {
        if self.app.popup_active() || self.app.zen_mode {
            self
        } else if self.app.main_panel_is(MainPanel::NavigationList) {
            self.emit(Effect::ClearManualNavigation).focus_main(MainPanel::Content)
        } else {
            self.focus_main(MainPanel::NavigationList)
        }
    }

    /// What Esc undoes first: a notification, then a selection, then a search.
    pub open spec fn cancel(self, f: Facts) -> RunView {
        if f.has_notification {
            self.emit(Effect::DismissNotification)
        } else if f.has_text_selection {
            self.emit(Effect::ClearSelection)
        } else if f.searching() {
            self.cancel_search(f)
        } else {
            self
        }
    }

    /// What an action of the content does where it neither scrolls nor quits.
    pub open spec fn reader_action(self, action: Action, f: Facts) -> RunView {
        let in_content = self.app.main_panel_is(MainPanel::Content);
        match action {
            Action::StartSearch => if in_content {
                self.emit(Effect::StartSearch)
            } else {
                self
            },
            Action::ToggleNormalMode => if in_content {
                self.emit(Effect::ToggleNormalMode)
            } else {
                self
            },
            Action::ParagraphBackward => self.emit(Effect::ScrollParagraphUp),
            Action::ParagraphForward => self.emit(Effect::ScrollParagraphDown),
            Action::PrevChapter => self.emit(Effect::NavigateChapter(ChapterDirection::Previous)),
            Action::NextChapter => self.emit(Effect::NavigateChapter(ChapterDirection::Next)),
            Action::GoTop => self.emit(Effect::GoTop).emit(Effect::SaveBookmark { force: false }),
            Action::GoBottom => if f.book_open {
                self.emit(Effect::GoBottom)
            } else {
                self
            },
            Action::JumpForward => self.emit(Effect::Perform(Task::JumpForward)),
            Action::JumpBackward => self.emit(Effect::Perform(Task::JumpBack)),
            Action::ToggleProfiling => self.emit(Effect::ToggleProfiling),
            Action::SwitchFocus => self.switch_focus(),
            Action::DeleteComment => self.delete_comment(f),
            Action::AddComment => if f.has_text_selection || f.visual_mode is Some {
                self.emit(Effect::StartCommentInput)
            } else {
                self
            },
            Action::CopySelection => self.emit(Effect::CopySelection),
            Action::FollowLink => self.emit(Effect::FollowLink),
            Action::ToggleHelp => self.open_window(PopupWindow::Help),
            Action::Cancel => self.cancel(f),
            Action::IncreaseMargin => self.emit(Effect::RememberPosition).emit(
                Effect::IncreaseMargin,
            ).emit(Effect::RestorePosition).emit(Effect::PersistMargin),
            Action::DecreaseMargin => self.emit(Effect::RememberPosition).emit(
                Effect::DecreaseMargin,
            ).emit(Effect::RestorePosition).emit(Effect::PersistMargin),
            Action::EnterVisualMode => self.emit(
                Effect::EnterVisualMode(VisualMode::CharacterWise),
            ),
            Action::EnterVisualLineMode => self.emit(
                Effect::EnterVisualMode(VisualMode::LineWise),
            ),
            Action::StartYank => self.emit(Effect::StartYank),
            Action::ToggleRawHtml => if in_content && f.book_open {
                self.emit(Effect::ToggleRawHtml)
            } else {
                self
            },
            Action::SetMark => self.pend_mark(PendingMarkOp::Assign),
            Action::GotoMark => self.pend_mark(PendingMarkOp::Goto),
            _ => self,
        }
    }

    /// What an action of the content does. Quitting saves the place first.
    pub open spec fn content_action(self, action: Action, f: Facts) -> (RunView, Option<AppAction>) {
        if let Some(how) = scroll_of(action, f.visible_height) {
            (self.scroll_text(how), None)
        } else if action == Action::Quit {
            (self.emit(Effect::SaveBookmark { force: true }), Some(AppAction::Quit))
        } else {
            (self.reader_action(action, f), None)
        }
    }
}

impl Run {
    pub(crate) fn set_pending_mark_op(&mut self, op: PendingMarkOp)
        ensures
            final(self)@ == old(self)@.pend_mark(op),
    {
        proof {
            reveal(RunView::pend_mark);
        }
        self.set_app(App { pending_mark_op: Some(op), ..self.app });
    }

    fn delete_comment_at_cursor(&mut self, f: &Facts)
        ensures
            final(self)@ == old(self)@.delete_comment(*f),
    {
        if !f.comment_input_active {
            self.emit(Effect::Perform(Task::DeleteCommentAtCursor));
        }
    }

    fn open_highlight_palette(&mut self, f: &Facts)
        ensures
            final(self)@ == old(self)@.open_palette(*f),
    {
        proof {
            reveal(RunView::open_palette);
        }
        self.set_app(
            App {
                highlight_palette_target: f.highlight_here,
                pending_highlight_palette: true,
                ..self.app
            },
        );
        if f.highlight_here.is_some() {
            self.emit(Effect::ShowHud(Hud::PaletteEdit));
        } else {
            self.emit(Effect::ShowHud(Hud::Palette));
        }
    }

    /// Executes an action of normal mode; false where it is none.
    pub(crate) fn dispatch_epub_normal_action(&mut self, action: Action, f: &Facts) -> (r: bool)
        ensures
            (final(self)@, r) == old(self)@.normal_action(action, *f),
    {
        if let Some(motion) = counted_motion_of(action) {
            self.emit(Effect::TakeCount);
            self.emit(Effect::Move { motion, times: f.count });
            return true;
        }
        if let Some(motion) = single_motion_of(action) {
            self.emit(Effect::ClearCount);
            self.emit(Effect::Move { motion, times: 1 });
            return true;
        }
        if let Some(page_motion) = page_motion_of(action) {
            self.emit(Effect::ClearCount);
            self.emit(Effect::MovePage { page_motion, height: f.visible_height });
            return true;
        }
        if let Some(motion) = find_motion_of(action) {
            self.emit(Effect::SetPendingFind(motion));
            return true;
        }
        match action {
            Action::SetMark => {
                self.set_pending_mark_op(PendingMarkOp::Assign);
                true
            },
            Action::GotoMark => {
                self.set_pending_mark_op(PendingMarkOp::Goto);
                true
            },
            Action::DeleteComment => {
                self.delete_comment_at_cursor(f);
                true
            },
            Action::OpenHighlightPalette => {
                self.emit(Effect::ClearCount);
                if f.visual_mode.is_some() || f.highlight_here.is_some() {
                    self.open_highlight_palette(f);
                } else {
                    self.emit(Effect::ShowHud(Hud::SelectTextFirst));
                }
                true
            },
            _ => false,
        }
    }

    pub(crate) fn scroll(&mut self, how: Scroll)
        ensures
            final(self)@ == old(self)@.scroll_text(how),
    {
        self.emit(Effect::ScrollText(how));
        self.emit(Effect::SaveBookmark { force: false });
        self.emit(Effect::UpdateTocState);
    }

    fn switch_focus(&mut self)
        ensures
            final(self)@ == old(self)@.switch_focus(),
    {
        if !self.app.has_active_popup() && !self.app.zen_mode {
            if self.app.is_main_panel(MainPanel::NavigationList) {
                self.emit(Effect::ClearManualNavigation);
                self.set_main_panel_focus(MainPanel::Content);
            } else {
                self.set_main_panel_focus(MainPanel::NavigationList);
            }
        }
    }

    fn cancel(&mut self, f: &Facts)
        ensures
            final(self)@ == old(self)@.cancel(*f),
    {
        if f.has_notification {
            self.emit(Effect::DismissNotification);
        } else if f.has_text_selection {
            self.emit(Effect::ClearSelection);
        } else if f.is_in_search_mode() {
            self.cancel_current_search(f);
        }
    }

    fn dispatch_reader_action(&mut self, action: Action, f: &Facts)
        ensures
            final(self)@ == old(self)@.reader_action(action, *f),
    {
        let in_content = self.app.is_main_panel(MainPanel::Content);
        match action {
            Action::StartSearch => {
                if in_content {
                    self.emit(Effect::StartSearch);
                }
            },
            Action::ToggleNormalMode => {
                if in_content {
                    self.emit(Effect::ToggleNormalMode);
                }
            },
            Action::ParagraphBackward => {
                self.emit(Effect::ScrollParagraphUp);
            },
            Action::ParagraphForward => {
                self.emit(Effect::ScrollParagraphDown);
            },
            Action::PrevChapter => {
                self.emit(Effect::NavigateChapter(ChapterDirection::Previous));
            },
            Action::NextChapter => {
                self.emit(Effect::NavigateChapter(ChapterDirection::Next));
            },
            Action::GoTop => {
                self.emit(Effect::GoTop);
                self.emit(Effect::SaveBookmark { force: false });
            },
            Action::GoBottom => {
                if f.book_open {
                    self.emit(Effect::GoBottom);
                }
            },
            Action::JumpForward => {
                self.emit(Effect::Perform(Task::JumpForward));
            },
            Action::JumpBackward => {
                self.emit(Effect::Perform(Task::JumpBack));
            },
            Action::ToggleProfiling => {
                self.emit(Effect::ToggleProfiling);
            },
            Action::SwitchFocus => {
                self.switch_focus();
            },
            Action::DeleteComment => {
                self.delete_comment_at_cursor(f);
            },
            Action::AddComment => {
                if f.has_text_selection || f.visual_mode.is_some() {
                    self.emit(Effect::StartCommentInput);
                }
            },
            Action::CopySelection => {
                self.emit(Effect::CopySelection);
            },
            Action::FollowLink => {
                self.emit(Effect::FollowLink);
            },
            Action::ToggleHelp => {
                self.open_window(PopupWindow::Help);
            },
            Action::Cancel => {
                self.cancel(f);
            },
            Action::IncreaseMargin => {
                self.emit(Effect::RememberPosition);
                self.emit(Effect::IncreaseMargin);
                self.emit(Effect::RestorePosition);
                self.emit(Effect::PersistMargin);
            },
            Action::DecreaseMargin => {
                self.emit(Effect::RememberPosition);
                self.emit(Effect::DecreaseMargin);
                self.emit(Effect::RestorePosition);
                self.emit(Effect::PersistMargin);
            },
            Action::EnterVisualMode => {
                self.emit(Effect::EnterVisualMode(VisualMode::CharacterWise));
            },
            Action::EnterVisualLineMode => {
                self.emit(Effect::EnterVisualMode(VisualMode::LineWise));
            },
            Action::StartYank => {
                self.emit(Effect::StartYank);
            },
            Action::ToggleRawHtml => {
                if in_content && f.book_open {
                    self.emit(Effect::ToggleRawHtml);
                }
            },
            Action::SetMark => {
                self.set_pending_mark_op(PendingMarkOp::Assign);
            },
            Action::GotoMark => {
                self.set_pending_mark_op(PendingMarkOp::Goto);
            },
            _ => {},
        }
    }

    /// Executes an action of the content.
    pub(crate) fn dispatch_epub_content_action(&mut self, action: Action, f: &Facts) -> (r: Option<
        AppAction,
    >)
        ensures
            (final(self)@, r) == old(self)@.content_action(action, *f),
    {
        if let Some(how) = scroll_for(action, f.visible_height) {
            self.scroll(how);
            return None;
        }
        if action == Action::Quit {
            self.emit(Effect::SaveBookmark { force: true });
            return Some(AppAction::Quit);
        }
        self.dispatch_reader_action(action, f);
        None
    }
}

impl App {
    /// Scrolls the text and notes the place.
    fn scrolled(&mut self, how: Scroll) -> (r: Vec<Effect>)
        ensures
            *final(self) == RunView::start(*old(self)).scroll_text(how).app,
            r@ == RunView::start(*old(self)).scroll_text(how).out,
    {
        let mut run = Run::start(*self);
        run.scroll(how);
        *self = run.app;
        run.out
    }

    /// Scrolls one line down.
    pub fn scroll_down(&mut self) -> (r: Vec<Effect>)
        ensures
            *final(self) == RunView::start(*old(self)).scroll_text(Scroll::Down).app,
            r@ == RunView::start(*old(self)).scroll_text(Scroll::Down).out,
    {
        self.scrolled(Scroll::Down)
    }

    /// Scrolls one line up.
    pub fn scroll_up(&mut self) -> (r: Vec<Effect>)
        ensures
            *final(self) == RunView::start(*old(self)).scroll_text(Scroll::Up).app,
            r@ == RunView::start(*old(self)).scroll_text(Scroll::Up).out,
    {
        self.scrolled(Scroll::Up)
    }

    /// Scrolls half a screen down.
    pub fn scroll_half_screen_down(&mut self, screen_height: usize) -> (r: Vec<Effect>)
        ensures
            *final(self) == RunView::start(*old(self)).scroll_text(
                Scroll::HalfScreenDown(screen_height),
            ).app,
            r@ == RunView::start(*old(self)).scroll_text(
                Scroll::HalfScreenDown(screen_height),
            ).out,
    {
        self.scrolled(Scroll::HalfScreenDown(screen_height))
    }

    /// Executes an action of normal mode.
    pub fn dispatch_epub_normal_action(&mut self, action: Action, f: &Facts) -> (r: (
        bool,
        Vec<Effect>,
    ))
        ensures
            ({
                let (run, done) = RunView::start(*old(self)).normal_action(action, *f);
                &&& *final(self) == run.app
                &&& r.1@ == run.out
                &&& r.0 == done
            }),
    {
        let mut run = Run::start(*self);
        let done = run.dispatch_epub_normal_action(action, f);
        *self = run.app;
        (done, run.out)
    }

    /// Executes an action of the content.
    pub fn dispatch_epub_content_action(&mut self, action: Action, f: &Facts) -> (r: (
        Option<AppAction>,
        Vec<Effect>,
    ))
        ensures
            ({
                let (run, asked) = RunView::start(*old(self)).content_action(action, *f);
                &&& *final(self) == run.app
                &&& r.1@ == run.out
                &&& r.0 == asked
            }),
    {
        let mut run = Run::start(*self);
        let asked = run.dispatch_epub_content_action(action, f);
        *self = run.app;
        (asked, run.out)
    }
}

// ---------------------------------------------------------------------------------------------
// Laws
// ---------------------------------------------------------------------------------------------
pub(crate) proof fn lemma_pend_mark(r: RunView, op: PendingMarkOp)
    ensures
        sound(r) ==> sound(r.pend_mark(op)),
        extends(r, r.pend_mark(op)),
        r.pend_mark(op).out == r.out,
{
    reveal(RunView::pend_mark);
    reveal(RunView::to);
    reveal(sound);
    reveal(extends);
}

pub(crate) proof fn lemma_open_palette(r: RunView, f: Facts)
    ensures
        sound(r) ==> sound(r.open_palette(f)),
        extends(r, r.open_palette(f)),
{
    reveal(RunView::open_palette);
    reveal(RunView::to);
    reveal(RunView::emit);
    reveal(sound);
    reveal(extends);
}

/// Actions of normal mode keep the focus where it is sound.
pub proof fn law_normal_action_is_sound(r: RunView, action: Action, f: Facts)
    requires
        sound(r),
    ensures
        sound(r.normal_action(action, f).0),
{
    broadcast use group_run_sound;

    lemma_pend_mark(r, PendingMarkOp::Assign);
    lemma_pend_mark(r, PendingMarkOp::Goto);
    lemma_open_palette(r.emit(Effect::ClearCount), f);
}

/// Actions of the content keep the focus where it is sound.
pub proof fn law_content_action_is_sound(r: RunView, action: Action, f: Facts)
    requires
        sound(r),
    ensures
        sound(r.content_action(action, f).0),
{
    broadcast use group_run_sound;

    lemma_pend_mark(r, PendingMarkOp::Assign);
    lemma_pend_mark(r, PendingMarkOp::Goto);
}

/// The content asks to quit on the quit action alone, and then the place has just been saved, whatever
/// the throttle says.
pub proof fn law_quitting_saves_the_place(r: RunView, action: Action, f: Facts)
    ensures
        r.content_action(action, f).1 is Some <==> action == Action::Quit,
        action == Action::Quit ==> r.content_action(action, f).0.out == r.out.push(
            Effect::SaveBookmark { force: true },
        ),
{
    reveal(RunView::emit);
}

/// Switching the focus twice between the main panels comes back.
pub proof fn law_switching_focus_twice_comes_back(r: RunView)
    requires
        r.app.focused_panel is Main,
    ensures
        r.switch_focus().switch_focus().app.focused_panel == r.app.focused_panel,
        r.app.zen_mode ==> r.switch_focus() == r,
        !r.app.zen_mode ==> r.switch_focus().app.focused_panel != r.app.focused_panel,
{
    reveal(RunView::emit);
    reveal(RunView::focus_main);
    reveal(RunView::to);
}

} // verus!
