//! The mouse: clicks, drags and scrolling.
use vstd::prelude::*;

use crate::inputs::event::{MouseButton, MouseEvent, MouseEventKind};
use crate::main_app::global_actions::law_global_action_keeps_focus_on_a_window;
use crate::main_app::state::{group_run_sound, sound};
use crate::main_app::state::{
    Action, App, Effect, Facts, FocusedPanel, MainPanel, NavigationPanelAction, PopupWindow, Run,
    RunView, Scroll, SettingsAction, Task, WindowReply,
};
use crate::main_app::windows::{
    law_navigation_is_sound, law_settings_are_sound, lemma_drop_from_main_sound,
    lemma_show_panel_sound,
};

verus! {

/// How often a place was clicked in quick succession.
#[derive(Debug, Clone, Copy, PartialEq, Eq, Structural)]
pub enum ClickType {
    Single,
    Double,
    Triple,
}

/// What a click falls on.
#[derive(Debug, Clone, Copy, PartialEq, Eq, Structural)]
pub enum ClickTarget {
    History,
    Stats,
    Comments,
    Settings,
    Navigation,
    Content,
}

/// How the handling of a mouse event goes on.
#[derive(Debug, Clone, Copy, PartialEq, Eq, Structural)]
pub enum MouseNext {
    Done,
    /// Tell how often the place was clicked and what the target makes of it.
    Click(ClickTarget),
}

/// What is known of a place when it is pressed.
#[derive(Debug, Clone, Copy, PartialEq, Eq, Structural)]
pub struct PressFacts {
    /// The button of the help bar there.
    pub help_button: Option<Action>,
    /// Whether the place lies outside the window in focus.
    pub outside_window: bool,
}

/// What is known of a click once its target has seen it.
#[derive(Debug, Clone, Copy, PartialEq, Eq, Structural)]
pub struct ClickFacts {
    pub click: ClickType,
    /// Whether the target has something at the place.
    pub hit: bool,
    /// What the history asks for with its selected entry.
    pub history: WindowReply,
    /// The chapter selected in the statistics.
    pub chapter: Option<usize>,
    /// Whether a comment is selected, and the node that it is on.
    pub comment: Option<usize>,
    pub settings: Option<SettingsAction>,
    /// Whether a section of the table of contents was opened or closed.
    pub expansion_toggled: bool,
    /// What entering the selected entry of the navigation panel asks for.
    pub enter: Option<NavigationPanelAction>,
    pub image: bool,
    pub link: bool,
}

impl App {
    /// Whether a column lies on the border between the two main panels.
    pub open spec fn on_border(self, column: u16) -> bool {
        let border = self.nav_width();
        !self.zen_mode && border > 0 && (column == border - 1 || column == border)
    }

    /// Whether a column lies on the border between the two main panels.
    pub fn is_on_border(&self, column: u16) -> (r: bool)
        ensures
            r == self.on_border(column),
    {
        let border: u16 = self.nav_panel_width();
        !self.zen_mode && border > 0 && (column == border - 1 || column == border)
    }
}

impl RunView {
    /// Whether the border between the main panels is being dragged.
    #[verifier::opaque]
    pub open spec fn hold_border(self, held: bool) -> RunView {
        self.to(App { resizing_nav_panel: held, ..self.app })
    }

    /// The border dragged to a column.
    #[verifier::opaque]
    pub open spec fn drag_border(self, column: u16, f: Facts) -> RunView {
        let r = self.to(self.app.with_width(column as int));
        if f.pdf_open {
            r.emit(Effect::PdfViewportWidthChanged)
        } else {
            r
        }
    }

    /// A window dropped by a click outside of it.
    pub open spec fn dismiss_window(self, w: PopupWindow) -> RunView {
        self.drop_window(w).close_popup()
    }

    /// The left button pressed on a window, where that window takes the press.
    pub open spec fn press_on_window(self, w: PopupWindow, p: PressFacts) -> Option<
        (RunView, MouseNext),
    > {
        match w {
            PopupWindow::ImagePopup | PopupWindow::Help => if self.app.windows.has(w)
                && p.outside_window {
                Some((self.dismiss_window(w), MouseNext::Done))
            } else {
                Some((self, MouseNext::Done))
            },
            PopupWindow::ReadingHistory => if !self.app.windows.reading_history {
                Some((self, MouseNext::Done))
            } else if p.outside_window {
                Some((self.dismiss_window(w), MouseNext::Done))
            } else {
                Some((self, MouseNext::Click(ClickTarget::History)))
            },
            PopupWindow::BookStats => if p.outside_window {
                Some((self.emit(Effect::HideStats).close_popup(), MouseNext::Done))
            } else {
                Some((self, MouseNext::Click(ClickTarget::Stats)))
            },
            PopupWindow::CommentsViewer => if !self.app.windows.comments_viewer {
                Some((self, MouseNext::Done))
            } else if p.outside_window {
                Some((self.emit(Effect::SaveCommentsPosition).dismiss_window(w), MouseNext::Done))
            } else {
                Some((self, MouseNext::Click(ClickTarget::Comments)))
            },
            PopupWindow::Settings => if !self.app.windows.settings_popup {
                Some((self, MouseNext::Done))
            } else if p.outside_window {
                Some((self.dismiss_window(w), MouseNext::Done))
            } else {
                Some((self, MouseNext::Click(ClickTarget::Settings)))
            },
            PopupWindow::Lookup => if self.app.windows.lookup_popup && p.outside_window {
                Some((self.leave_lookup(), MouseNext::Done))
            } else {
                Some((self, MouseNext::Done))
            },
            PopupWindow::MarksList | PopupWindow::BookSearch | PopupWindow::KeybindingErrors =>
                None,
        }
    }

    /// The left button pressed on a main panel.
    pub open spec fn press_on_panel(self, column: u16) -> (RunView, MouseNext) {
        if column < self.app.nav_width() {
            (
                self.show_panel(MainPanel::NavigationList).emit(Effect::ClearSelection),
                MouseNext::Click(ClickTarget::Navigation),
            )
        } else if !self.app.main_panel_is(MainPanel::Content) {
            (
                self.show_panel(MainPanel::Content).emit(Effect::ClearManualNavigation),
                MouseNext::Click(ClickTarget::Content),
            )
        } else {
            (self, MouseNext::Click(ClickTarget::Content))
        }
    }

    /// The left button pressed behind the help bar.
    pub open spec fn press_on_view(self, column: u16, p: PressFacts) -> (RunView, MouseNext) {
        if !self.app.popup_active() && self.app.on_border(column) {
            (self.hold_border(true), MouseNext::Done)
        } else {
            match self.app.focused_panel {
                FocusedPanel::Popup(w) => match self.press_on_window(w, p) {
                    Some(turn) => turn,
                    None => self.press_on_panel(column),
                },
                FocusedPanel::Main(_) => self.press_on_panel(column),
            }
        }
    }

    /// The left button pressed: the help bar first, then the border of the panels, the window in
    /// focus, and the panel under the mouse.
    pub open spec fn mouse_press(self, column: u16, p: PressFacts, f: Facts) -> (
        RunView,
        MouseNext,
    ) {
        match p.help_button {
            Some(action) => {
                let (r, done) = self.global_action(action, f);
                if done {
                    (r, MouseNext::Done)
                } else {
                    r.press_on_view(column, p)
                }
            },
            None => self.press_on_view(column, p),
        }
    }

    /// A mouse event that is no scrolling.
    pub open spec fn mouse_event(self, ev: MouseEvent, p: PressFacts, f: Facts) -> (
        RunView,
        MouseNext,
    ) {
        let in_text = !self.app.popup_active() && ev.column >= self.app.nav_width();
        match ev.kind {
            MouseEventKind::Down(MouseButton::Left) => self.mouse_press(ev.column, p, f),
            MouseEventKind::Up(MouseButton::Left) => if self.app.resizing_nav_panel {
                (self.hold_border(false).emit(Effect::PersistNavWidth), MouseNext::Done)
            } else if in_text {
                (
                    self.emit(Effect::TextMouseUp { column: ev.column, row: ev.row }),
                    MouseNext::Done,
                )
            } else {
                (self, MouseNext::Done)
            },
            MouseEventKind::Drag(MouseButton::Left) => if self.app.resizing_nav_panel {
                (self.drag_border(ev.column, f), MouseNext::Done)
            } else if in_text {
                (
                    self.emit(
                        Effect::Perform(Task::DragText { column: ev.column, row: ev.row }),
                    ),
                    MouseNext::Done,
                )
            } else {
                (self, MouseNext::Done)
            },
            _ => (self, MouseNext::Done),
        }
    }

    /// What a click does once its target has seen it.
    pub open spec fn mouse_click(
        self,
        target: ClickTarget,
        ev: MouseEvent,
        c: ClickFacts,
        f: Facts,
    ) -> RunView {
        let double = c.click == ClickType::Double;
        match target {
            ClickTarget::History => if double {
                self.history_reply(c.history)
            } else {
                self
            },
            ClickTarget::Stats => match c.chapter {
                Some(chapter) => if double && c.hit {
                    self.emit(Effect::HideStats).focus_main(MainPanel::Content).emit(
                        Effect::NavigateTo { chapter },
                    )
                } else {
                    self
                },
                None => self,
            },
            ClickTarget::Comments => match c.comment {
                Some(node) => if double && c.hit {
                    self.emit(Effect::SaveCommentsPosition).dismiss_window(
                        PopupWindow::CommentsViewer,
                    ).focus_main(MainPanel::Content).emit(Effect::RestoreNode(node)).emit(
                        Effect::Perform(Task::GoToComment),
                    )
                } else {
                    self
                },
                None => self,
            },
            ClickTarget::Settings => match c.settings {
                Some(action) => self.settings_action(action, f),
                None => self,
            },
            ClickTarget::Navigation => {
                let r = if c.expansion_toggled {
                    self.emit(Effect::PersistTocExpansion)
                } else {
                    self
                };
                match c.enter {
                    Some(action) => if double && c.hit {
                        r.navigation_action(action, f).0
                    } else {
                        r
                    },
                    None => r,
                }
            },
            ClickTarget::Content => match c.click {
                ClickType::Single => if !c.image {
                    self.emit(Effect::TextMouseDown { column: ev.column, row: ev.row })
                } else if c.link && !ev.modifiers.control {
                    self.emit(Effect::FollowClickedLink)
                } else {
                    self.emit(Effect::OpenClickedImage)
                },
                ClickType::Double => self.emit(
                    Effect::TextDoubleClick { column: ev.column, row: ev.row },
                ),
                ClickType::Triple => self.emit(
                    Effect::TextTripleClick { column: ev.column, row: ev.row },
                ),
            },
        }
    }

    /// The text scrolled `n` times.
    pub open spec fn scroll_times(self, how: Scroll, n: nat) -> RunView
        decreases n,
    {
        if n == 0 {
            self
        } else {
            self.scroll_times(how, (n - 1) as nat).scroll_text(how)
        }
    }

    /// The wheel turned by an amount, down where it is positive; at most ten steps count. A window in
    /// focus scrolls where it can; else the panel under the mouse does.
    pub open spec fn wheel(self, amount: int, column: u16, f: Facts) -> RunView {
        let turned = if f.invert_scroll {
            -amount
        } else {
            amount
        };
        let down = turned > 0;
        let steps = wheel_steps(turned);
        if turned == 0 {
            self
        } else {
            match self.app.focused_panel {
                FocusedPanel::Popup(w) => if w == PopupWindow::CommentsViewer {
                    if self.app.windows.comments_viewer {
                        self.emit(
                            Effect::ScrollComments {
                                column,
                                amount: turned as i32,
                                down,
                                steps: steps as u32,
                            },
                        )
                    } else {
                        self
                    }
                } else if scrolls(w) && self.app.windows.has(w) {
                    self.emit(Effect::ScrollWindow { window: w, down, steps: steps as u32 })
                } else {
                    self
                },
                FocusedPanel::Main(_) => if column < self.app.nav_width() {
                    self.emit(
                        Effect::ScrollNavigation {
                            down,
                            steps: steps as u32,
                            rows: if self.app.terminal_size.height < 2 {
                                0
                            } else {
                                (self.app.terminal_size.height - 2) as u16
                            },
                        },
                    )
                } else if down {
                    self.scroll_times(Scroll::Down, steps)
                } else {
                    self.scroll_times(Scroll::Up, steps)
                },
            }
        }
    }
}

/// The steps that an amount of scrolling makes: its size, but at most ten.
pub open spec fn wheel_steps(turned: int) -> nat {
    let size: nat = if turned < 0 {
        (-turned) as nat
    } else {
        turned as nat
    };
    if size > 10 {
        10
    } else {
        size
    }
}

/// Whether a window scrolls line by line with the wheel.
pub open spec fn scrolls(w: PopupWindow) -> bool {
    w == PopupWindow::BookSearch || w == PopupWindow::Help || w == PopupWindow::BookStats || w
        == PopupWindow::ReadingHistory || w == PopupWindow::Lookup
}

impl Run {
    fn hold_border(&mut self, held: bool)
        ensures
            final(self)@ == old(self)@.hold_border(held),
    {
        proof {
            reveal(RunView::hold_border);
        }
        self.set_app(App { resizing_nav_panel: held, ..self.app });
    }

    fn drag_border(&mut self, column: u16, f: &Facts)
        ensures
            final(self)@ == old(self)@.drag_border(column, *f),
    {
        proof {
            reveal(RunView::drag_border);
        }
        let mut app = self.app;
        app.choose_width(column as i32);
        self.set_app(app);
        if f.pdf_open {
            self.emit(Effect::PdfViewportWidthChanged);
        }
    }

    fn dismiss_window(&mut self, w: PopupWindow)
        ensures
            final(self)@ == old(self)@.dismiss_window(w),
    {
        self.drop_window(w);
        self.close_popup_to_previous();
    }

    fn press_on_window(&mut self, w: PopupWindow, p: &PressFacts) -> (r: Option<MouseNext>)
        ensures
            match old(self)@.press_on_window(w, *p) {
                Some(turn) => r == Some(turn.1) && final(self)@ == turn.0,
                None => r is None && final(self)@ == old(self)@,
            },
    {
        match w {
            PopupWindow::ImagePopup | PopupWindow::Help => {
                if self.app.windows.is_there(w) && p.outside_window {
                    self.dismiss_window(w);
                }
                Some(MouseNext::Done)
            },
            PopupWindow::ReadingHistory => {
                if !self.app.windows.reading_history {
                    Some(MouseNext::Done)
                } else if p.outside_window {
                    self.dismiss_window(w);
                    Some(MouseNext::Done)
                } else {
                    Some(MouseNext::Click(ClickTarget::History))
                }
            },
            PopupWindow::BookStats => {
                if p.outside_window {
                    self.emit(Effect::HideStats);
                    self.close_popup_to_previous();
                    Some(MouseNext::Done)
                } else {
                    Some(MouseNext::Click(ClickTarget::Stats))
                }
            },
            PopupWindow::CommentsViewer => {
                if !self.app.windows.comments_viewer {
                    Some(MouseNext::Done)
                } else if p.outside_window {
                    self.emit(Effect::SaveCommentsPosition);
                    self.dismiss_window(w);
                    Some(MouseNext::Done)
                } else {
                    Some(MouseNext::Click(ClickTarget::Comments))
                }
            },
            PopupWindow::Settings => {
                if !self.app.windows.settings_popup {
                    Some(MouseNext::Done)
                } else if p.outside_window {
                    self.dismiss_window(w);
                    Some(MouseNext::Done)
                } else {
                    Some(MouseNext::Click(ClickTarget::Settings))
                }
            },
            PopupWindow::Lookup => {
                if self.app.windows.lookup_popup && p.outside_window {
                    self.leave_lookup();
                }
                Some(MouseNext::Done)
            },
            PopupWindow::MarksList | PopupWindow::BookSearch | PopupWindow::KeybindingErrors =>
                None,
        }
    }

    fn press_on_panel(&mut self, column: u16) -> (r: MouseNext)
        ensures
            (final(self)@, r) == old(self)@.press_on_panel(column),
    {
        if column < self.app.nav_panel_width() {
            self.show_panel(MainPanel::NavigationList);
            self.emit(Effect::ClearSelection);
            MouseNext::Click(ClickTarget::Navigation)
        } else {
            if !self.app.is_main_panel(MainPanel::Content) {
                self.show_panel(MainPanel::Content);
                self.emit(Effect::ClearManualNavigation);
            }
            MouseNext::Click(ClickTarget::Content)
        }
    }

    fn press_on_view(&mut self, column: u16, p: &PressFacts) -> (r: MouseNext)
        ensures
            (final(self)@, r) == old(self)@.press_on_view(column, *p),
    {
        if !self.app.has_active_popup() && self.app.is_on_border(column) {
            self.hold_border(true);
            return MouseNext::Done;
        }
        if let FocusedPanel::Popup(w) = self.app.focused_panel {
            if let Some(next) = self.press_on_window(w, p) {
                return next;
            }
        }
        self.press_on_panel(column)
    }

    fn mouse_press(&mut self, column: u16, p: &PressFacts, f: &Facts) -> (r: MouseNext)
        ensures
            (final(self)@, r) == old(self)@.mouse_press(column, *p, *f),
    {
        if let Some(action) = p.help_button {
            if self.dispatch_global_action(action, f) {
                return MouseNext::Done;
            }
        }
        self.press_on_view(column, p)
    }

    fn mouse_event(&mut self, ev: MouseEvent, p: &PressFacts, f: &Facts) -> (r: MouseNext)
        ensures
            (final(self)@, r) == old(self)@.mouse_event(ev, *p, *f),
    {
        let in_text = !self.app.has_active_popup() && ev.column >= self.app.nav_panel_width();
        match ev.kind {
            MouseEventKind::Down(MouseButton::Left) => self.mouse_press(ev.column, p, f),
            MouseEventKind::Up(MouseButton::Left) => {
                if self.app.resizing_nav_panel {
                    self.hold_border(false);
                    self.emit(Effect::PersistNavWidth);
                } else if in_text {
                    self.emit(Effect::TextMouseUp { column: ev.column, row: ev.row });
                }
                MouseNext::Done
            },
            MouseEventKind::Drag(MouseButton::Left) => {
                if self.app.resizing_nav_panel {
                    self.drag_border(ev.column, f);
                } else if in_text {
                    self.emit(Effect::Perform(Task::DragText { column: ev.column, row: ev.row }));
                }
                MouseNext::Done
            },
            _ => MouseNext::Done,
        }
    }

    fn mouse_click(&mut self, target: ClickTarget, ev: MouseEvent, c: &ClickFacts, f: &Facts)
        ensures
            final(self)@ == old(self)@.mouse_click(target, ev, *c, *f),
    {
        let double = c.click == ClickType::Double;
        match target {
            ClickTarget::History => {
                if double {
                    self.handle_reading_history_action(c.history);
                }
            },
            ClickTarget::Stats => {
                if let Some(chapter) = c.chapter {
                    if double && c.hit {
                        self.emit(Effect::HideStats);
                        self.set_main_panel_focus(MainPanel::Content);
                        self.emit(Effect::NavigateTo { chapter });
                    }
                }
            },
            ClickTarget::Comments => {
                if let Some(node) = c.comment {
                    if double && c.hit {
                        self.emit(Effect::SaveCommentsPosition);
                        self.dismiss_window(PopupWindow::CommentsViewer);
                        self.set_main_panel_focus(MainPanel::Content);
                        self.emit(Effect::RestoreNode(node));
                        self.emit(Effect::Perform(Task::GoToComment));
                    }
                }
            },
            ClickTarget::Settings => {
                if let Some(action) = c.settings {
                    self.handle_settings_action(action, f);
                }
            },
            ClickTarget::Navigation => {
                if c.expansion_toggled {
                    self.emit(Effect::PersistTocExpansion);
                }
                if let Some(action) = c.enter {
                    if double && c.hit {
                        let _ = self.handle_navigation_panel_action(action, f);
                    }
                }
            },
            ClickTarget::Content => {
                match c.click {
                    ClickType::Single => {
                        if !c.image {
                            self.emit(Effect::TextMouseDown { column: ev.column, row: ev.row });
                        } else if c.link && !ev.modifiers.control {
                            self.emit(Effect::FollowClickedLink);
                        } else {
                            self.emit(Effect::OpenClickedImage);
                        }
                    },
                    ClickType::Double => {
                        self.emit(Effect::TextDoubleClick { column: ev.column, row: ev.row });
                    },
                    ClickType::Triple => {
                        self.emit(Effect::TextTripleClick { column: ev.column, row: ev.row });
                    },
                }
            },
        }
    }

    fn scroll_times(&mut self, how: Scroll, n: u32)
        ensures
            final(self)@ == old(self)@.scroll_times(how, n as nat),
    {
        let mut i: u32 = 0;
        let ghost start = self@;
        while i < n
            invariant
                i <= n,
                self@ == start.scroll_times(how, i as nat),
            decreases n - i,
        {
            self.scroll(how);
            i += 1;
        }
    }

    fn apply_scroll(&mut self, amount: i32, column: u16, f: &Facts)
        requires
            amount > i32::MIN,
        ensures
            final(self)@ == old(self)@.wheel(amount as int, column, *f),
    {
        let turned: i32 = if f.invert_scroll {
            -amount
        } else {
            amount
        };
        if turned == 0 {
            return ;
        }
        let down = turned > 0;
        let size: i32 = if turned < 0 {
            -turned
        } else {
            turned
        };
        let steps: u32 = if size > 10 {
            10
        } else {
            size as u32
        };
        match self.app.focused_panel {
            FocusedPanel::Popup(w) => {
                if w == PopupWindow::CommentsViewer {
                    if self.app.windows.comments_viewer {
                        self.emit(Effect::ScrollComments { column, amount: turned, down, steps });
                    }
                } else if (w == PopupWindow::BookSearch || w == PopupWindow::Help || w
                    == PopupWindow::BookStats || w == PopupWindow::ReadingHistory || w
                    == PopupWindow::Lookup) && self.app.windows.is_there(w) {
                    self.emit(Effect::ScrollWindow { window: w, down, steps });
                }
            },
            FocusedPanel::Main(_) => {
                if column < self.app.nav_panel_width() {
                    let rows: u16 = self.app.terminal_size.height.saturating_sub(2);
                    self.emit(Effect::ScrollNavigation { down, steps, rows });
                } else if down {
                    self.scroll_times(Scroll::Down, steps);
                } else {
                    self.scroll_times(Scroll::Up, steps);
                }
            },
        }
    }
}

impl App {
    /// Handles a mouse event that is no scrolling.
    pub fn handle_non_scroll_mouse_event(&mut self, ev: MouseEvent, p: &PressFacts, f: &Facts) -> (r: (
        MouseNext,
        Vec<Effect>,
    ))
        ensures
            ({
                let (run, next) = RunView::start(*old(self)).mouse_event(ev, *p, *f);
                &&& *final(self) == run.app
                &&& r.1@ == run.out
                &&& r.0 == next
            }),
    {
        let mut run = Run::start(*self);
        let next = run.mouse_event(ev, p, f);
        *self = run.app;
        (next, run.out)
    }

    /// Goes on with a click that its target has seen.
    pub fn handle_click(
        &mut self,
        target: ClickTarget,
        ev: MouseEvent,
        c: &ClickFacts,
        f: &Facts,
    ) -> (r: Vec<Effect>)
        ensures
            *final(self) == RunView::start(*old(self)).mouse_click(target, ev, *c, *f).app,
            r@ == RunView::start(*old(self)).mouse_click(target, ev, *c, *f).out,
    {
        let mut run = Run::start(*self);
        run.mouse_click(target, ev, c, f);
        *self = run.app;
        run.out
    }

    /// Scrolls by an amount, down where it is positive.
    pub fn apply_scroll(&mut self, amount: i32, column: u16, f: &Facts) -> (r: Vec<Effect>)
        requires
            amount > i32::MIN,
        ensures
            *final(self) == RunView::start(*old(self)).wheel(amount as int, column, *f).app,
            r@ == RunView::start(*old(self)).wheel(amount as int, column, *f).out,
    {
        let mut run = Run::start(*self);
        run.apply_scroll(amount, column, f);
        *self = run.app;
        run.out
    }

    /// Opens the image window.
    pub fn image_opened(&mut self) -> (r: Vec<Effect>)
        ensures
            ({
                let run = RunView::start(*old(self)).remember_panel().open_window(
                    PopupWindow::ImagePopup,
                );
                &&& *final(self) == run.app
                &&& r@ == run.out
            }),
    {
        let mut run = Run::start(*self);
        run.remember_panel();
        run.open_window(PopupWindow::ImagePopup);
        *self = run.app;
        run.out
    }
}

// ---------------------------------------------------------------------------------------------
// Scroll events taken together
// ---------------------------------------------------------------------------------------------
/// How many scroll events are taken together at most behind the first.
pub const MAX_DRAIN_ITERATIONS: u32 = 50;

/// How long scroll events are taken together, in nanoseconds.
pub const MAX_DRAIN_NANOS: u128 = 100_000_000;

/// Scroll events that are applied as one.
#[derive(Debug, Clone, Copy, PartialEq, Eq, Structural)]
pub struct ScrollBatch {
    pub down: u32,
    pub up: u32,
    pub drained: u32,
}

/// What an event behind scroll events leads to.
#[derive(Debug, Clone, Copy, PartialEq, Eq, Structural)]
pub enum BatchStep {
    /// The event was taken; there may be more.
    Continue,
    /// No more events are taken.
    Stop,
    /// No more events are taken, and this one is handled by itself.
    Handle(MouseEvent),
}

impl ScrollBatch {
    /// Whether the counts fit the events taken: the first one, and those drained behind it.
    pub open spec fn wf(self) -> bool {
        self.down + self.up <= self.drained + 1 && self.drained <= MAX_DRAIN_ITERATIONS
    }

    /// The lines to scroll, down where positive.
    pub open spec fn total(self) -> int {
        self.down as int - self.up as int
    }

    /// A batch of one scroll event.
    pub fn start(kind: MouseEventKind) -> (r: ScrollBatch)
        ensures
            r.wf(),
            r.drained == 0,
            r.total() == scroll_of_kind(kind),
    {
        match kind {
            MouseEventKind::ScrollDown => ScrollBatch { down: 1, up: 0, drained: 0 },
            MouseEventKind::ScrollUp => ScrollBatch { down: 0, up: 1, drained: 0 },
            _ => ScrollBatch { down: 0, up: 0, drained: 0 },
        }
    }

    /// Whether another event may be read.
    pub fn wants_more(&self) -> (r: bool)
        ensures
            r == (self.drained < MAX_DRAIN_ITERATIONS),
    {
        self.drained < MAX_DRAIN_ITERATIONS
    }

    /// Notes that an event waits; false where the batch has gone on for too long to read it.
    pub fn begin(&mut self, elapsed_nanos: u128) -> (r: bool)
        requires
            old(self).wf(),
            old(self).drained < MAX_DRAIN_ITERATIONS,
        ensures
            final(self).wf(),
            *final(self) == (ScrollBatch { drained: (old(self).drained + 1) as u32, ..*old(self) }),
            r == (elapsed_nanos <= MAX_DRAIN_NANOS),
    {
        self.drained = self.drained + 1;
        elapsed_nanos <= MAX_DRAIN_NANOS
    }

    /// Takes a mouse event that was read.
    pub fn take(&mut self, ev: MouseEvent) -> (r: BatchStep)
        requires
            old(self).wf(),
            old(self).down + old(self).up <= old(self).drained,
        ensures
            final(self).wf(),
            final(self).drained == old(self).drained,
            final(self).total() == old(self).total() + scroll_of_kind(ev.kind),
            r == (match ev.kind {
                MouseEventKind::ScrollDown | MouseEventKind::ScrollUp => BatchStep::Continue,
                MouseEventKind::ScrollLeft | MouseEventKind::ScrollRight => BatchStep::Stop,
                _ => BatchStep::Handle(ev),
            }),
    {
        match ev.kind {
            MouseEventKind::ScrollDown => {
                self.down = self.down + 1;
                BatchStep::Continue
            },
            MouseEventKind::ScrollUp => {
                self.up = self.up + 1;
                BatchStep::Continue
            },
            MouseEventKind::ScrollLeft | MouseEventKind::ScrollRight => BatchStep::Stop,
            _ => BatchStep::Handle(ev),
        }
    }

    /// The lines to scroll, down where positive.
    pub fn net(&self) -> (r: i32)
        requires
            self.wf(),
        ensures
            r == self.total(),
            -51 <= r <= 51,
    {
        self.down as i32 - self.up as i32
    }
}

/// The line that a mouse event scrolls: one down, one up, or none.
pub open spec fn scroll_of_kind(kind: MouseEventKind) -> int {
    match kind {
        MouseEventKind::ScrollDown => 1,
        MouseEventKind::ScrollUp => -1,
        _ => 0,
    }
}

/// The size in pixels of an image shown at twice its size, where that fits; none where the image has
/// to be fitted to the screen.
pub fn doubled_size(width: u32, height: u32, max_width: u32, max_height: u32) -> (r: Option<
    (u32, u32),
>)
    ensures
        r == (if 2 * width <= max_width && 2 * height <= max_height {
            Some(((2 * width) as u32, (2 * height) as u32))
        } else {
            None
        }),
{
    if width <= max_width / 2 && height <= max_height / 2 {
        Some((width * 2, height * 2))
    } else {
        None
    }
}

/// The largest image in pixels that leaves a margin of three cells on each side of the terminal.
pub fn image_bounds(terminal_width: u16, terminal_height: u16, font_width: u16, font_height: u16) -> (r: (
    u32,
    u32,
))
    ensures
        r.0 == (if terminal_width < 6 {
            0
        } else {
            (terminal_width - 6) * font_width
        }),
        r.1 == (if terminal_height < 6 {
            0
        } else {
            (terminal_height - 6) * font_height
        }),
{
    (span(terminal_width, font_width), span(terminal_height, font_height))
}

/// The pixels of the cells that a margin of six leaves.
fn span(cells: u16, font: u16) -> (r: u32)
    ensures
        r == (if cells < 6 {
            0
        } else {
            (cells - 6) * font
        }),
{
    if cells < 6 {
        return 0;
    }
    let n: u32 = (cells - 6) as u32;
    let m: u32 = font as u32;
    assert(n * m <= 65535 * 65535) by (nonlinear_arith)
        requires
            n <= 65535,
            m <= 65535,
    ;
    n * m
}

// ---------------------------------------------------------------------------------------------
// Laws
// ---------------------------------------------------------------------------------------------
/// While a window has the focus neither drags nor releases of the button reach the text.
pub proof fn law_windows_shield_the_text(r: RunView, ev: MouseEvent, p: PressFacts, f: Facts)
    requires
        r.app.popup_active(),
        !r.app.resizing_nav_panel,
        ev.kind == MouseEventKind::Up(MouseButton::Left) || ev.kind == MouseEventKind::Drag(
            MouseButton::Left,
        ),
    ensures
        r.mouse_event(ev, p, f) == (r, MouseNext::Done),
{
}

/// A drag of the border begins on it and ends with the release of the button, which keeps the width.
pub proof fn law_border_drag(r: RunView, column: u16, ev: MouseEvent, p: PressFacts, f: Facts)
    requires
        !r.app.popup_active(),
        r.app.on_border(column),
        p.help_button is None,
        ev.kind == MouseEventKind::Up(MouseButton::Left),
    ensures
        r.mouse_press(column, p, f).0.app.resizing_nav_panel,
        !r.mouse_press(column, p, f).0.mouse_event(ev, p, f).0.app.resizing_nav_panel,
        r.mouse_press(column, p, f).0.mouse_event(ev, p, f).0.app.nav_width() == r.app.nav_width(),
{
    reveal(RunView::hold_border);
    reveal(RunView::to);
    reveal(RunView::emit);
}

/// Scrolling that cancels itself out does nothing, and no scrolling makes more than ten steps.
pub proof fn law_wheel_is_bounded(r: RunView, amount: int, column: u16, f: Facts)
    ensures
        r.wheel(0, column, f) == r,
        wheel_steps(amount) <= 10,
        amount != 0 ==> wheel_steps(amount) >= 1,
{
}

/// Inverted scrolling by an amount is scrolling by the opposite amount.
pub proof fn law_inverted_wheel(r: RunView, amount: int, column: u16, f: Facts, g: Facts)
    requires
        g == (Facts { invert_scroll: !f.invert_scroll, ..f }),
    ensures
        r.wheel(amount, column, g) == r.wheel(-amount, column, f),
{
}

proof fn lemma_press_is_sound(r: RunView, column: u16, p: PressFacts, f: Facts)
    requires
        sound(r),
    ensures
        sound(r.press_on_view(column, p).0),
{
    broadcast use group_run_sound;

    reveal(RunView::hold_border);
    reveal(sound);
    lemma_show_panel_sound(r, MainPanel::NavigationList, 0, f);
    lemma_show_panel_sound(r, MainPanel::Content, 0, f);
}

proof fn lemma_scrolling_is_sound(r: RunView, how: Scroll, n: nat)
    requires
        sound(r),
    ensures
        sound(r.scroll_times(how, n)),
    decreases n,
{
    broadcast use group_run_sound;

    if n > 0 {
        lemma_scrolling_is_sound(r, how, (n - 1) as nat);
    }
}

/// Whatever the mouse does, the focus stays on what exists.
pub proof fn law_mouse_is_sound(
    r: RunView,
    ev: MouseEvent,
    p: PressFacts,
    target: ClickTarget,
    c: ClickFacts,
    amount: int,
    f: Facts,
)
    requires
        sound(r),
    ensures
        sound(r.mouse_event(ev, p, f).0),
        sound(r.mouse_click(target, ev, c, f)),
        sound(r.wheel(amount, ev.column, f)),
{
    broadcast use group_run_sound;

    if let Some(action) = p.help_button {
        law_global_action_keeps_focus_on_a_window(r, action, f);
        lemma_press_is_sound(r.global_action(action, f).0, ev.column, p, f);
    }
    lemma_press_is_sound(r, ev.column, p, f);
    lemma_drag_is_sound(r, ev.column, f);
    lemma_drop_from_main_sound(r, MainPanel::Content, PopupWindow::ReadingHistory);
    if let Some(action) = c.settings {
        law_settings_are_sound(r, action, f);
    }
    if let Some(action) = c.enter {
        law_navigation_is_sound(r, action, f);
        law_navigation_is_sound(r.emit(Effect::PersistTocExpansion), action, f);
    }
    let turned = if f.invert_scroll {
        -amount
    } else {
        amount
    };
    lemma_scrolling_is_sound(r, Scroll::Down, wheel_steps(turned));
    lemma_scrolling_is_sound(r, Scroll::Up, wheel_steps(turned));
}

proof fn lemma_drag_is_sound(r: RunView, column: u16, f: Facts)
    requires
        sound(r),
    ensures
        sound(r.drag_border(column, f)),
        forall|held: bool| sound(#[trigger] r.hold_border(held)),
{
    broadcast use group_run_sound;

    reveal(RunView::drag_border);
    reveal(RunView::hold_border);
    reveal(sound);
}

} // verus!
