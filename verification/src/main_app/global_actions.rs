//! The actions that work whatever has the focus, and the keys that call them.
use vstd::prelude::*;

use crate::inputs::event::KeyEvent;
use crate::main_app::state::{
    extends, group_run_app, group_run_extends, group_run_sound, lemma_extends_itself,
    lemma_extends_transitive, sound,
};
use crate::main_app::state::{
    Action, App, Effect, Facts, FocusedPanel, Lookup, MainPanel, NotificationLevel, Notice,
    PopupWindow, Run, RunView, SettingsTab, Task,
};

verus! {

// ---------------------------------------------------------------------------------------------
// The width of the navigation panel
// ---------------------------------------------------------------------------------------------
impl App {
    /// The width of the navigation panel where none was chosen: three tenths of the terminal.
    pub open spec fn default_width(self) -> int {
        self.terminal_size.width as int * 30 / 100
    }

    /// The width of the navigation panel: none in zen mode, else the chosen one, else the default.
    pub open spec fn nav_width(self) -> int {
        if self.zen_mode {
            0
        } else {
            match self.nav_panel_width_override {
                Some(w) => w as int,
                None => self.default_width(),
            }
        }
    }

    /// A width kept between five cells and half the terminal. A terminal too narrow for that has no
    /// such width.
    pub open spec fn clamped_width(self, w: int) -> Option<int> {
        let most = self.terminal_size.width as int / 2;
        if most < 5 {
            None
        } else if w < 5 {
            Some(5)
        } else if w > most {
            Some(most)
        } else {
            Some(w)
        }
    }

    /// The state after the navigation panel was given a width, where one can be given.
    pub open spec fn with_width(self, w: int) -> App {
        match self.clamped_width(w) {
            Some(n) => App { nav_panel_width_override: Some(n as u16), ..self },
            None => self,
        }
    }

    /// The width of the navigation panel where none was chosen.
    pub fn default_nav_panel_width(&self) -> (r: u16)
        ensures
            r == self.default_width(),
    {
        ((self.terminal_size.width as u32) * 30 / 100) as u16
    }

    /// The width of the navigation panel.
    pub fn nav_panel_width(&self) -> (r: u16)
        ensures
            r == self.nav_width(),
    {
        if self.zen_mode {
            0
        } else {
            match self.nav_panel_width_override {
                Some(w) => w,
                None => self.default_nav_panel_width(),
            }
        }
    }

    /// Gives the navigation panel a width, within its bounds.
    pub(crate) fn choose_width(&mut self, w: i32)
        ensures
            *final(self) == old(self).with_width(w as int),
    {
        let most: i32 = (self.terminal_size.width / 2) as i32;
        if most < 5 {
            return ;
        }
        let kept: i32 = if w < 5 {
            5
        } else if w > most {
            most
        } else {
            w
        };
        self.nav_panel_width_override = Some(kept as u16);
    }
}

/// Whether a global action opens or closes a window.
pub open spec fn on_window(action: Action) -> bool {
    matches!(action, Action::ToggleHelp | Action::ToggleMarksList | Action::ReloadKeybindings | Action::OpenSettings | Action::ToggleReadingHistory | Action::ToggleBookStats | Action::OpenBookSearch | Action::OpenBookSearchFresh | Action::ToggleCommentsViewer | Action::OpenThemeSelector)
}

/// Whether a global action changes how the view is laid out.
pub open spec fn on_view(action: Action) -> bool {
    matches!(action, Action::ForceRedraw | Action::ShrinkNavPanel | Action::ExpandNavPanel | Action::ToggleJustifyText | Action::ToggleZenMode | Action::Suspend | Action::ResetNavPanelWidth)
}

impl RunView {
    /// The navigation panel made wider or narrower.
    #[verifier::opaque]
    pub open spec fn resize_nav(self, delta: int, f: Facts) -> RunView {
        let r = self.to(self.app.with_width(self.app.nav_width() + delta));
        if f.pdf_open {
            r.emit(Effect::PdfViewportWidthChanged)
        } else {
            r
        }
    }

    /// The navigation panel at its default width again.
    #[verifier::opaque]
    pub open spec fn reset_nav(self, f: Facts) -> RunView {
        let r = self.to(App { nav_panel_width_override: None, ..self.app }).emit(
            Effect::PersistNavWidth,
        );
        if f.pdf_open {
            r.emit(Effect::PdfViewportWidthChanged)
        } else {
            r
        }
    }

    /// A full redraw asked for.
    #[verifier::opaque]
    pub open spec fn request_redraw(self) -> RunView {
        self.to(App { pending_force_redraw: true, ..self.app })
    }

    /// A suspension of the program asked for.
    #[verifier::opaque]
    pub open spec fn request_suspend(self) -> RunView {
        self.to(App { pending_suspend: true, ..self.app })
    }

    /// Zen mode turned over. On entering it from the navigation panel with a book open, the content
    /// gets the focus.
    #[verifier::opaque]
    pub open spec fn toggle_zen(self, f: Facts) -> RunView {
        let to_content = !self.app.zen_mode && self.app.main_panel_is(MainPanel::NavigationList)
            && f.book_open;
        let r = self.emit(Effect::RememberPosition).emit(Effect::RestorePosition);
        let r = if f.pdf_open {
            r.emit(Effect::PdfZenToggled)
        } else {
            r
        };
        r.to(
            App {
                zen_mode: !self.app.zen_mode,
                previous_main_panel: if to_content {
                    MainPanel::Content
                } else {
                    self.app.previous_main_panel
                },
                focused_panel: if to_content {
                    FocusedPanel::Main(MainPanel::Content)
                } else {
                    self.app.focused_panel
                },
                ..self.app
            },
        )
    }

    /// The window of the marks.
    pub open spec fn open_marks(self) -> RunView {
        self.remember_panel().open_window(PopupWindow::MarksList)
    }

    /// The search window. A PDF is indexed when its search is first asked for.
    pub open spec fn open_search(self, clear_input: bool, f: Facts) -> RunView {
        if f.pdf_open && !self.app.windows.book_search {
            self.emit(Effect::Perform(Task::IndexPdf { clear_input }))
        } else if self.app.windows.book_search {
            self.emit(Effect::OpenSearch { clear_input }).focus_window(PopupWindow::BookSearch)
        } else {
            self
        }
    }

    /// Whether there is a document to search in: an EPUB that was indexed, or a PDF, which is indexed
    /// when it is first searched.
    pub open spec fn searchable(self, f: Facts) -> bool {
        f.pdf_open || (f.book_open && self.app.windows.book_search)
    }

    /// The settings window.
    pub open spec fn open_settings(self, tab: SettingsTab) -> RunView {
        self.remember_panel().emit(Effect::CreateSettings(tab)).focus_window(PopupWindow::Settings)
    }

    /// The window left and dropped.
    pub open spec fn leave_window(self, w: PopupWindow) -> RunView {
        self.close_popup().drop_window(w)
    }

    /// What a global action on a window does, and whether it was done.
    pub open spec fn window_action(self, action: Action, f: Facts) -> (RunView, bool) {
        let focus = self.app.focused_panel;
        match action {
            Action::ToggleHelp => (self.remember_panel().open_window(PopupWindow::Help), true),
            Action::ToggleMarksList => if focus == FocusedPanel::Popup(PopupWindow::MarksList) {
                (self.leave_window(PopupWindow::MarksList), true)
            } else {
                (self.open_marks(), true)
            },
            Action::ReloadKeybindings => (
                self.emit(Effect::Perform(Task::ReloadKeybindings)),
                true,
            ),
            Action::OpenSettings => (self.open_settings(SettingsTab::General), true),
            Action::ToggleReadingHistory => if focus == FocusedPanel::Popup(
                PopupWindow::ReadingHistory,
            ) {
                (self.leave_window(PopupWindow::ReadingHistory), true)
            } else {
                (self.remember_panel().open_window(PopupWindow::ReadingHistory), true)
            },
            Action::ToggleBookStats => if f.book_open || f.pdf_open {
                (self.emit(Effect::Perform(Task::CalculateStats)), true)
            } else {
                (self, false)
            },
            Action::OpenBookSearch => if self.searchable(f) {
                (self.remember_panel().open_search(false, f), true)
            } else {
                (self, false)
            },
            Action::OpenBookSearchFresh => if self.searchable(f) {
                (self.remember_panel().open_search(true, f), true)
            } else {
                (self, false)
            },
            Action::ToggleCommentsViewer => if focus == FocusedPanel::Popup(
                PopupWindow::CommentsViewer,
            ) {
                let r = if self.app.windows.comments_viewer {
                    self.emit(Effect::SaveCommentsPosition)
                } else {
                    self
                };
                (r.leave_window(PopupWindow::CommentsViewer), true)
            } else if f.pdf_open {
                if f.pdf_has_comments {
                    (
                        self.remember_panel().emit(Effect::CreatePdfComments).focus_window(
                            PopupWindow::CommentsViewer,
                        ),
                        true,
                    )
                } else {
                    (self, false)
                }
            } else if f.book_open {
                (self.remember_panel().open_window(PopupWindow::CommentsViewer), true)
            } else {
                (self, false)
            },
            Action::OpenThemeSelector => if focus == FocusedPanel::Popup(PopupWindow::Settings) {
                (self.leave_window(PopupWindow::Settings), true)
            } else {
                (self.open_settings(SettingsTab::Themes), true)
            },
            _ => (self, false),
        }
    }

    /// What a global action on the view does, and whether it was done.
    pub open spec fn view_action(self, action: Action, f: Facts) -> (RunView, bool) {
        match action {
            Action::ForceRedraw => (self.request_redraw(), true),
            Action::ShrinkNavPanel => if !self.app.zen_mode && !self.app.popup_active() {
                (
                    self.emit(Effect::RememberPosition).resize_nav(-3, f).emit(
                        Effect::RestorePosition,
                    ).emit(Effect::PersistNavWidth),
                    true,
                )
            } else {
                (self, false)
            },
            Action::ExpandNavPanel => if !self.app.zen_mode && !self.app.popup_active() {
                (
                    self.emit(Effect::RememberPosition).resize_nav(3, f).emit(
                        Effect::RestorePosition,
                    ).emit(Effect::PersistNavWidth),
                    true,
                )
            } else {
                (self, false)
            },
            Action::ToggleJustifyText => if f.book_open {
                (
                    self.emit(Effect::RememberPosition).emit(Effect::ToggleJustify).emit(
                        Effect::RestorePosition,
                    ).notify(
                        NotificationLevel::Info,
                        if f.justify_text {
                            Notice::JustifyOff
                        } else {
                            Notice::JustifyOn
                        },
                    ),
                    true,
                )
            } else {
                (self, false)
            },
            Action::ToggleZenMode => (self.toggle_zen(f), true),
            Action::Suspend => (self.request_suspend(), true),
            Action::ResetNavPanelWidth => (self.reset_nav(f), true),
            _ => (self, false),
        }
    }

    /// What a global action on the open document does, and whether it was done.
    pub open spec fn document_action(self, action: Action, f: Facts) -> (RunView, bool) {
        match action {
            Action::OpenExternalViewer => (
                self.emit(Effect::Perform(Task::OpenExternalViewer)),
                true,
            ),
            Action::CopyChapterText => if f.pdf_open {
                (
                    self.emit(Effect::PdfExtractPage).notify(
                        NotificationLevel::Info,
                        Notice::ExtractingPage,
                    ),
                    true,
                )
            } else if self.app.main_panel_is(MainPanel::Content) {
                (self.emit(Effect::CopyChapter), true)
            } else {
                (self, false)
            },
            Action::CopyTocItem => if f.pdf_open {
                if self.app.main_panel_is(MainPanel::NavigationList) && f.shows_toc {
                    (self.emit(Effect::PdfCopyTocSelection), true)
                } else {
                    (self.notify(NotificationLevel::Warning, Notice::TocFirst), true)
                }
            } else if self.app.main_panel_is(MainPanel::Content) {
                (self.emit(Effect::CopyChapter), true)
            } else {
                (self, false)
            },
            Action::TogglePdfWatching => if f.book_open {
                (self.notify(NotificationLevel::Warning, Notice::WatchingPdfOnly), true)
            } else if f.pdf_open {
                (self.emit(Effect::PdfToggleWatching), true)
            } else {
                (self, false)
            },
            Action::TogglePdfPageLayout => if f.pdf_open {
                (
                    self.emit(Effect::PdfTogglePageLayout).emit(Effect::PdfResetViewport).emit(
                        Effect::PdfHud(Notice::PageLayout),
                    ),
                    true,
                )
            } else if f.book_open {
                (
                    self.emit(Effect::ToggleColumns).emit(Effect::RememberPosition).emit(
                        Effect::SyncColumns,
                    ).emit(Effect::RestorePosition).notify(
                        NotificationLevel::Info,
                        Notice::ColumnLayout,
                    ),
                    true,
                )
            } else {
                (self, false)
            },
            Action::GoToPage => if f.pdf_open {
                (self.emit(Effect::PdfStartGoToPage), true)
            } else {
                (self, false)
            },
            Action::TogglePdfRenderMode => if f.pdf_open {
                if self.app.pdf_supports_scroll_mode {
                    (
                        self.emit(Effect::PdfToggleRenderMode).emit(Effect::PdfResetViewport).emit(
                            Effect::PdfHud(Notice::RenderMode),
                        ),
                        true,
                    )
                } else {
                    (self.emit(Effect::PdfHudError(Notice::ScrollModeUnsupported)), true)
                }
            } else {
                (self, false)
            },
            Action::LookupSelection => if f.selection_has_text {
                (self.emit(Effect::LookUpSelection), true)
            } else {
                (self.notify(NotificationLevel::Info, Notice::NoTextSelected), true)
            },
            _ => (self, false),
        }
    }

    /// What a global action does, and whether it was done.
    pub open spec fn global_action(self, action: Action, f: Facts) -> (RunView, bool) {
        if on_window(action) {
            self.window_action(action, f)
        } else if on_view(action) {
            self.view_action(action, f)
        } else {
            self.document_action(action, f)
        }
    }

    /// What the global bindings make of a key, and whether they took it. Keys typed before count
    /// where they begin a global binding; a key that does not continue it stands alone.
    pub open spec fn global_hotkeys(self, key: KeyEvent, f: Facts) -> (RunView, bool) {
        let pending = !f.key_sequence_empty && !self.cleared && f.sequence_is_global_prefix;
        if pending && f.global.sequence == Lookup::Prefix {
            (self.emit(Effect::PushKey(key)), true)
        } else {
            let r = if pending {
                self.clear_keys()
            } else {
                self
            };
            let found = if pending && f.global.sequence is Found {
                f.global.sequence
            } else {
                f.global.single
            };
            match found {
                Lookup::Found(action) => r.global_action(action, f),
                Lookup::Prefix => (r.emit(Effect::PushKey(key)), true),
                Lookup::NoMatch => (r, false),
            }
        }
    }
}

impl Run {
    fn resize_nav_panel(&mut self, delta: i32, f: &Facts)
        requires
            -3 <= delta <= 3,
        ensures
            final(self)@ == old(self)@.resize_nav(delta as int, *f),
    {
        proof {
            reveal(RunView::resize_nav);
            reveal(RunView::to);
        }
        let current: u16 = self.app.nav_panel_width();
        self.app.choose_width(current as i32 + delta);
        if f.pdf_open {
            self.emit(Effect::PdfViewportWidthChanged);
        }
    }

    pub(crate) fn toggle_zen_mode(&mut self, f: &Facts)
        ensures
            final(self)@ == old(self)@.toggle_zen(*f),
    {
        proof {
            reveal(RunView::toggle_zen);
            reveal(RunView::emit);
            reveal(RunView::to);
        }
        self.emit(Effect::RememberPosition);
        self.emit(Effect::RestorePosition);
        if f.pdf_open {
            self.emit(Effect::PdfZenToggled);
        }
        let to_content = !self.app.zen_mode && self.app.is_main_panel(MainPanel::NavigationList)
            && f.book_open;
        self.app.zen_mode = !self.app.zen_mode;
        if to_content {
            self.app.previous_main_panel = MainPanel::Content;
            self.app.focused_panel = FocusedPanel::Main(MainPanel::Content);
        }
    }

    pub(crate) fn open_marks_popup(&mut self)
        ensures
            final(self)@ == old(self)@.open_marks(),
    {
        self.remember_panel();
        self.open_window(PopupWindow::MarksList);
    }

    pub(crate) fn open_book_search(&mut self, clear_input: bool, f: &Facts)
        ensures
            final(self)@ == old(self)@.open_search(clear_input, *f),
    {
        if f.pdf_open && !self.app.windows.book_search {
            self.emit(Effect::Perform(Task::IndexPdf { clear_input }));
        } else if self.app.windows.book_search {
            self.emit(Effect::OpenSearch { clear_input });
            self.focus_window(PopupWindow::BookSearch);
        }
    }

    pub(crate) fn open_settings_popup(&mut self, tab: SettingsTab)
        ensures
            final(self)@ == old(self)@.open_settings(tab),
    {
        self.remember_panel();
        self.emit(Effect::CreateSettings(tab));
        self.focus_window(PopupWindow::Settings);
    }

    pub(crate) fn leave_window(&mut self, w: PopupWindow)
        ensures
            final(self)@ == old(self)@.leave_window(w),
    {
        self.close_popup_to_previous();
        self.drop_window(w);
    }

    fn dispatch_window_action(&mut self, action: Action, f: &Facts) -> (r: bool)
        ensures
            (final(self)@, r) == old(self)@.window_action(action, *f),
    {
        match action {
            Action::ToggleHelp => {
                self.remember_panel();
                self.open_window(PopupWindow::Help);
                true
            },
            Action::ToggleMarksList => {
                if self.app.focused_panel == FocusedPanel::Popup(PopupWindow::MarksList) {
                    self.leave_window(PopupWindow::MarksList);
                } else {
                    self.open_marks_popup();
                }
                true
            },
            Action::ReloadKeybindings => {
                self.emit(Effect::Perform(Task::ReloadKeybindings));
                true
            },
            Action::OpenSettings => {
                self.open_settings_popup(SettingsTab::General);
                true
            },
            Action::ToggleReadingHistory => {
                if self.app.focused_panel == FocusedPanel::Popup(PopupWindow::ReadingHistory) {
                    self.leave_window(PopupWindow::ReadingHistory);
                } else {
                    self.remember_panel();
                    self.open_window(PopupWindow::ReadingHistory);
                }
                true
            },
            Action::ToggleBookStats => {
                if f.book_open || f.pdf_open {
                    self.emit(Effect::Perform(Task::CalculateStats));
                    true
                } else {
                    false
                }
            },
            Action::OpenBookSearch => {
                if f.pdf_open || (f.book_open && self.app.windows.book_search) {
                    self.remember_panel();
                    self.open_book_search(false, f);
                    true
                } else {
                    false
                }
            },
            Action::OpenBookSearchFresh => {
                if f.pdf_open || (f.book_open && self.app.windows.book_search) {
                    self.remember_panel();
                    self.open_book_search(true, f);
                    true
                } else {
                    false
                }
            },
            Action::ToggleCommentsViewer => {
                if self.app.focused_panel == FocusedPanel::Popup(PopupWindow::CommentsViewer) {
                    if self.app.windows.comments_viewer {
                        self.emit(Effect::SaveCommentsPosition);
                    }
                    self.leave_window(PopupWindow::CommentsViewer);
                    true
                } else if f.pdf_open {
                    if f.pdf_has_comments {
                        self.remember_panel();
                        self.emit(Effect::CreatePdfComments);
                        self.focus_window(PopupWindow::CommentsViewer);
                    }
                    f.pdf_has_comments
                } else if f.book_open {
                    self.remember_panel();
                    self.open_window(PopupWindow::CommentsViewer);
                    true
                } else {
                    false
                }
            },
            Action::OpenThemeSelector => {
                if self.app.focused_panel == FocusedPanel::Popup(PopupWindow::Settings) {
                    self.leave_window(PopupWindow::Settings);
                } else {
                    self.open_settings_popup(SettingsTab::Themes);
                }
                true
            },
            _ => false,
        }
    }

    fn dispatch_view_action(&mut self, action: Action, f: &Facts) -> (r: bool)
        ensures
            (final(self)@, r) == old(self)@.view_action(action, *f),
    {
        match action {
            Action::ForceRedraw => {
                proof {
                    reveal(RunView::request_redraw);
                }
                self.set_app(App { pending_force_redraw: true, ..self.app });
                true
            },
            Action::ShrinkNavPanel => {
                if !self.app.zen_mode && !self.app.has_active_popup() {
                    self.emit(Effect::RememberPosition);
                    self.resize_nav_panel(-3, f);
                    self.emit(Effect::RestorePosition);
                    self.emit(Effect::PersistNavWidth);
                    true
                } else {
                    false
                }
            },
            Action::ExpandNavPanel => {
                if !self.app.zen_mode && !self.app.has_active_popup() {
                    self.emit(Effect::RememberPosition);
                    self.resize_nav_panel(3, f);
                    self.emit(Effect::RestorePosition);
                    self.emit(Effect::PersistNavWidth);
                    true
                } else {
                    false
                }
            },
            Action::ToggleJustifyText => {
                if f.book_open {
                    self.emit(Effect::RememberPosition);
                    self.emit(Effect::ToggleJustify);
                    self.emit(Effect::RestorePosition);
                    if f.justify_text {
                        self.notify(NotificationLevel::Info, Notice::JustifyOff);
                    } else {
                        self.notify(NotificationLevel::Info, Notice::JustifyOn);
                    }
                }
                f.book_open
            },
            Action::ToggleZenMode => {
                self.toggle_zen_mode(f);
                true
            },
            Action::Suspend => {
                proof {
                    reveal(RunView::request_suspend);
                }
                self.set_app(App { pending_suspend: true, ..self.app });
                true
            },
            Action::ResetNavPanelWidth => {
                proof {
                    reveal(RunView::reset_nav);
                }
                self.set_app(App { nav_panel_width_override: None, ..self.app });
                self.emit(Effect::PersistNavWidth);
                if f.pdf_open {
                    self.emit(Effect::PdfViewportWidthChanged);
                }
                true
            },
            _ => false,
        }
    }

    fn dispatch_document_action(&mut self, action: Action, f: &Facts) -> (r: bool)
        ensures
            (final(self)@, r) == old(self)@.document_action(action, *f),
    {
        match action {
            Action::OpenExternalViewer => {
                self.emit(Effect::Perform(Task::OpenExternalViewer));
                true
            },
            Action::CopyChapterText => {
                if f.pdf_open {
                    self.emit(Effect::PdfExtractPage);
                    self.notify(NotificationLevel::Info, Notice::ExtractingPage);
                    true
                } else if self.app.is_main_panel(MainPanel::Content) {
                    self.emit(Effect::CopyChapter);
                    true
                } else {
                    false
                }
            },
            Action::CopyTocItem => {
                if f.pdf_open {
                    if self.app.is_main_panel(MainPanel::NavigationList) && f.shows_toc {
                        self.emit(Effect::PdfCopyTocSelection);
                    } else {
                        self.notify(NotificationLevel::Warning, Notice::TocFirst);
                    }
                    true
                } else if self.app.is_main_panel(MainPanel::Content) {
                    self.emit(Effect::CopyChapter);
                    true
                } else {
                    false
                }
            },
            Action::TogglePdfWatching => {
                if f.book_open {
                    self.notify(NotificationLevel::Warning, Notice::WatchingPdfOnly);
                } else if f.pdf_open {
                    self.emit(Effect::PdfToggleWatching);
                }
                f.book_open || f.pdf_open
            },
            Action::TogglePdfPageLayout => {
                if f.pdf_open {
                    self.emit(Effect::PdfTogglePageLayout);
                    self.emit(Effect::PdfResetViewport);
                    self.emit(Effect::PdfHud(Notice::PageLayout));
                } else if f.book_open {
                    self.emit(Effect::ToggleColumns);
                    self.emit(Effect::RememberPosition);
                    self.emit(Effect::SyncColumns);
                    self.emit(Effect::RestorePosition);
                    self.notify(NotificationLevel::Info, Notice::ColumnLayout);
                }
                f.book_open || f.pdf_open
            },
            Action::GoToPage => {
                if f.pdf_open {
                    self.emit(Effect::PdfStartGoToPage);
                }
                f.pdf_open
            },
            Action::TogglePdfRenderMode => {
                if f.pdf_open {
                    if self.app.pdf_supports_scroll_mode {
                        self.emit(Effect::PdfToggleRenderMode);
                        self.emit(Effect::PdfResetViewport);
                        self.emit(Effect::PdfHud(Notice::RenderMode));
                    } else {
                        self.emit(Effect::PdfHudError(Notice::ScrollModeUnsupported));
                    }
                }
                f.pdf_open
            },
            Action::LookupSelection => {
                if f.selection_has_text {
                    self.emit(Effect::LookUpSelection);
                } else {
                    self.notify(NotificationLevel::Info, Notice::NoTextSelected);
                }
                true
            },
            _ => false,
        }
    }

    /// Executes a global action; false where conditions prevented it, and then nothing was done.
    pub(crate) fn dispatch_global_action(&mut self, action: Action, f: &Facts) -> (r: bool)
        ensures
            (final(self)@, r) == old(self)@.global_action(action, *f),
    {
        match action {
            Action::ToggleHelp | Action::ToggleMarksList | Action::ReloadKeybindings | Action::OpenSettings | Action::ToggleReadingHistory | Action::ToggleBookStats | Action::OpenBookSearch | Action::OpenBookSearchFresh | Action::ToggleCommentsViewer | Action::OpenThemeSelector => self.dispatch_window_action(action, f),
            Action::ForceRedraw | Action::ShrinkNavPanel | Action::ExpandNavPanel | Action::ToggleJustifyText | Action::ToggleZenMode | Action::Suspend | Action::ResetNavPanelWidth => self.dispatch_view_action(action, f),
            _ => self.dispatch_document_action(action, f),
        }
    }

    /// Lets the global bindings have a key; false where they do not take it.
    pub(crate) fn handle_global_hotkeys(&mut self, key: KeyEvent, f: &Facts) -> (r: bool)
        ensures
            (final(self)@, r) == old(self)@.global_hotkeys(key, *f),
    {
        let pending = !f.key_sequence_empty && !self.cleared && f.sequence_is_global_prefix;
        let mut found = f.global.single;
        if pending {
            match f.global.sequence {
                Lookup::Prefix => {
                    self.emit(Effect::PushKey(key));
                    return true;
                },
                Lookup::Found(action) => {
                    self.clear_keys();
                    found = Lookup::Found(action);
                },
                Lookup::NoMatch => {
                    self.clear_keys();
                },
            }
        }
        match found {
            Lookup::Found(action) => self.dispatch_global_action(action, f),
            Lookup::Prefix => {
                self.emit(Effect::PushKey(key));
                true
            },
            Lookup::NoMatch => false,
        }
    }
}

impl App {
    /// Executes a global action. The result says whether it was executed: where conditions prevented
    /// it the state stays as it is, and there is nothing to do.
    pub fn dispatch_global_action(&mut self, action: Action, f: &Facts) -> (r: (bool, Vec<Effect>))
        ensures
            ({
                let (run, done) = RunView::start(*old(self)).global_action(action, *f);
                &&& *final(self) == run.app
                &&& r.1@ == run.out
                &&& r.0 == done
            }),
            !r.0 ==> *final(self) == *old(self) && r.1@.len() == 0,
    {
        proof {
            law_prevented_action_does_nothing(RunView::start(*self), action, *f);
        }
        let mut run = Run::start(*self);
        let done = run.dispatch_global_action(action, f);
        *self = run.app;
        (done, run.out)
    }

    /// Lets the global bindings have a key.
    pub fn handle_global_hotkeys(&mut self, key: KeyEvent, f: &Facts) -> (r: (bool, Vec<Effect>))
        ensures
            ({
                let (run, done) = RunView::start(*old(self)).global_hotkeys(key, *f);
                &&& *final(self) == run.app
                &&& r.1@ == run.out
                &&& r.0 == done
            }),
    {
        let mut run = Run::start(*self);
        let done = run.handle_global_hotkeys(key, f);
        *self = run.app;
        (done, run.out)
    }

    /// Turns zen mode on or off.
    pub fn set_zen_mode(&mut self, enabled: bool, f: &Facts) -> (r: Vec<Effect>)
        ensures
            ({
                let start = RunView::start(*old(self));
                let run = if old(self).zen_mode != enabled {
                    start.toggle_zen(*f)
                } else {
                    start
                };
                &&& *final(self) == run.app
                &&& r@ == run.out
            }),
            final(self).zen_mode == enabled,
    {
        let mut run = Run::start(*self);
        if self.zen_mode != enabled {
            proof {
                reveal(RunView::toggle_zen);
                reveal(RunView::to);
            }
            run.toggle_zen_mode(f);
        }
        *self = run.app;
        run.out
    }

    /// Shows the errors of the keymap, where there are any.
    pub fn open_keybinding_errors_popup(&mut self, errors: usize) -> (r: Vec<Effect>)
        ensures
            ({
                let start = RunView::start(*old(self));
                let run = if errors == 0 {
                    start
                } else {
                    start.remember_panel().open_window(PopupWindow::KeybindingErrors)
                };
                &&& *final(self) == run.app
                &&& r@ == run.out
            }),
    {
        let mut run = Run::start(*self);
        if errors != 0 {
            run.remember_panel();
            run.open_window(PopupWindow::KeybindingErrors);
        }
        *self = run.app;
        run.out
    }

    /// Shows the history of all libraries.
    pub fn show_all_libraries_history(&mut self) -> (r: Vec<Effect>)
        ensures
            ({
                let run = RunView::start(*old(self)).remember_panel().open_window(
                    PopupWindow::ReadingHistory,
                );
                &&& *final(self) == run.app
                &&& r@ == run.out
            }),
    {
        let mut run = Run::start(*self);
        run.remember_panel();
        run.open_window(PopupWindow::ReadingHistory);
        *self = run.app;
        run.out
    }
}

// ---------------------------------------------------------------------------------------------
// Laws
// ---------------------------------------------------------------------------------------------
/// Whatever global action runs, a window that has the focus afterwards exists.
pub proof fn law_global_action_keeps_focus_on_a_window(r: RunView, action: Action, f: Facts)
    requires
        sound(r),
    ensures
        sound(r.global_action(action, f).0),
{
    lemma_window_action_sound(r, action, f);
    lemma_view_action_sound(r, action, f);
    lemma_document_action_sound(r, action, f);
}

/// A global action that was not executed changes nothing and leaves nothing to do.
pub proof fn law_prevented_action_does_nothing(r: RunView, action: Action, f: Facts)
    ensures
        !r.global_action(action, f).1 ==> r.global_action(action, f).0 == r,
{
}

/// Without a document nothing that works on one is executed.
pub proof fn law_document_actions_need_a_document(r: RunView, action: Action, f: Facts)
    requires
        !f.book_open,
        !f.pdf_open,
        action == Action::OpenBookSearch || action == Action::OpenBookSearchFresh || action
            == Action::ToggleBookStats || action == Action::ToggleJustifyText || action
            == Action::TogglePdfWatching || action == Action::TogglePdfPageLayout || action
            == Action::GoToPage || action == Action::TogglePdfRenderMode,
    ensures
        r.global_action(action, f) == (r, false),
{
}

/// A global action only adds to what is to be done.
pub proof fn law_global_action_only_adds(r: RunView, action: Action, f: Facts)
    ensures
        extends(r, r.global_action(action, f).0),
{
    lemma_window_action_extends(r, action, f);
    lemma_view_action_extends(r, action, f);
    lemma_document_action_extends(r, action, f);
}

proof fn lemma_window_action_sound(r: RunView, action: Action, f: Facts)
    requires
        sound(r),
    ensures
        sound(r.window_action(action, f).0),
{
    broadcast use group_run_sound;

}

proof fn lemma_window_action_extends(r: RunView, action: Action, f: Facts)
    ensures
        extends(r, r.window_action(action, f).0),
{
    broadcast use group_run_extends;

    lemma_extends_itself(r);
}

proof fn lemma_view_action_sound(r: RunView, action: Action, f: Facts)
    requires
        sound(r),
    ensures
        sound(r.view_action(action, f).0),
{
    broadcast use group_run_sound;

    let shifted = r.emit(Effect::RememberPosition);
    lemma_resize_nav(shifted, -3, f);
    lemma_resize_nav(shifted, 3, f);
    lemma_toggle_zen(r, f);
    lemma_requests(r, f);
}

proof fn lemma_view_action_extends(r: RunView, action: Action, f: Facts)
    ensures
        extends(r, r.view_action(action, f).0),
{
    broadcast use group_run_extends;

    let shifted = r.emit(Effect::RememberPosition);
    lemma_extends_itself(r);
    lemma_resize_nav(shifted, -3, f);
    lemma_resize_nav(shifted, 3, f);
    lemma_extends_transitive(r, shifted, shifted.resize_nav(-3, f));
    lemma_extends_transitive(r, shifted, shifted.resize_nav(3, f));
    lemma_toggle_zen(r, f);
    lemma_requests(r, f);
}

proof fn lemma_resize_nav(r: RunView, delta: int, f: Facts)
    ensures
        sound(r) ==> sound(r.resize_nav(delta, f)),
        extends(r, r.resize_nav(delta, f)),
{
    reveal(RunView::resize_nav);
    reveal(RunView::to);
    reveal(RunView::emit);
    reveal(sound);
    reveal(extends);
}

proof fn lemma_requests(r: RunView, f: Facts)
    ensures
        sound(r) ==> sound(r.request_redraw()) && sound(r.request_suspend()) && sound(
            r.reset_nav(f),
        ),
        extends(r, r.request_redraw()),
        extends(r, r.request_suspend()),
        extends(r, r.reset_nav(f)),
{
    reveal(RunView::request_redraw);
    reveal(RunView::request_suspend);
    reveal(RunView::reset_nav);
    reveal(RunView::to);
    reveal(RunView::emit);
    reveal(sound);
    reveal(extends);
}

proof fn lemma_toggle_zen(r: RunView, f: Facts)
    ensures
        sound(r) ==> sound(r.toggle_zen(f)),
        extends(r, r.toggle_zen(f)),
{
    reveal(RunView::toggle_zen);
    reveal(RunView::to);
    reveal(RunView::emit);
    reveal(sound);
    reveal(extends);
}

proof fn lemma_document_action_sound(r: RunView, action: Action, f: Facts)
    requires
        sound(r),
    ensures
        sound(r.document_action(action, f).0),
{
    broadcast use group_run_sound;

}

proof fn lemma_document_action_extends(r: RunView, action: Action, f: Facts)
    ensures
        extends(r, r.document_action(action, f).0),
{
    broadcast use group_run_extends;

    lemma_extends_itself(r);
}

/// Zen mode turned over twice is as before; and within it the navigation panel takes no width.
pub proof fn law_zen_mode_is_an_involution(r: RunView, f: Facts)
    ensures
        r.toggle_zen(f).toggle_zen(f).app.zen_mode == r.app.zen_mode,
        !r.app.zen_mode ==> r.toggle_zen(f).app.nav_width() == 0,
        r.toggle_zen(f).toggle_zen(f).app.nav_width() == r.app.nav_width(),
{
    reveal(RunView::toggle_zen);
    reveal(RunView::to);

}

/// Entering zen mode with a book open leaves the focus on the content or on a window.
pub proof fn law_zen_mode_hides_the_navigation(r: RunView, f: Facts)
    requires
        !r.app.zen_mode,
        f.book_open,
    ensures
        !r.toggle_zen(f).app.main_panel_is(MainPanel::NavigationList),
{
    reveal(RunView::toggle_zen);
    reveal(RunView::to);

}

/// A window that a global key opens from a main panel is closed by the same key, and the panel has
/// the focus again.
pub proof fn law_toggled_window_returns_to_its_panel(r: RunView, action: Action, f: Facts)
    requires
        action == Action::ToggleReadingHistory || action == Action::ToggleMarksList || action
            == Action::OpenThemeSelector,
        r.app.focused_panel is Main,
        r.app.zen_mode ==> r.app.main_panel_is(MainPanel::Content),
    ensures
        r.global_action(action, f).0.app.popup_active(),
        r.global_action(action, f).0.global_action(action, f).0.app.focused_panel
            == r.app.focused_panel,
{
    broadcast use group_run_app;

}

/// A chosen width stays between five cells and half the terminal.
pub proof fn law_width_stays_in_bounds(app: App, w: int)
    requires
        app.terminal_size.width >= 10,
    ensures
        app.with_width(w).nav_panel_width_override matches Some(n) && 5 <= n
            && n <= app.terminal_size.width / 2,
{
}

} // verus!
