//! What the windows, the settings and the navigation panel ask for, and what follows a finished work.
use vstd::prelude::*;

use crate::main_app::state::{group_run_sound, sound};
use crate::main_app::state::{
    App, Effect, Facts, FocusedPanel, MainPanel, NavigationPanelAction, NotificationLevel, Notice,
    Outcome, PopupWindow, Run, RunView, SettingsAction, Task, TocDestination, WindowReply,
};

verus! {

impl RunView {
    /// The focus on a main panel that is not remembered for when a window closes.
    #[verifier::opaque]
    pub open spec fn show_panel(self, panel: MainPanel) -> RunView {
        self.to(App { focused_panel: FocusedPanel::Main(panel), ..self.app })
    }

    /// A PDF page is awaited before the next redraw, unless the terminal keeps the pages itself.
    #[verifier::opaque]
    pub open spec fn await_page(self, page: usize, f: Facts) -> RunView {
        if f.pdf_kitty {
            self
        } else {
            self.to(App { pdf_waiting_for_page: Some(page), ..self.app })
        }
    }

    /// What the search window asks for.
    pub open spec fn search_reply(self, reply: WindowReply, f: Facts) -> RunView {
        match reply {
            WindowReply::SearchHit { chapter, node } => self.focus_main(MainPanel::Content).emit(
                Effect::Perform(Task::GoToSearchHit { chapter, node }),
            ),
            WindowReply::PdfSearchHit { page, line } => if f.pdf_open {
                self.focus_main(MainPanel::Content).emit(
                    Effect::PdfJumpToSearchHit { page, line },
                ).await_page(page, f)
            } else {
                self.focus_main(MainPanel::Content)
            },
            WindowReply::Close => self.close_popup(),
            _ => self,
        }
    }

    /// What the statistics ask for.
    pub open spec fn stats_reply(self, reply: WindowReply, f: Facts) -> RunView {
        match reply {
            WindowReply::Close => self.emit(Effect::HideStats).close_popup(),
            WindowReply::ListedChapter(chapter) => {
                let r = self.emit(Effect::HideStats).focus_main(MainPanel::Content);
                if f.pdf_open {
                    r.emit(Effect::PdfGoToPage(chapter))
                } else {
                    r.emit(Effect::Perform(Task::GoToListedChapter { chapter }))
                }
            },
            _ => self,
        }
    }

    /// What the marks window asks for.
    pub open spec fn marks_reply(self, reply: WindowReply) -> RunView {
        match reply {
            WindowReply::Close => self.leave_window(PopupWindow::MarksList),
            WindowReply::JumpToMark => self.leave_window(PopupWindow::MarksList).emit(
                Effect::Perform(Task::JumpToSelectedMark),
            ),
            WindowReply::DeleteMark => self.emit(Effect::Perform(Task::DeleteSelectedMark)),
            _ => self,
        }
    }

    /// What the reading history asks for. The bookmark of the open book is not removed.
    pub open spec fn history_reply(self, reply: WindowReply) -> RunView {
        match reply {
            WindowReply::Close => self.leave_window(PopupWindow::ReadingHistory),
            WindowReply::OpenBook { listed } => if listed {
                self.focus_main(MainPanel::Content).drop_window(PopupWindow::ReadingHistory).emit(
                    Effect::Perform(Task::OpenHistoryBook),
                )
            } else {
                self
            },
            WindowReply::OpenBookAbsolute => self.emit(
                Effect::Perform(Task::OpenHistoryBookAbsolute),
            ),
            WindowReply::DeleteBookmark { open_now } => if open_now {
                self.notify(NotificationLevel::Warning, Notice::CannotDeleteOpenBook)
            } else {
                self.emit(Effect::Perform(Task::RemoveHistoryBookmark))
            },
            _ => self,
        }
    }

    /// The place in the comments window kept, where the window exists.
    pub open spec fn save_comments_place(self) -> RunView {
        if self.app.windows.comments_viewer {
            self.emit(Effect::SaveCommentsPosition)
        } else {
            self
        }
    }

    /// What the comments window asks for.
    pub open spec fn comments_reply(self, reply: WindowReply, f: Facts) -> RunView {
        match reply {
            WindowReply::Close => self.save_comments_place().leave_window(
                PopupWindow::CommentsViewer,
            ),
            WindowReply::JumpToComment { pdf_page: page, text_node: node } => {
                let r = self.save_comments_place().close_popup().focus_main(MainPanel::Content);
                match page {
                    Some(p) => if f.pdf_open {
                        r.emit(Effect::PdfJumpToComment(p)).drop_window(PopupWindow::CommentsViewer)
                    } else {
                        r.drop_window(PopupWindow::CommentsViewer)
                    },
                    None => match node {
                        Some(n) => r.emit(Effect::RestoreNode(n)).emit(
                            Effect::Perform(Task::GoToComment),
                        ),
                        None => r.emit(Effect::Perform(Task::GoToComment)),
                    },
                }
            },
            WindowReply::DeleteComment { selected } => if selected {
                self.emit(Effect::Perform(Task::DeleteSelectedComment))
            } else {
                self
            },
            WindowReply::ExportComments => self.emit(Effect::Perform(Task::ExportComments)),
            _ => self,
        }
    }

    /// The window of a lookup left: the settings come back where they were open.
    pub open spec fn leave_lookup(self) -> RunView {
        let r = self.drop_window(PopupWindow::Lookup);
        if self.app.windows.settings_popup {
            r.focus_window(PopupWindow::Settings)
        } else {
            r.close_popup()
        }
    }

    /// An open PDF closed because PDF support was switched off.
    pub open spec fn close_disabled_pdf(self) -> RunView {
        self.emit(Effect::PdfClearGraphics).emit(Effect::PdfClose).emit(
            Effect::ForgetCurrentBook,
        ).emit(Effect::SwitchToBookList).show_panel(MainPanel::NavigationList).emit(
            Effect::SyncTitle,
        ).leave_window(PopupWindow::Settings)
    }

    /// What the settings ask for.
    pub open spec fn settings_action(self, action: SettingsAction, f: Facts) -> RunView {
        match action {
            SettingsAction::Close => self.leave_window(PopupWindow::Settings),
            SettingsAction::PageLayoutChanged => {
                let r = if f.pdf_open {
                    self.emit(Effect::PdfResetViewport)
                } else {
                    self
                };
                r.emit(Effect::RememberPosition).emit(Effect::SyncColumns).emit(
                    Effect::RestorePosition,
                )
            },
            SettingsAction::SettingsChanged => {
                let r = self.emit(Effect::InvalidateRenderCache).emit(Effect::PdfApplyTheme).notify(
                    NotificationLevel::Info,
                    Notice::Theme,
                ).emit(Effect::RefreshBooks).emit(Effect::ShowBooks);
                if !f.pdf_enabled && f.pdf_open {
                    r.close_disabled_pdf()
                } else {
                    r
                }
            },
            SettingsAction::TestLookupCommand => self.emit(Effect::TestLookupCommand),
            SettingsAction::TestSynctexEditor => self.emit(Effect::TestSynctexEditor),
        }
    }

    /// What the window in focus asks for.
    pub open spec fn window_reply(self, w: PopupWindow, reply: WindowReply, f: Facts) -> RunView {
        match w {
            PopupWindow::BookSearch => self.search_reply(reply, f),
            PopupWindow::BookStats => self.stats_reply(reply, f),
            PopupWindow::MarksList => self.marks_reply(reply),
            PopupWindow::ReadingHistory => self.history_reply(reply),
            PopupWindow::Help => if reply == WindowReply::Close {
                self.leave_window(PopupWindow::Help)
            } else {
                self
            },
            PopupWindow::CommentsViewer => self.comments_reply(reply, f),
            PopupWindow::Settings => match reply {
                WindowReply::Settings(action) => self.settings_action(action, f),
                _ => self,
            },
            PopupWindow::Lookup => if reply == WindowReply::Close {
                self.leave_lookup()
            } else {
                self
            },
            _ => self,
        }
    }

    /// What the navigation panel asks for, and whether it passed the key by.
    pub open spec fn navigation_action(self, action: NavigationPanelAction, f: Facts) -> (
        RunView,
        bool,
    ) {
        match action {
            NavigationPanelAction::Bypass => (self, true),
            NavigationPanelAction::SelectBook => (
                self.emit(Effect::Perform(Task::OpenSelectedBook)),
                false,
            ),
            NavigationPanelAction::SwitchToBookList => (
                self.emit(Effect::SwitchToBookList).show_panel(MainPanel::NavigationList),
                false,
            ),
            NavigationPanelAction::NavigateToChapter(destination) => match destination {
                TocDestination::PdfPage(Some(page)) => (
                    self.emit(Effect::PdfGoToPage(page)).show_panel(MainPanel::Content),
                    false,
                ),
                TocDestination::PdfPage(None) => (self, false),
                TocDestination::External => (self.emit(Effect::OpenExternalLink), false),
                TocDestination::Chapter(Some(chapter)) => (
                    self.emit(Effect::NavigateToHref { chapter }).show_panel(MainPanel::Content),
                    false,
                ),
                TocDestination::Chapter(None) => (
                    self.notify(NotificationLevel::Error, Notice::ChapterNotFound),
                    false,
                ),
            },
            NavigationPanelAction::ToggleSection => (
                self.emit(Effect::ToggleSelectedSection).emit(Effect::PersistTocExpansion),
                false,
            ),
            NavigationPanelAction::TocExpansionChanged => (
                self.emit(Effect::PersistTocExpansion),
                false,
            ),
            NavigationPanelAction::ToggleSortOrder => (
                self.emit(Effect::ToggleSortOrder).emit(Effect::ShowBooks).emit(
                    Effect::SelectOpenBook,
                ).notify(
                    NotificationLevel::Info,
                    if f.sorted_by_name {
                        Notice::SortedByType
                    } else {
                        Notice::SortedByName
                    },
                ),
                false,
            ),
        }
    }

    /// What follows a finished work on windows and books.
    pub open spec fn task_done(self, task: Task, outcome: Outcome, f: Facts) -> RunView {
        match task {
            Task::ReloadKeybindings => if outcome == Outcome::Keymap(0) {
                self.notify(NotificationLevel::Info, Notice::KeybindingsReloaded)
            } else {
                self.remember_panel().open_window(PopupWindow::KeybindingErrors)
            },
            Task::CalculateStats => match outcome {
                Outcome::Done => self.remember_panel().emit(Effect::ShowStats).focus_window(
                    PopupWindow::BookStats,
                ),
                Outcome::Failed => self.notify(NotificationLevel::Error, Notice::StatisticsFailed),
                _ => self,
            },
            Task::IndexPdf { clear_input } => if outcome == Outcome::Done {
                self.emit(Effect::OpenSearch { clear_input }).focus_window(PopupWindow::BookSearch)
            } else {
                self
            },
            Task::DeleteCommentAtCursor => match outcome {
                Outcome::Removed(true) => self.notify(
                    NotificationLevel::Info,
                    Notice::AnnotationRemoved,
                ),
                Outcome::Failed => self.notify(
                    NotificationLevel::Error,
                    Notice::DeleteAnnotationFailed,
                ),
                _ => self,
            },
            Task::DeleteSelectedComment => match outcome {
                Outcome::Deleted { comments, failed } => if failed {
                    self.notify(NotificationLevel::Error, Notice::DeleteCommentFailed)
                } else if comments == 0 {
                    self
                } else if comments > 1 {
                    self.emit(Effect::RemoveSelectedComment).notify(
                        NotificationLevel::Info,
                        Notice::AnnotationsDeleted,
                    )
                } else {
                    self.emit(Effect::RemoveSelectedComment).notify(
                        NotificationLevel::Info,
                        Notice::AnnotationDeleted,
                    )
                },
                _ => self,
            },
            Task::ExportComments => match outcome {
                Outcome::Done => self.notify(NotificationLevel::Info, Notice::ExportedComments),
                Outcome::Failed => self.notify(NotificationLevel::Error, Notice::ExportFailed),
                _ => self,
            },
            Task::GoToSearchHit { chapter, node } => if outcome == Outcome::Done {
                self.emit(Effect::RestoreNode(node)).emit(Effect::QueueSearchHit(node))
            } else {
                self.notify(NotificationLevel::Error, Notice::NavigateToChapterFailed)
            },
            Task::GoToListedChapter { chapter } => if outcome == Outcome::Done {
                self
            } else {
                self.notify(NotificationLevel::Error, Notice::NavigateToChapterFailed)
            },
            Task::GoToComment => if outcome == Outcome::Done {
                self
            } else {
                self.notify(NotificationLevel::Error, Notice::NavigateToCommentFailed)
            },
            Task::OpenSelectedBook => if outcome == Outcome::Done {
                self
            } else {
                self.notify(NotificationLevel::Error, Notice::OpenBookFailed)
            },
            Task::OpenHistoryBookAbsolute => match outcome {
                Outcome::Done => self.focus_main(MainPanel::Content).drop_window(
                    PopupWindow::ReadingHistory,
                ),
                Outcome::SourceFailed => self.notify(
                    NotificationLevel::Error,
                    Notice::SourceBookmarksFailed,
                ),
                _ => self.notify(NotificationLevel::Error, Notice::OpenBookFailed),
            },
            Task::RemoveHistoryBookmark => if outcome == Outcome::Removed(true)
                && self.app.windows.reading_history {
                self.emit(Effect::ReloadHistory)
            } else {
                self
            },
            Task::DeleteSelectedMark => if outcome == Outcome::Removed(true)
                && self.app.windows.marks_popup {
                self.emit(Effect::RebuildMarks)
            } else {
                self
            },
            Task::SetMark(ch) => match outcome {
                Outcome::Missing => self.notify(NotificationLevel::Warning, Notice::NoBookForMark),
                Outcome::LocalMark(true) => self.notify(
                    NotificationLevel::Info,
                    Notice::SetLocalMark(ch),
                ),
                Outcome::LocalMark(false) => self.notify(
                    NotificationLevel::Warning,
                    Notice::LocalMarkRefused(ch),
                ),
                Outcome::GlobalMark => self.notify(
                    NotificationLevel::Info,
                    Notice::SetGlobalMark(ch),
                ),
                _ => self,
            },
            Task::GotoMark(ch) => match outcome {
                Outcome::Missing => self.notify(NotificationLevel::Warning, Notice::NoBookOpen),
                Outcome::NoLocalMark => self.notify(
                    NotificationLevel::Warning,
                    Notice::NoLocalMark(ch),
                ),
                Outcome::NoGlobalMark => self.notify(
                    NotificationLevel::Warning,
                    Notice::NoGlobalMark(ch),
                ),
                _ => self,
            },
            Task::OpenExternalViewer => match outcome {
                Outcome::Done => self.notify(NotificationLevel::Info, Notice::OpenedExternally),
                Outcome::Failed => self.notify(
                    NotificationLevel::Error,
                    Notice::OpenExternallyFailed,
                ),
                Outcome::Missing => if f.pdf_open {
                    self.notify(NotificationLevel::Error, Notice::NoPdfLoaded)
                } else {
                    self.notify(NotificationLevel::Error, Notice::NoEpubLoaded)
                },
                _ => self,
            },
            Task::JumpBack => if outcome == Outcome::Failed {
                self.notify(NotificationLevel::Error, Notice::JumpBackFailed)
            } else {
                self
            },
            Task::JumpForward => if outcome == Outcome::Failed {
                self.notify(NotificationLevel::Error, Notice::JumpForwardFailed)
            } else {
                self
            },
            Task::DragText { column, row } => if outcome == Outcome::Moved(true) {
                self.emit(Effect::SaveBookmark { force: false })
            } else {
                self
            },
            Task::OpenHistoryBook | Task::JumpToSelectedMark => self,
        }
    }
}

impl Run {
    pub(crate) fn show_panel(&mut self, panel: MainPanel)
        ensures
            final(self)@ == old(self)@.show_panel(panel),
    {
        proof {
            reveal(RunView::show_panel);
        }
        self.set_app(App { focused_panel: FocusedPanel::Main(panel), ..self.app });
    }

    pub(crate) fn await_page(&mut self, page: usize, f: &Facts)
        ensures
            final(self)@ == old(self)@.await_page(page, *f),
    {
        proof {
            reveal(RunView::await_page);
        }
        if !f.pdf_kitty {
            self.set_app(App { pdf_waiting_for_page: Some(page), ..self.app });
        }
    }

    fn handle_search_reply(&mut self, reply: WindowReply, f: &Facts)
        ensures
            final(self)@ == old(self)@.search_reply(reply, *f),
    {
        match reply {
            WindowReply::SearchHit { chapter, node } => {
                self.set_main_panel_focus(MainPanel::Content);
                self.emit(Effect::Perform(Task::GoToSearchHit { chapter, node }));
            },
            WindowReply::PdfSearchHit { page, line } => {
                self.set_main_panel_focus(MainPanel::Content);
                if f.pdf_open {
                    self.emit(Effect::PdfJumpToSearchHit { page, line });
                    self.await_page(page, f);
                }
            },
            WindowReply::Close => {
                self.close_popup_to_previous();
            },
            _ => {},
        }
    }

    fn handle_stats_reply(&mut self, reply: WindowReply, f: &Facts)
        ensures
            final(self)@ == old(self)@.stats_reply(reply, *f),
    {
        match reply {
            WindowReply::Close => {
                self.emit(Effect::HideStats);
                self.close_popup_to_previous();
            },
            WindowReply::ListedChapter(chapter) => {
                self.emit(Effect::HideStats);
                self.set_main_panel_focus(MainPanel::Content);
                if f.pdf_open {
                    self.emit(Effect::PdfGoToPage(chapter));
                } else {
                    self.emit(Effect::Perform(Task::GoToListedChapter { chapter }));
                }
            },
            _ => {},
        }
    }

    fn handle_marks_popup_action(&mut self, reply: WindowReply)
        ensures
            final(self)@ == old(self)@.marks_reply(reply),
    {
        match reply {
            WindowReply::Close => {
                self.leave_window(PopupWindow::MarksList);
            },
            WindowReply::JumpToMark => {
                self.leave_window(PopupWindow::MarksList);
                self.emit(Effect::Perform(Task::JumpToSelectedMark));
            },
            WindowReply::DeleteMark => {
                self.emit(Effect::Perform(Task::DeleteSelectedMark));
            },
            _ => {},
        }
    }

    pub(crate) fn handle_reading_history_action(&mut self, reply: WindowReply)
        ensures
            final(self)@ == old(self)@.history_reply(reply),
    {
        match reply {
            WindowReply::Close => {
                self.leave_window(PopupWindow::ReadingHistory);
            },
            WindowReply::OpenBook { listed } => {
                if listed {
                    self.set_main_panel_focus(MainPanel::Content);
                    self.drop_window(PopupWindow::ReadingHistory);
                    self.emit(Effect::Perform(Task::OpenHistoryBook));
                }
            },
            WindowReply::OpenBookAbsolute => {
                self.emit(Effect::Perform(Task::OpenHistoryBookAbsolute));
            },
            WindowReply::DeleteBookmark { open_now } => {
                if open_now {
                    self.notify(NotificationLevel::Warning, Notice::CannotDeleteOpenBook);
                } else {
                    self.emit(Effect::Perform(Task::RemoveHistoryBookmark));
                }
            },
            _ => {},
        }
    }

    pub(crate) fn save_comments_place(&mut self)
        ensures
            final(self)@ == old(self)@.save_comments_place(),
    {
        if self.app.windows.comments_viewer {
            self.emit(Effect::SaveCommentsPosition);
        }
    }

    fn handle_comments_reply(&mut self, reply: WindowReply, f: &Facts)
        ensures
            final(self)@ == old(self)@.comments_reply(reply, *f),
    {
        match reply {
            WindowReply::Close => {
                self.save_comments_place();
                self.leave_window(PopupWindow::CommentsViewer);
            },
            WindowReply::JumpToComment { pdf_page: page, text_node: node } => {
                self.save_comments_place();
                self.close_popup_to_previous();
                self.set_main_panel_focus(MainPanel::Content);
                match page {
                    Some(p) => {
                        if f.pdf_open {
                            self.emit(Effect::PdfJumpToComment(p));
                        }
                        self.drop_window(PopupWindow::CommentsViewer);
                    },
                    None => {
                        if let Some(n) = node {
                            self.emit(Effect::RestoreNode(n));
                        }
                        self.emit(Effect::Perform(Task::GoToComment));
                    },
                }
            },
            WindowReply::DeleteComment { selected } => {
                if selected {
                    self.emit(Effect::Perform(Task::DeleteSelectedComment));
                }
            },
            WindowReply::ExportComments => {
                self.emit(Effect::Perform(Task::ExportComments));
            },
            _ => {},
        }
    }

    pub(crate) fn leave_lookup(&mut self)
        ensures
            final(self)@ == old(self)@.leave_lookup(),
    {
        let settings_open = self.app.windows.settings_popup;
        self.drop_window(PopupWindow::Lookup);
        if settings_open {
            self.focus_window(PopupWindow::Settings);
        } else {
            self.close_popup_to_previous();
        }
    }

    fn close_disabled_pdf(&mut self)
        ensures
            final(self)@ == old(self)@.close_disabled_pdf(),
    {
        self.emit(Effect::PdfClearGraphics);
        self.emit(Effect::PdfClose);
        self.emit(Effect::ForgetCurrentBook);
        self.emit(Effect::SwitchToBookList);
        self.show_panel(MainPanel::NavigationList);
        self.emit(Effect::SyncTitle);
        self.leave_window(PopupWindow::Settings);
    }

    pub(crate) fn handle_settings_action(&mut self, action: SettingsAction, f: &Facts)
        ensures
            final(self)@ == old(self)@.settings_action(action, *f),
    {
        match action {
            SettingsAction::Close => {
                self.leave_window(PopupWindow::Settings);
            },
            SettingsAction::PageLayoutChanged => {
                if f.pdf_open {
                    self.emit(Effect::PdfResetViewport);
                }
                self.emit(Effect::RememberPosition);
                self.emit(Effect::SyncColumns);
                self.emit(Effect::RestorePosition);
            },
            SettingsAction::SettingsChanged => {
                self.emit(Effect::InvalidateRenderCache);
                self.emit(Effect::PdfApplyTheme);
                self.notify(NotificationLevel::Info, Notice::Theme);
                self.emit(Effect::RefreshBooks);
                self.emit(Effect::ShowBooks);
                if !f.pdf_enabled && f.pdf_open {
                    self.close_disabled_pdf();
                }
            },
            SettingsAction::TestLookupCommand => {
                self.emit(Effect::TestLookupCommand);
            },
            SettingsAction::TestSynctexEditor => {
                self.emit(Effect::TestSynctexEditor);
            },
        }
    }

    fn handle_window_reply(&mut self, w: PopupWindow, reply: WindowReply, f: &Facts)
        ensures
            final(self)@ == old(self)@.window_reply(w, reply, *f),
    {
        match w {
            PopupWindow::BookSearch => {
                self.handle_search_reply(reply, f);
            },
            PopupWindow::BookStats => {
                self.handle_stats_reply(reply, f);
            },
            PopupWindow::MarksList => {
                self.handle_marks_popup_action(reply);
            },
            PopupWindow::ReadingHistory => {
                self.handle_reading_history_action(reply);
            },
            PopupWindow::Help => {
                if reply == WindowReply::Close {
                    self.leave_window(PopupWindow::Help);
                }
            },
            PopupWindow::CommentsViewer => {
                self.handle_comments_reply(reply, f);
            },
            PopupWindow::Settings => {
                if let WindowReply::Settings(action) = reply {
                    self.handle_settings_action(action, f);
                }
            },
            PopupWindow::Lookup => {
                if reply == WindowReply::Close {
                    self.leave_lookup();
                }
            },
            _ => {},
        }
    }

    /// Does what the navigation panel asks for; true where it passed the key by.
    pub(crate) fn handle_navigation_panel_action(
        &mut self,
        action: NavigationPanelAction,
        f: &Facts,
    ) -> (r: bool)
        ensures
            (final(self)@, r) == old(self)@.navigation_action(action, *f),
    {
        match action {
            NavigationPanelAction::Bypass => true,
            NavigationPanelAction::SelectBook => {
                self.emit(Effect::Perform(Task::OpenSelectedBook));
                false
            },
            NavigationPanelAction::SwitchToBookList => {
                self.emit(Effect::SwitchToBookList);
                self.show_panel(MainPanel::NavigationList);
                false
            },
            NavigationPanelAction::NavigateToChapter(destination) => {
                match destination {
                    TocDestination::PdfPage(Some(page)) => {
                        self.emit(Effect::PdfGoToPage(page));
                        self.show_panel(MainPanel::Content);
                    },
                    TocDestination::PdfPage(None) => {},
                    TocDestination::External => {
                        self.emit(Effect::OpenExternalLink);
                    },
                    TocDestination::Chapter(Some(chapter)) => {
                        self.emit(Effect::NavigateToHref { chapter });
                        self.show_panel(MainPanel::Content);
                    },
                    TocDestination::Chapter(None) => {
                        self.notify(NotificationLevel::Error, Notice::ChapterNotFound);
                    },
                }
                false
            },
            NavigationPanelAction::ToggleSection => {
                self.emit(Effect::ToggleSelectedSection);
                self.emit(Effect::PersistTocExpansion);
                false
            },
            NavigationPanelAction::TocExpansionChanged => {
                self.emit(Effect::PersistTocExpansion);
                false
            },
            NavigationPanelAction::ToggleSortOrder => {
                self.emit(Effect::ToggleSortOrder);
                self.emit(Effect::ShowBooks);
                self.emit(Effect::SelectOpenBook);
                if f.sorted_by_name {
                    self.notify(NotificationLevel::Info, Notice::SortedByType);
                } else {
                    self.notify(NotificationLevel::Info, Notice::SortedByName);
                }
                false
            },
        }
    }

    fn handle_task_done(&mut self, task: Task, outcome: Outcome, f: &Facts)
        ensures
            final(self)@ == old(self)@.task_done(task, outcome, *f),
    {
        match task {
            Task::ReloadKeybindings => {
                if outcome == Outcome::Keymap(0) {
                    self.notify(NotificationLevel::Info, Notice::KeybindingsReloaded);
                } else {
                    self.remember_panel();
                    self.open_window(PopupWindow::KeybindingErrors);
                }
            },
            Task::CalculateStats => {
                match outcome {
                    Outcome::Done => {
                        self.remember_panel();
                        self.emit(Effect::ShowStats);
                        self.focus_window(PopupWindow::BookStats);
                    },
                    Outcome::Failed => {
                        self.notify(NotificationLevel::Error, Notice::StatisticsFailed);
                    },
                    _ => {},
                }
            },
            Task::IndexPdf { clear_input } => {
                if outcome == Outcome::Done {
                    self.emit(Effect::OpenSearch { clear_input });
                    self.focus_window(PopupWindow::BookSearch);
                }
            },
            Task::DeleteCommentAtCursor => {
                match outcome {
                    Outcome::Removed(true) => {
                        self.notify(NotificationLevel::Info, Notice::AnnotationRemoved);
                    },
                    Outcome::Failed => {
                        self.notify(NotificationLevel::Error, Notice::DeleteAnnotationFailed);
                    },
                    _ => {},
                }
            },
            Task::DeleteSelectedComment => {
                if let Outcome::Deleted { comments, failed } = outcome {
                    if failed {
                        self.notify(NotificationLevel::Error, Notice::DeleteCommentFailed);
                    } else if comments > 1 {
                        self.emit(Effect::RemoveSelectedComment);
                        self.notify(NotificationLevel::Info, Notice::AnnotationsDeleted);
                    } else if comments == 1 {
                        self.emit(Effect::RemoveSelectedComment);
                        self.notify(NotificationLevel::Info, Notice::AnnotationDeleted);
                    }
                }
            },
            Task::ExportComments => {
                match outcome {
                    Outcome::Done => {
                        self.notify(NotificationLevel::Info, Notice::ExportedComments);
                    },
                    Outcome::Failed => {
                        self.notify(NotificationLevel::Error, Notice::ExportFailed);
                    },
                    _ => {},
                }
            },
            Task::GoToSearchHit { chapter, node } => {
                if outcome == Outcome::Done {
                    self.emit(Effect::RestoreNode(node));
                    self.emit(Effect::QueueSearchHit(node));
                } else {
                    self.notify(NotificationLevel::Error, Notice::NavigateToChapterFailed);
                }
            },
            Task::GoToListedChapter { chapter } => {
                if outcome != Outcome::Done {
                    self.notify(NotificationLevel::Error, Notice::NavigateToChapterFailed);
                }
            },
            Task::GoToComment => {
                if outcome != Outcome::Done {
                    self.notify(NotificationLevel::Error, Notice::NavigateToCommentFailed);
                }
            },
            Task::OpenSelectedBook => {
                if outcome != Outcome::Done {
                    self.notify(NotificationLevel::Error, Notice::OpenBookFailed);
                }
            },
            Task::OpenHistoryBookAbsolute => {
                match outcome {
                    Outcome::Done => {
                        self.set_main_panel_focus(MainPanel::Content);
                        self.drop_window(PopupWindow::ReadingHistory);
                    },
                    Outcome::SourceFailed => {
                        self.notify(NotificationLevel::Error, Notice::SourceBookmarksFailed);
                    },
                    _ => {
                        self.notify(NotificationLevel::Error, Notice::OpenBookFailed);
                    },
                }
            },
            Task::RemoveHistoryBookmark => {
                if outcome == Outcome::Removed(true) && self.app.windows.reading_history {
                    self.emit(Effect::ReloadHistory);
                }
            },
            Task::DeleteSelectedMark => {
                if outcome == Outcome::Removed(true) && self.app.windows.marks_popup {
                    self.emit(Effect::RebuildMarks);
                }
            },
            Task::SetMark(ch) => {
                match outcome {
                    Outcome::Missing => {
                        self.notify(NotificationLevel::Warning, Notice::NoBookForMark);
                    },
                    Outcome::LocalMark(true) => {
                        self.notify(NotificationLevel::Info, Notice::SetLocalMark(ch));
                    },
                    Outcome::LocalMark(false) => {
                        self.notify(NotificationLevel::Warning, Notice::LocalMarkRefused(ch));
                    },
                    Outcome::GlobalMark => {
                        self.notify(NotificationLevel::Info, Notice::SetGlobalMark(ch));
                    },
                    _ => {},
                }
            },
            Task::GotoMark(ch) => {
                match outcome {
                    Outcome::Missing => {
                        self.notify(NotificationLevel::Warning, Notice::NoBookOpen);
                    },
                    Outcome::NoLocalMark => {
                        self.notify(NotificationLevel::Warning, Notice::NoLocalMark(ch));
                    },
                    Outcome::NoGlobalMark => {
                        self.notify(NotificationLevel::Warning, Notice::NoGlobalMark(ch));
                    },
                    _ => {},
                }
            },
            Task::OpenExternalViewer => {
                match outcome {
                    Outcome::Done => {
                        self.notify(NotificationLevel::Info, Notice::OpenedExternally);
                    },
                    Outcome::Failed => {
                        self.notify(NotificationLevel::Error, Notice::OpenExternallyFailed);
                    },
                    Outcome::Missing => {
                        if f.pdf_open {
                            self.notify(NotificationLevel::Error, Notice::NoPdfLoaded);
                        } else {
                            self.notify(NotificationLevel::Error, Notice::NoEpubLoaded);
                        }
                    },
                    _ => {},
                }
            },
            Task::JumpBack => {
                if outcome == Outcome::Failed {
                    self.notify(NotificationLevel::Error, Notice::JumpBackFailed);
                }
            },
            Task::JumpForward => {
                if outcome == Outcome::Failed {
                    self.notify(NotificationLevel::Error, Notice::JumpForwardFailed);
                }
            },
            Task::DragText { column, row } => {
                if outcome == Outcome::Moved(true) {
                    self.emit(Effect::SaveBookmark { force: false });
                }
            },
            Task::OpenHistoryBook | Task::JumpToSelectedMark => {},
        }
    }
}

impl App {
    /// Does what the window that was asked wants done.
    pub fn handle_popup_reply(&mut self, w: PopupWindow, reply: WindowReply, f: &Facts) -> (r: Vec<
        Effect,
    >)
        ensures
            *final(self) == RunView::start(*old(self)).window_reply(w, reply, *f).app,
            r@ == RunView::start(*old(self)).window_reply(w, reply, *f).out,
    {
        let mut run = Run::start(*self);
        run.handle_window_reply(w, reply, f);
        *self = run.app;
        run.out
    }

    /// Does what the settings want done.
    pub fn handle_settings_action(&mut self, action: SettingsAction, f: &Facts) -> (r: Vec<Effect>)
        ensures
            *final(self) == RunView::start(*old(self)).settings_action(action, *f).app,
            r@ == RunView::start(*old(self)).settings_action(action, *f).out,
    {
        let mut run = Run::start(*self);
        run.handle_settings_action(action, f);
        *self = run.app;
        run.out
    }

    /// Does what the reading history wants done.
    pub fn handle_reading_history_action(&mut self, reply: WindowReply) -> (r: Vec<Effect>)
        ensures
            *final(self) == RunView::start(*old(self)).history_reply(reply).app,
            r@ == RunView::start(*old(self)).history_reply(reply).out,
    {
        let mut run = Run::start(*self);
        run.handle_reading_history_action(reply);
        *self = run.app;
        run.out
    }

    /// Does what the navigation panel wants done; true where it passed the key by.
    pub fn handle_navigation_panel_action(
        &mut self,
        action: NavigationPanelAction,
        f: &Facts,
    ) -> (r: (bool, Vec<Effect>))
        ensures
            ({
                let (run, bypass) = RunView::start(*old(self)).navigation_action(action, *f);
                &&& *final(self) == run.app
                &&& r.1@ == run.out
                &&& r.0 == bypass
            }),
    {
        let mut run = Run::start(*self);
        let bypass = run.handle_navigation_panel_action(action, f);
        *self = run.app;
        (bypass, run.out)
    }

    /// Shows the list of books.
    pub fn switch_to_book_list_mode(&mut self) -> (r: Vec<Effect>)
        ensures
            ({
                let run = RunView::start(*old(self)).emit(Effect::SwitchToBookList).show_panel(
                    MainPanel::NavigationList,
                );
                &&& *final(self) == run.app
                &&& r@ == run.out
            }),
    {
        let mut run = Run::start(*self);
        run.emit(Effect::SwitchToBookList);
        run.show_panel(MainPanel::NavigationList);
        *self = run.app;
        run.out
    }

    /// Goes on after a work that was asked for.
    pub fn task_done(&mut self, task: Task, outcome: Outcome, f: &Facts) -> (r: Vec<Effect>)
        ensures
            *final(self) == RunView::start(*old(self)).task_done(task, outcome, *f).app,
            r@ == RunView::start(*old(self)).task_done(task, outcome, *f).out,
    {
        let mut run = Run::start(*self);
        run.handle_task_done(task, outcome, f);
        *self = run.app;
        run.out
    }
}

// ---------------------------------------------------------------------------------------------
// Laws
// ---------------------------------------------------------------------------------------------
pub(crate) proof fn lemma_show_panel_sound(r: RunView, panel: MainPanel, page: usize, f: Facts)
    ensures
        sound(r.show_panel(panel)),
        sound(r) ==> sound(r.await_page(page, f)),
{
    reveal(RunView::show_panel);
    reveal(RunView::await_page);
    reveal(RunView::to);
    reveal(sound);
}

pub(crate) proof fn lemma_drop_from_main_sound(r: RunView, panel: MainPanel, w: PopupWindow)
    ensures
        sound(r.focus_main(panel).drop_window(w)),
{
    reveal(RunView::focus_main);
    reveal(RunView::drop_window);
    reveal(RunView::emit);
    reveal(RunView::to);
    reveal(sound);
}

/// Whatever a window asks for, a window that has the focus afterwards exists.
pub proof fn law_window_replies_are_sound(r: RunView, w: PopupWindow, reply: WindowReply, f: Facts)
    requires
        sound(r),
    ensures
        sound(r.window_reply(w, reply, f)),
{
    broadcast use group_run_sound;

    match reply {
        WindowReply::PdfSearchHit { page, line } => {
            lemma_show_panel_sound(
                r.focus_main(MainPanel::Content).emit(Effect::PdfJumpToSearchHit { page, line }),
                MainPanel::Content,
                page,
                f,
            );
        },
        WindowReply::OpenBook { listed } => {
            lemma_drop_from_main_sound(r, MainPanel::Content, PopupWindow::ReadingHistory);
        },
        WindowReply::JumpToComment { pdf_page: page, text_node: node } => {
            let s = r.save_comments_place().close_popup();
            lemma_drop_from_main_sound(s, MainPanel::Content, PopupWindow::CommentsViewer);
            if let Some(p) = page {
                lemma_drop_behind_page_sound(s, p);
            }
        },
        WindowReply::Settings(action) => {
            law_settings_are_sound(r, action, f);
        },
        _ => {},
    }
}

proof fn lemma_drop_behind_page_sound(r: RunView, p: usize)
    ensures
        sound(
            r.focus_main(MainPanel::Content).emit(Effect::PdfJumpToComment(p)).drop_window(
                PopupWindow::CommentsViewer,
            ),
        ),
{
    reveal(RunView::focus_main);
    reveal(RunView::drop_window);
    reveal(RunView::emit);
    reveal(RunView::to);
    reveal(sound);
}

/// Whatever the settings ask for, a window that has the focus afterwards exists.
pub proof fn law_settings_are_sound(r: RunView, action: SettingsAction, f: Facts)
    requires
        sound(r),
    ensures
        sound(r.settings_action(action, f)),
{
    broadcast use group_run_sound;

}

/// Whatever the navigation panel asks for, a window that has the focus afterwards exists.
pub proof fn law_navigation_is_sound(r: RunView, action: NavigationPanelAction, f: Facts)
    requires
        sound(r),
    ensures
        sound(r.navigation_action(action, f).0),
{
    broadcast use group_run_sound;

    lemma_show_panel_sound(
        r.emit(Effect::SwitchToBookList),
        MainPanel::NavigationList,
        0,
        f,
    );
    if let NavigationPanelAction::NavigateToChapter(TocDestination::PdfPage(Some(page))) = action {
        lemma_show_panel_sound(r.emit(Effect::PdfGoToPage(page)), MainPanel::Content, 0, f);
    }
    if let NavigationPanelAction::NavigateToChapter(TocDestination::Chapter(Some(chapter))) = action {
        lemma_show_panel_sound(r.emit(Effect::NavigateToHref { chapter }), MainPanel::Content, 0, f);
    }
}

/// Whatever a finished work leads to, a window that has the focus afterwards exists.
pub proof fn law_finished_work_is_sound(r: RunView, task: Task, outcome: Outcome, f: Facts)
    requires
        sound(r),
    ensures
        sound(r.task_done(task, outcome, f)),
{
    broadcast use group_run_sound;

    lemma_drop_from_main_sound(r, MainPanel::Content, PopupWindow::ReadingHistory);
}

/// Only a key that the navigation panel passed by goes on to the reader; passing by does nothing else.
pub proof fn law_bypass_does_nothing(r: RunView, action: NavigationPanelAction, f: Facts)
    ensures
        r.navigation_action(action, f).1 <==> action == NavigationPanelAction::Bypass,
        r.navigation_action(action, f).1 ==> r.navigation_action(action, f).0 == r,
{
}

/// A lookup opened from the settings gives the focus back to them.
pub proof fn law_lookup_returns_to_the_settings(r: RunView)
    requires
        r.app.windows.settings_popup,
    ensures
        r.leave_lookup().app.focused_panel == FocusedPanel::Popup(PopupWindow::Settings),
        !r.leave_lookup().app.windows.lookup_popup,
{
    reveal(RunView::drop_window);
    reveal(RunView::focus_window);
    reveal(RunView::emit);
    reveal(RunView::to);
}

} // verus!
