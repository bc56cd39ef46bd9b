use bookokrat::inputs::event::{
    Event, KeyCode, KeyEvent, KeyEventKind, KeyModifiers, MouseButton, MouseEvent, MouseEventKind,
};
use bookokrat::main_app::drawing::{desired_terminal_title, DrawFacts, DrawOp};
use bookokrat::main_app::event_loop::{
    takes_event, tick_due, tick_redraws, wait_time, FPSCounter, LoopFacts, LoopNext, TickFacts,
};
use bookokrat::main_app::mouse::{
    doubled_size, image_bounds, BatchStep, ClickFacts, ClickTarget, ClickType, MouseNext,
    PressFacts, ScrollBatch,
};
use bookokrat::main_app::pdf_events::{
    apply_pending_synctex_forward, handle_pdf_reload, toggle_pdf_watching, watching_message,
    PdfAction, PdfAnswer, ReloadStep, WatchPlan,
};
use bookokrat::main_app::state::{
    Action, App, AppAction, ChapterDirection, Effect, Facts, FocusedPanel, HighlightColor,
    HighlightTarget, KeyLookup, Lookup, MainPanel, Motion, NavigationPanelAction, Next, Notice,
    NotificationLevel, OpenPosition, Outcome, PaletteKey, PendingMarkOp, PendingYank, PopupWindow,
    Question, Rect, SearchMode, SettingsAction, Task, TocDestination, WindowReply,
};

fn facts() -> Facts {
    let nothing = KeyLookup { sequence: Lookup::NoMatch, single: Lookup::NoMatch };
    Facts {
        key_sequence_empty: true,
        sequence_is_global_prefix: false,
        global: nothing,
        normal: nothing,
        content: nothing,
        palette_key: PaletteKey::UnknownKey,
        book_open: true,
        pdf_open: false,
        shows_toc: true,
        has_notification: false,
        navigation_search: None,
        text_search: None,
        comment_input_active: false,
        has_text_selection: false,
        normal_mode: false,
        visual_mode: None,
        pending_motion: false,
        pending_yank: PendingYank::Idle,
        pending_count: false,
        count: 1,
        highlight_here: None,
        visible_height: 20,
        invert_scroll: false,
        justify_text: false,
        pdf_has_comments: false,
        selection_has_text: false,
        pdf_kitty: false,
        pdf_enabled: true,
        sorted_by_name: true,
    }
}

fn app() -> App {
    let mut a = App::new_with_config(Some((100, 40)), None, true, true);
    a.focused_panel = FocusedPanel::Main(MainPanel::Content);
    a
}

fn key(c: char) -> KeyEvent {
    KeyEvent {
        code: KeyCode::Char(c),
        modifiers: KeyModifiers::empty(),
        kind: KeyEventKind::Press,
    }
}

fn mouse(kind: MouseEventKind, column: u16, row: u16) -> MouseEvent {
    MouseEvent { kind, column, row, modifiers: KeyModifiers::empty() }
}

fn found(action: Action) -> KeyLookup {
    KeyLookup { sequence: Lookup::Found(action), single: Lookup::Found(action) }
}

fn press() -> PressFacts {
    PressFacts { help_button: None, outside_window: false }
}

// ---------------------------------------------------------------------------------------------
// Global actions
// ---------------------------------------------------------------------------------------------
#[test]
fn zen_mode_hides_the_navigation_panel() {
    let mut a = app();
    a.focused_panel = FocusedPanel::Main(MainPanel::NavigationList);
    assert_eq!(a.nav_panel_width(), 30);
    let (handled, _) = a.dispatch_global_action(Action::ToggleZenMode, &facts());
    assert!(handled && a.is_zen_mode());
    assert_eq!(a.nav_panel_width(), 0);
    assert!(a.is_main_panel(MainPanel::Content));
    a.dispatch_global_action(Action::ToggleZenMode, &facts());
    assert!(!a.is_zen_mode());
    assert_eq!(a.nav_panel_width(), 30);
}

#[test]
fn windows_open_and_close() {
    for (action, window) in [
        (Action::ToggleReadingHistory, PopupWindow::ReadingHistory),
        (Action::ToggleMarksList, PopupWindow::MarksList),
        (Action::ToggleHelp, PopupWindow::Help),
        (Action::OpenSettings, PopupWindow::Settings),
    ] {
        let mut a = app();
        let (handled, effects) = a.dispatch_global_action(action, &facts());
        assert!(handled);
        assert!(!effects.is_empty());
        assert_eq!(a.focused_panel, FocusedPanel::Popup(window));
        assert!(a.has_active_popup());
    }
    let mut a = app();
    a.dispatch_global_action(Action::ToggleReadingHistory, &facts());
    a.dispatch_global_action(Action::ToggleReadingHistory, &facts());
    assert!(a.is_main_panel(MainPanel::Content) && !a.has_active_popup());
}

#[test]
fn navigation_width_stays_in_bounds() {
    let mut a = app();
    for _ in 0..100 {
        a.dispatch_global_action(Action::ExpandNavPanel, &facts());
    }
    assert_eq!(a.nav_panel_width(), 50);
    for _ in 0..100 {
        a.dispatch_global_action(Action::ShrinkNavPanel, &facts());
    }
    assert_eq!(a.nav_panel_width(), 5);
    a.dispatch_global_action(Action::ResetNavPanelWidth, &facts());
    assert_eq!(a.nav_panel_width(), a.default_nav_panel_width());
}

#[test]
fn keymap_errors_open_their_window() {
    let mut a = app();
    a.open_keybinding_errors_popup(0);
    assert!(!a.has_active_popup());
    a.open_keybinding_errors_popup(2);
    assert_eq!(a.focused_panel, FocusedPanel::Popup(PopupWindow::KeybindingErrors));
    let mut b = app();
    b.show_all_libraries_history();
    assert_eq!(b.focused_panel, FocusedPanel::Popup(PopupWindow::ReadingHistory));
}

#[test]
fn redraw_is_asked_for() {
    let mut a = app();
    let (handled, _) = a.dispatch_global_action(Action::ForceRedraw, &facts());
    assert!(handled && a.pending_force_redraw);
    let (handled, effects) = a.dispatch_global_action(Action::MoveDown, &facts());
    assert!(!handled && effects.is_empty());
}

// ---------------------------------------------------------------------------------------------
// Keys
// ---------------------------------------------------------------------------------------------
#[test]
fn quitting_saves_the_place() {
    let mut a = app();
    let f = Facts { content: found(Action::Quit), ..facts() };
    let turn = a.handle_key_event(key('q'), &f);
    assert!(matches!(turn.next, Next::Done(Some(AppAction::Quit))));
    assert!(turn.effects.contains(&Effect::SaveBookmark { force: true }));
    let (end, effects) = app().dispatch_epub_content_action(Action::Quit, &facts());
    assert_eq!(end, Some(AppAction::Quit));
    assert_eq!(effects, vec![Effect::SaveBookmark { force: true }]);
}

#[test]
fn any_key_closes_an_image() {
    let mut a = app();
    a.image_opened();
    assert_eq!(a.focused_panel, FocusedPanel::Popup(PopupWindow::ImagePopup));
    let turn = a.handle_key_event(key('x'), &facts());
    assert!(matches!(turn.next, Next::Done(None)));
    assert!(a.is_main_panel(MainPanel::Content));
    assert!(!a.windows.image_popup);
}

#[test]
fn windows_get_the_keys() {
    let mut a = app();
    a.dispatch_global_action(Action::ToggleHelp, &facts());
    let turn = a.handle_key_event(key('j'), &facts());
    assert!(matches!(turn.next, Next::Ask(Question::PopupKey(PopupWindow::Help))));
    assert_eq!(turn.effects, vec![Effect::DismissErrorHud]);
}

#[test]
fn comment_editor_comes_first() {
    let mut a = app();
    a.pending_mark_op = Some(PendingMarkOp::Assign);
    let f = Facts { comment_input_active: true, ..facts() };
    let turn = a.handle_key_event(key('a'), &f);
    assert!(matches!(turn.next, Next::Ask(Question::CommentInput)));
    assert_eq!(a.pending_mark_op, Some(PendingMarkOp::Assign));
}

#[test]
fn marks_take_the_next_key() {
    let mut a = app();
    a.pending_mark_op = Some(PendingMarkOp::Assign);
    let turn = a.handle_key_event(key('a'), &facts());
    assert!(turn.effects.contains(&Effect::Perform(Task::SetMark('a'))));
    assert_eq!(a.pending_mark_op, None);
    a.pending_mark_op = Some(PendingMarkOp::Goto);
    let (taken, effects) = a.handle_pending_mark_input(key('b'));
    assert!(taken && effects.contains(&Effect::Perform(Task::GotoMark('b'))));
    let (taken, _) = a.handle_pending_mark_input(key('b'));
    assert!(!taken);
}

#[test]
fn navigation_panel_is_offered_its_keys() {
    let mut a = app();
    a.focused_panel = FocusedPanel::Main(MainPanel::NavigationList);
    let turn = a.handle_key_event(key('j'), &facts());
    assert!(matches!(turn.next, Next::Ask(Question::NavigationKey)));
}

#[test]
fn typed_queries_keep_the_state() {
    let before = app();
    let mut a = app();
    let f = Facts { text_search: Some(SearchMode::InputMode), ..facts() };
    let turn = a.handle_key_event(key('q'), &f);
    assert!(matches!(turn.next, Next::Done(None)));
    assert_eq!(a, before);
    assert!(turn.effects.iter().any(|e| matches!(e, Effect::SearchType(_, 'q'))));
}

#[test]
fn counts_are_offered_in_normal_mode() {
    let mut a = app();
    let f = Facts { normal_mode: true, ..facts() };
    let turn = a.handle_key_event(key('5'), &f);
    assert!(matches!(turn.next, Next::Ask(Question::CountDigit('5'))));
    let f = Facts { normal_mode: true, count: 5, normal: found(Action::MoveDown), ..facts() };
    let (_, effects) = a.dispatch_epub_normal_action(Action::MoveDown, &f);
    assert!(effects.contains(&Effect::Move { motion: Motion::Down, times: 5 }));
}

#[test]
fn highlight_palette_applies_and_removes() {
    let red = HighlightColor { index: 1 };
    let mut a = app();
    a.pending_highlight_palette = true;
    a.highlight_palette_target = Some(HighlightTarget { highlight: 7, color: red });
    let f = Facts { normal_mode: true, palette_key: PaletteKey::Apply(red), ..facts() };
    assert!(a.is_highlight_palette_active(&f));
    let turn = a.handle_key_event(key('r'), &f);
    assert!(turn.effects.contains(&Effect::RemoveHighlight(7)));
    assert!(!a.pending_highlight_palette && a.highlight_palette_target.is_none());
}

#[test]
fn content_keys_scroll() {
    let mut a = app();
    assert!(a.scroll_down().iter().any(|e| matches!(e, Effect::ScrollText(_))));
    assert!(a.scroll_up().iter().any(|e| matches!(e, Effect::ScrollText(_))));
    assert!(a.scroll_half_screen_down(10).iter().any(|e| matches!(e, Effect::ScrollText(_))));
    let (_, effects) = a.dispatch_epub_content_action(Action::NextChapter, &facts());
    assert!(effects.contains(&Effect::NavigateChapter(ChapterDirection::Next)));
    let (_, _) = a.dispatch_epub_content_action(Action::SwitchFocus, &facts());
    assert!(a.is_main_panel(MainPanel::NavigationList));
}

// ---------------------------------------------------------------------------------------------
// Windows and finished work
// ---------------------------------------------------------------------------------------------
#[test]
fn closed_windows_return_to_the_panel() {
    let mut a = app();
    a.dispatch_global_action(Action::ToggleReadingHistory, &facts());
    a.handle_popup_reply(PopupWindow::ReadingHistory, WindowReply::Close, &facts());
    assert!(a.is_main_panel(MainPanel::Content));
    assert!(!a.windows.reading_history);
}

#[test]
fn settings_close() {
    let mut a = app();
    a.dispatch_global_action(Action::OpenSettings, &facts());
    a.handle_settings_action(SettingsAction::Close, &facts());
    assert!(a.is_main_panel(MainPanel::Content));
}

#[test]
fn navigation_actions_are_carried_out() {
    let mut a = app();
    let (bypass, effects) = a.handle_navigation_panel_action(NavigationPanelAction::Bypass, &facts());
    assert!(bypass && effects.is_empty());
    let (bypass, effects) = a.handle_navigation_panel_action(
        NavigationPanelAction::NavigateToChapter(TocDestination::Chapter(Some(4))),
        &facts(),
    );
    assert!(!bypass);
    assert!(effects.contains(&Effect::NavigateToHref { chapter: 4 }));
    let (_, effects) = a.handle_navigation_panel_action(NavigationPanelAction::SelectBook, &facts());
    assert!(effects.contains(&Effect::Perform(Task::OpenSelectedBook)));
}

#[test]
fn finished_work_is_told() {
    let mut a = app();
    let effects = a.task_done(Task::SetMark('a'), Outcome::LocalMark(true), &facts());
    assert_eq!(effects, vec![Effect::Notify(NotificationLevel::Info, Notice::SetLocalMark('a'))]);
    let effects = a.task_done(Task::SetMark('a'), Outcome::LocalMark(false), &facts());
    assert_eq!(
        effects,
        vec![Effect::Notify(NotificationLevel::Warning, Notice::LocalMarkRefused('a'))]
    );
    let effects = a.task_done(Task::GotoMark('B'), Outcome::NoGlobalMark, &facts());
    assert_eq!(
        effects,
        vec![Effect::Notify(NotificationLevel::Warning, Notice::NoGlobalMark('B'))]
    );
    let effects = a.task_done(Task::OpenExternalViewer, Outcome::Done, &facts());
    assert_eq!(effects, vec![Effect::Notify(NotificationLevel::Info, Notice::OpenedExternally)]);
}

#[test]
fn failed_jumps_are_told() {
    let mut a = app();
    let f = facts();
    for (task, notice) in [
        (Task::JumpBack, Notice::JumpBackFailed),
        (Task::JumpForward, Notice::JumpForwardFailed),
    ] {
        assert!(a.task_done(task, Outcome::Done, &f).is_empty());
        assert!(a.task_done(task, Outcome::Missing, &f).is_empty());
        assert_eq!(
            a.task_done(task, Outcome::Failed, &f),
            vec![Effect::Notify(NotificationLevel::Error, notice)]
        );
    }
}

#[test]
fn prevented_actions_do_nothing() {
    let mut a = app();
    a.focused_panel = FocusedPanel::Main(MainPanel::NavigationList);
    let nothing_open = Facts { book_open: false, pdf_open: false, ..facts() };
    for action in [
        Action::OpenBookSearch,
        Action::OpenBookSearchFresh,
        Action::ToggleBookStats,
        Action::ToggleCommentsViewer,
        Action::ToggleJustifyText,
        Action::CopyChapterText,
        Action::CopyTocItem,
        Action::TogglePdfWatching,
        Action::TogglePdfPageLayout,
        Action::GoToPage,
        Action::TogglePdfRenderMode,
    ] {
        let before = a;
        let (done, effects) = a.dispatch_global_action(action, &nothing_open);
        assert!(!done && effects.is_empty(), "{action:?}");
        assert_eq!(a, before, "{action:?}");
    }
    let pdf = Facts { book_open: false, pdf_open: true, pdf_has_comments: false, ..facts() };
    assert!(!a.dispatch_global_action(Action::ToggleCommentsViewer, &pdf).0);
    assert!(!a.dispatch_global_action(Action::OpenBookSearch, &facts()).0);
    a.epub_loaded(true);
    assert!(a.dispatch_global_action(Action::OpenBookSearch, &facts()).0);
    assert!(a.has_active_popup());
}

#[test]
fn lookups_return_to_the_settings() {
    let mut a = app();
    a.dispatch_global_action(Action::OpenSettings, &facts());
    a.lookup_done();
    assert_eq!(a.focused_panel, FocusedPanel::Popup(PopupWindow::Lookup));
    a.handle_popup_reply(PopupWindow::Lookup, WindowReply::Close, &facts());
    assert_eq!(a.focused_panel, FocusedPanel::Popup(PopupWindow::Settings));
}

// ---------------------------------------------------------------------------------------------
// Mouse
// ---------------------------------------------------------------------------------------------
#[test]
fn border_is_dragged() {
    let mut a = app();
    let f = facts();
    assert!(a.is_on_border(29) || a.is_on_border(30));
    let column: u16 = if a.is_on_border(30) { 30 } else { 29 };
    a.handle_non_scroll_mouse_event(mouse(MouseEventKind::Down(MouseButton::Left), column, 5), &press(), &f);
    assert!(a.resizing_nav_panel);
    a.handle_non_scroll_mouse_event(mouse(MouseEventKind::Drag(MouseButton::Left), 40, 5), &press(), &f);
    assert_eq!(a.nav_panel_width(), 40);
    a.handle_non_scroll_mouse_event(mouse(MouseEventKind::Up(MouseButton::Left), 40, 5), &press(), &f);
    assert!(!a.resizing_nav_panel);
    assert_eq!(a.nav_panel_width(), 40);
}

#[test]
fn clicks_reach_what_they_hit() {
    let mut a = app();
    let down = mouse(MouseEventKind::Down(MouseButton::Left), 60, 5);
    let (next, _) = a.handle_non_scroll_mouse_event(down, &press(), &facts());
    assert_eq!(next, MouseNext::Click(ClickTarget::Content));
    let down = mouse(MouseEventKind::Down(MouseButton::Left), 3, 5);
    let (next, _) = a.handle_non_scroll_mouse_event(down, &press(), &facts());
    assert_eq!(next, MouseNext::Click(ClickTarget::Navigation));
    let c = ClickFacts {
        click: ClickType::Double,
        hit: true,
        history: WindowReply::Nothing,
        chapter: None,
        comment: None,
        settings: None,
        expansion_toggled: false,
        enter: None,
        image: false,
        link: false,
    };
    let effects = a.handle_click(ClickTarget::Content, mouse(MouseEventKind::Down(MouseButton::Left), 60, 5), &c, &facts());
    assert!(effects.contains(&Effect::TextDoubleClick { column: 60, row: 5 }));
}

#[test]
fn windows_shield_the_text_from_the_mouse() {
    let mut a = app();
    a.dispatch_global_action(Action::ToggleHelp, &facts());
    let before = a;
    let (next, effects) =
        a.handle_non_scroll_mouse_event(mouse(MouseEventKind::Up(MouseButton::Left), 60, 5), &press(), &facts());
    assert_eq!((next, a), (MouseNext::Done, before));
    assert!(effects.is_empty());
}

#[test]
fn wheel_events_are_counted_together() {
    let mut b = ScrollBatch::start(MouseEventKind::ScrollDown);
    assert!(b.wants_more());
    assert!(b.begin(0));
    assert!(matches!(b.take(mouse(MouseEventKind::ScrollDown, 0, 0)), BatchStep::Continue));
    assert!(b.begin(0));
    assert!(matches!(b.take(mouse(MouseEventKind::ScrollUp, 0, 0)), BatchStep::Continue));
    assert!(b.begin(0));
    assert!(matches!(b.take(mouse(MouseEventKind::ScrollLeft, 0, 0)), BatchStep::Stop));
    assert!(b.begin(100_000_000));
    let click = mouse(MouseEventKind::Down(MouseButton::Left), 1, 1);
    assert!(matches!(b.take(click), BatchStep::Handle(e) if e == click));
    assert_eq!(b.net(), 1);
    assert!(!b.begin(100_000_001));
    let mut many = ScrollBatch::start(MouseEventKind::ScrollUp);
    for _ in 0..50 {
        assert!(many.wants_more());
        many.begin(1);
        many.take(mouse(MouseEventKind::ScrollUp, 0, 0));
    }
    assert!(!many.wants_more());
    assert_eq!(many.net(), -51);
}

#[test]
fn wheel_scrolls_at_most_ten_steps() {
    let mut a = app();
    assert!(a.apply_scroll(0, 60, &facts()).is_empty());
    let count = |effects: Vec<Effect>| {
        effects.iter().filter(|e| matches!(e, Effect::ScrollText(_))).count()
    };
    let few = count(a.apply_scroll(3, 60, &facts()));
    let many = count(a.apply_scroll(500, 60, &facts()));
    assert!(few >= 1 && few <= many && many <= 10);
}

#[test]
fn images_are_doubled_where_they_fit() {
    assert_eq!(image_bounds(100, 40, 8, 16), (94 * 8, 34 * 16));
    assert_eq!(image_bounds(3, 3, 8, 16), (0, 0));
    assert_eq!(doubled_size(100, 50, 200, 100), Some((200, 100)));
    assert_eq!(doubled_size(100, 50, 199, 100), None);
    assert_eq!(doubled_size(100, 51, 200, 100), None);
}

// ---------------------------------------------------------------------------------------------
// Drawing
// ---------------------------------------------------------------------------------------------
fn shown() -> DrawFacts {
    DrawFacts { auto_scrolled: false, pdf_open: false, pdf_kitty: false, book_open: true, visual_mode: false }
}

#[test]
fn parts_cover_the_screen_at_every_size() {
    for width in [0u16, 1, 2, 9, 10, 11, 37, 80, 100, 200, 1000] {
        for height in [0u16, 1, 2, 3, 4, 10, 40, 500] {
            let mut a = App::new_with_config(Some((width, height)), None, false, false);
            a.focused_panel = FocusedPanel::Main(MainPanel::Content);
            let nav = a.get_navigation_panel_area();
            let bar = height.min(3);
            assert_eq!((nav.x, nav.y), (0, 0), "{width}x{height}");
            assert_eq!(nav.height, height - bar, "{width}x{height}");
            assert_eq!(nav.width, a.nav_panel_width().min(width), "{width}x{height}");
            let area = Rect { x: 0, y: 0, width, height };
            let (_, ops) = a.draw(area, &shown());
            let mut text = None;
            let mut help = None;
            for op in &ops {
                if let DrawOp::Text { area, .. } = op {
                    text = Some(*area);
                }
                if let DrawOp::HelpBar(area) = op {
                    help = Some(*area);
                }
            }
            let text = text.expect("the text is drawn");
            let help = help.expect("the bar is drawn");
            assert_eq!(text.x, nav.width);
            assert_eq!(text.width, width - nav.width, "{width}x{height}");
            assert_eq!((help.y, help.height, help.width), (height - bar, bar, width));
        }
    }
}

#[test]
fn chosen_width_splits_the_screen() {
    for width in [0u16, 1, 5, 6, 49, 50, 51, 99, 640, 4097, 32768, 65535] {
        for height in [0u16, 2, 3, 7, 1023, 65535] {
            for chosen in [0u16, 1, 4, 5, 33, 50, 99, 2048, 40000, 65535] {
                let mut a = App::new_with_config(Some((width, height)), None, false, false);
                a.nav_panel_width_override = Some(chosen);
                let bar = height.min(3);
                let left = chosen.min(width);
                let nav = a.get_navigation_panel_area();
                let expected = Rect { x: 0, y: 0, width: left, height: height - bar };
                assert_eq!(nav, expected, "{width}x{height} split at {chosen}");
                let (_, ops) = a.draw(Rect { x: 0, y: 0, width, height }, &shown());
                let text = ops.iter().find_map(|op| match op {
                    DrawOp::Text { area, .. } => Some(*area),
                    _ => None,
                });
                let expected = Rect { x: left, y: 0, width: width - left, height: height - bar };
                assert_eq!(text, Some(expected), "{width}x{height} split at {chosen}");
            }
        }
    }
}

#[test]
fn zen_mode_shows_only_the_text() {
    let mut a = app();
    a.dispatch_global_action(Action::ToggleZenMode, &facts());
    let area = Rect { x: 0, y: 0, width: 100, height: 40 };
    let (_, ops) = a.draw(area, &shown());
    assert!(!ops.iter().any(|o| matches!(o, DrawOp::Navigation { .. })));
    assert!(ops.iter().any(|o| matches!(o, DrawOp::Text { area: t, .. } if *t == area)));
}

#[test]
fn focused_window_is_on_top() {
    let mut a = app();
    a.dispatch_global_action(Action::ToggleHelp, &facts());
    let (_, ops) = a.draw(Rect { x: 0, y: 0, width: 100, height: 40 }, &shown());
    assert!(matches!(ops[ops.len() - 1], DrawOp::Window(PopupWindow::Help)));
}

#[test]
fn terminal_title_names_the_book() {
    let book = Some("/d/Moby Dick.epub".to_string());
    let title = desired_terminal_title(&book, &None);
    assert!(title.contains("Moby Dick"));
    let a = app();
    assert_eq!(a.sync_terminal_title(true, &None, &book, &None), Some(title.clone()));
    assert_eq!(a.sync_terminal_title(true, &Some(title), &book, &None), None);
    assert_eq!(a.sync_terminal_title(false, &None, &book, &None), None);
}

// ---------------------------------------------------------------------------------------------
// Documents
// ---------------------------------------------------------------------------------------------
#[test]
fn awaited_pages_arrive() {
    let mut a = app();
    a.navigate_pdf_to_page(1, 4, false);
    assert_eq!(a.pdf_waiting_for_page, Some(4));
    a.poll_pdf_renders(Some(3));
    assert_eq!(a.pdf_waiting_for_page, Some(4));
    a.poll_pdf_renders(Some(4));
    assert_eq!(a.pdf_waiting_for_page, None);
    a.navigate_pdf_to_page(4, 6, true);
    assert_eq!(a.pdf_waiting_for_page, None);
    a.apply_pdf_mark_jump(9, false);
    assert_eq!(a.pdf_waiting_for_page, Some(9));
    assert_eq!(app().pdf_event_done(1, 1, false, true), Some(AppAction::Quit));
    assert_eq!(app().pdf_event_done(1, 1, false, false), None);
}

#[test]
fn document_marks_wait_for_a_letter() {
    let mut a = app();
    let answer = PdfAnswer { handled: true, action: Some(PdfAction::SetMarkPending), kitty: false };
    a.handle_pdf_event(&answer);
    assert_eq!(a.pending_mark_op, Some(PendingMarkOp::Assign));
}

#[test]
fn watching_is_toggled() {
    assert_eq!(toggle_pdf_watching(false, false, false), WatchPlan::Nothing);
    assert_eq!(toggle_pdf_watching(true, true, false), WatchPlan::RefuseDjvu);
    assert_eq!(toggle_pdf_watching(true, false, true), WatchPlan::Disable);
    assert_eq!(toggle_pdf_watching(true, false, false), WatchPlan::Enable);
    assert!(watching_message(WatchPlan::Nothing, false).is_none());
    assert!(watching_message(WatchPlan::Enable, true).is_some());
}

#[test]
fn reloaded_documents_keep_their_page() {
    let plan = handle_pdf_reload(5, 7, 9).expect("pages are left");
    assert_eq!((plan.page, plan.kept, plan.added), (4, 5, 0));
    assert_eq!(plan.message, "Document reloaded");
    assert_eq!(plan.steps[3], ReloadStep::ResizePages { kept: 5, added: 0 });
    for step in [ReloadStep::ForgetPictures, ReloadStep::ForgetViewport, ReloadStep::ClearSelection] {
        assert!(plan.steps.contains(&step));
    }
    assert_eq!(plan.commands.len(), 6);
    let plan = handle_pdf_reload(9, 2, 5).expect("pages were added");
    assert_eq!((plan.page, plan.kept, plan.added), (2, 5, 4));
    assert!(handle_pdf_reload(0, 2, 5).is_none());
}

#[test]
fn forward_jumps_wait_for_their_page() {
    let s = apply_pending_synctex_forward(false, true, true, true);
    assert!(!s.applied && !s.pending);
    let s = apply_pending_synctex_forward(true, true, false, true);
    assert!(!s.applied && s.pending);
}

// ---------------------------------------------------------------------------------------------
// The loop
// ---------------------------------------------------------------------------------------------
#[test]
fn only_presses_count() {
    let mut a = app();
    let l = LoopFacts { pdf_mode: false, pdf_text_input: false, mouse_on_ui: true };
    let release = KeyEvent { kind: KeyEventKind::Release, ..key('q') };
    let before = a;
    let (next, effects) = a.handle_event(Event::Key(release), &facts(), &l);
    assert!(matches!(next, LoopNext::Done) && effects.is_empty() && a == before);
    let (next, _) = a.handle_event(Event::Mouse(mouse(MouseEventKind::ScrollLeft, 1, 1)), &facts(), &l);
    assert!(matches!(next, LoopNext::Done));
    let wheel = mouse(MouseEventKind::ScrollDown, 60, 1);
    let (next, _) = a.handle_event(Event::Mouse(wheel), &facts(), &l);
    assert!(matches!(next, LoopNext::Scroll(e) if e == wheel));
    let pdf = LoopFacts { pdf_mode: true, ..l };
    let (next, _) = a.handle_event(Event::Key(key('j')), &facts(), &pdf);
    assert!(matches!(next, LoopNext::OfferPdf));
}

#[test]
fn frames_are_counted() {
    let mut c = FPSCounter::new(0);
    for i in 1..=30u128 {
        c.tick(i * 20_000_000);
    }
    assert_eq!(c.current_fps, 0);
    c.tick(1_001_000_000);
    assert!(c.current_fps > 0);
}

#[test]
fn loop_takes_turns() {
    assert!(takes_event(true, 0, false));
    assert!(!takes_event(false, 0, false));
    assert!(!takes_event(true, 0, true));
    assert!(!takes_event(true, 1000, false));
    assert!(!tick_due(0));
    assert!(tick_due(u128::MAX));
    assert!(wait_time(1, 0).is_none());
    assert_eq!(wait_time(0, u128::MAX), Some(0));
    let quiet = TickFacts {
        images_loaded: false,
        highlight_changed: false,
        hud_expired: false,
        notification_expired: false,
        pdf_hud_expired: false,
        mark_highlight_expired: false,
        pdf_renders_ready: false,
        synctex_commands: false,
    };
    assert!(!tick_redraws(&quiet));
    assert!(tick_redraws(&TickFacts { notification_expired: true, ..quiet }));
    let mut a = app();
    a.pending_force_redraw = true;
    let r = a.begin_round(0, false);
    assert!(r.clear && r.needs_redraw && !a.pending_force_redraw);
    a.pdf_waiting_for_page = Some(3);
    assert!(!a.draws_frame(true, false));
    assert!(a.draws_frame(true, true));
    a.pdf_waiting_for_page = None;
    assert!(a.draws_frame(true, false) && !a.draws_frame(false, false));
}

// ---------------------------------------------------------------------------------------------
// Opened books
// ---------------------------------------------------------------------------------------------
#[test]
fn opened_books_are_shown() {
    let mut a = app();
    a.focused_panel = FocusedPanel::Main(MainPanel::NavigationList);
    let effects = a.book_opened(Some(OpenPosition::Chapter(2)), false);
    assert!(a.is_main_panel(MainPanel::Content));
    assert!(effects.contains(&Effect::SetBookPath));
    assert!(effects.contains(&Effect::NavigateTo { chapter: 2 }));
    let effects = a.book_opened(Some(OpenPosition::Page(7)), true);
    assert!(effects.contains(&Effect::PdfSetPage(7)));
}
