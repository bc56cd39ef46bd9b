//! What the mouse does, where events go, and when the view is drawn.
use vstd::prelude::*;

use crate::inputs::event::{
    Event, KeyCode, KeyEvent, KeyEventKind, MouseButton, MouseEvent, MouseEventKind,
};
use crate::main_app::event_loop::{
    changed, time_left, FPSCounter, LoopFacts, LoopNext, TickFacts, EVENTS_PER_ROUND, SECOND, TICK_RATE,
};
use crate::main_app::mouse::{
    scroll_of_kind, scrolls, wheel_steps, ClickFacts, ClickTarget, ClickType, MouseNext, PressFacts,
};
use crate::main_app::reading_laws::{asks, leads};
use crate::main_app::state::{
    Action, App, Effect, Facts, FocusedPanel, MainPanel, NavigationPanelAction, PopupWindow, RunView,
    Scroll, Task,
};

verus! {

// ---------------------------------------------------------------------------------------------
// The wheel
// ---------------------------------------------------------------------------------------------
/// The effects of scrolling the text one way, so many lines.
pub open spec fn scrolled(how: Scroll, n: nat) -> Seq<Effect>
    decreases n,
{
    if n == 0 {
        Seq::empty()
    } else {
        scrolled(how, (n - 1) as nat) + seq![
            Effect::ScrollText(how),
            Effect::SaveBookmark { force: false },
            Effect::UpdateTocState,
        ]
    }
}

proof fn lemma_scrolled(r: RunView, how: Scroll, n: nat)
    ensures
        asks(r, r.scroll_times(how, n), scrolled(how, n)),
    decreases n,
{
    reveal(RunView::emit);
    if n > 0 {
        lemma_scrolled(r, how, (n - 1) as nat);
    }
}

/// The wheel over the text scrolls it down where it is turned down and up where it is turned up, a line for
/// each turn and ten lines at most; over the navigation panel it scrolls that.
pub proof fn law_wheel_scrolls_what_is_under_it(r: RunView, amount: int, column: u16, f: Facts)
    requires
        !f.invert_scroll,
        r.app.focused_panel is Main,
        amount != 0,
    ensures
        ({
            let n: nat = if amount > 10 || amount < -10 {
                10
            } else if amount < 0 {
                (-amount) as nat
            } else {
                amount as nat
            };
            let over_text = column >= r.app.nav_width();
            &&& over_text && amount > 0 ==> asks(
                r,
                r.wheel(amount, column, f),
                scrolled(Scroll::Down, n),
            )
            &&& over_text && amount < 0 ==> asks(r, r.wheel(amount, column, f), scrolled(Scroll::Up, n))
            &&& !over_text && r.app.terminal_size.height >= 2 ==> asks(
                r,
                r.wheel(amount, column, f),
                seq![
                    Effect::ScrollNavigation {
                        down: amount > 0,
                        steps: n as u32,
                        rows: (r.app.terminal_size.height - 2) as u16,
                    },
                ],
            )
        }),
{
    reveal(RunView::emit);
    lemma_scrolled(r, Scroll::Down, wheel_steps(amount));
    lemma_scrolled(r, Scroll::Up, wheel_steps(amount));
}

/// A window in focus is scrolled by the wheel where it can be, and what is under it is not.
pub proof fn law_wheel_scrolls_the_window_in_focus(
    r: RunView,
    w: PopupWindow,
    amount: int,
    column: u16,
    f: Facts,
)
    requires
        !f.invert_scroll,
        0 < amount <= 10,
        r.app.focused_panel == FocusedPanel::Popup(w),
        r.app.windows.has(w),
    ensures
        w == PopupWindow::BookSearch || w == PopupWindow::Help || w == PopupWindow::BookStats || w
            == PopupWindow::ReadingHistory || w == PopupWindow::Lookup ==> asks(
            r,
            r.wheel(amount, column, f),
            seq![Effect::ScrollWindow { window: w, down: true, steps: amount as u32 }],
        ) && asks(
            r,
            r.wheel(-amount, column, f),
            seq![Effect::ScrollWindow { window: w, down: false, steps: amount as u32 }],
        ),
        w == PopupWindow::CommentsViewer ==> asks(
            r,
            r.wheel(amount, column, f),
            seq![
                Effect::ScrollComments {
                    column,
                    amount: amount as i32,
                    down: true,
                    steps: amount as u32,
                },
            ],
        ),
        w == PopupWindow::MarksList || w == PopupWindow::Settings || w == PopupWindow::ImagePopup
            ==> r.wheel(amount, column, f) == r,
{
    reveal(RunView::emit);
}

/// The wheel turned down counts as one line down, turned up as one line up.
pub proof fn law_turns_of_the_wheel()
    ensures
        scroll_of_kind(MouseEventKind::ScrollDown) == 1,
        scroll_of_kind(MouseEventKind::ScrollUp) == -1,
        scroll_of_kind(MouseEventKind::ScrollLeft) == 0,
        scroll_of_kind(MouseEventKind::ScrollRight) == 0,
        scroll_of_kind(MouseEventKind::Moved) == 0,
{
}

// ---------------------------------------------------------------------------------------------
// Buttons
// ---------------------------------------------------------------------------------------------
/// A press falls on the panel under it, which gets the focus.
pub proof fn law_press_gives_the_focus(r: RunView, ev: MouseEvent, p: PressFacts, f: Facts)
    requires
        r.app.focused_panel is Main,
        p.help_button is None,
        ev.kind == MouseEventKind::Down(MouseButton::Left),
        !r.app.on_border(ev.column),
    ensures
        ({
            let (after, next) = r.mouse_event(ev, p, f);
            let on_panel = ev.column < r.app.nav_width();
            let text = r.app.focused_panel == FocusedPanel::Main(MainPanel::Content);
            &&& on_panel ==> next == MouseNext::Click(ClickTarget::Navigation) && leads(
                r,
                after,
                App { focused_panel: FocusedPanel::Main(MainPanel::NavigationList), ..r.app },
                seq![Effect::ClearSelection],
            )
            &&& !on_panel && !text ==> next == MouseNext::Click(ClickTarget::Content) && leads(
                r,
                after,
                App { focused_panel: FocusedPanel::Main(MainPanel::Content), ..r.app },
                seq![Effect::ClearManualNavigation],
            )
            &&& !on_panel && text ==> next == MouseNext::Click(ClickTarget::Content) && after == r
        }),
{
    reveal(RunView::emit);
    reveal(RunView::to);
    reveal(RunView::show_panel);
}

/// A press on a button of the help bar does its action.
pub proof fn law_press_on_the_help_bar(
    r: RunView,
    ev: MouseEvent,
    p: PressFacts,
    f: Facts,
    action: Action,
)
    requires
        p.help_button == Some(action),
        ev.kind == MouseEventKind::Down(MouseButton::Left),
        r.global_action(action, f).1,
    ensures
        r.mouse_event(ev, p, f) == (r.global_action(action, f).0, MouseNext::Done),
{
}

/// A press outside a window dismisses it, and one inside is its own; marks, searches and errors let it
/// through.
pub proof fn law_press_outside_a_window(r: RunView, w: PopupWindow, p: PressFacts)
    requires
        r.app.windows.has(w),
        r.app.focused_panel == FocusedPanel::Popup(w),
    ensures
        ({
            let turn = r.press_on_window(w, p);
            let panel = FocusedPanel::Main(
                if r.app.zen_mode {
                    MainPanel::Content
                } else {
                    r.app.previous_main_panel
                },
            );
            &&& (w == PopupWindow::Help || w == PopupWindow::ReadingHistory || w
                == PopupWindow::CommentsViewer || w == PopupWindow::Settings) && p.outside_window ==> (
            turn matches Some((after, next)) && next == MouseNext::Done && after.app.focused_panel
                == panel && !after.app.windows.has(w))
            &&& w == PopupWindow::BookStats && p.outside_window ==> (turn matches Some((after, next))
                && after.app.focused_panel == panel && after.out =~= r.out.push(Effect::HideStats))
            &&& w == PopupWindow::Help && !p.outside_window ==> turn == Some((r, MouseNext::Done))
            &&& w == PopupWindow::ReadingHistory && !p.outside_window ==> turn == Some(
                (r, MouseNext::Click(ClickTarget::History)),
            )
            &&& w == PopupWindow::BookStats && !p.outside_window ==> turn == Some(
                (r, MouseNext::Click(ClickTarget::Stats)),
            )
            &&& w == PopupWindow::CommentsViewer && !p.outside_window ==> turn == Some(
                (r, MouseNext::Click(ClickTarget::Comments)),
            )
            &&& w == PopupWindow::Settings && !p.outside_window ==> turn == Some(
                (r, MouseNext::Click(ClickTarget::Settings)),
            )
            &&& w == PopupWindow::MarksList || w == PopupWindow::BookSearch || w
                == PopupWindow::KeybindingErrors ==> turn is None
        }),
{
    reveal(RunView::emit);
    reveal(RunView::to);
    reveal(RunView::drop_window);
    reveal(RunView::close_popup);
}

/// The border between the panels is its two columns; a drag of it gives the panel that width, and the
/// release keeps it. Elsewhere a drag and a release go to the text.
pub proof fn law_drags_and_releases(r: RunView, ev: MouseEvent, p: PressFacts, f: Facts)
    ensures
        ({
            let column = ev.column;
            let drag = MouseEvent { kind: MouseEventKind::Drag(MouseButton::Left), ..ev };
            let up = MouseEvent { kind: MouseEventKind::Up(MouseButton::Left), ..ev };
            let over_text = r.app.focused_panel is Main && column >= r.app.nav_width();
            let held = r.app.resizing_nav_panel;
            let dragged = r.mouse_event(drag, p, f).0;
            let most = r.app.terminal_size.width as int / 2;
            &&& r.app.on_border(column) <==> !r.app.zen_mode && r.app.nav_width() > 0 && (column
                == r.app.nav_width() - 1 || column == r.app.nav_width())
            &&& held && 5 <= column <= most ==> dragged.app == (App {
                nav_panel_width_override: Some(column),
                ..r.app
            })
            &&& held ==> leads(
                r,
                r.mouse_event(up, p, f).0,
                App { resizing_nav_panel: false, ..r.app },
                seq![Effect::PersistNavWidth],
            )
            &&& !held && over_text ==> asks(
                r,
                dragged,
                seq![Effect::Perform(Task::DragText { column, row: ev.row })],
            ) && asks(
                r,
                r.mouse_event(up, p, f).0,
                seq![Effect::TextMouseUp { column, row: ev.row }],
            )
            &&& !held && !over_text ==> dragged == r && r.mouse_event(up, p, f).0 == r
            &&& r.mouse_event(MouseEvent { kind: MouseEventKind::Moved, ..ev }, p, f) == (
                r,
                MouseNext::Done,
            )
            &&& r.mouse_event(
                MouseEvent { kind: MouseEventKind::Down(MouseButton::Right), ..ev },
                p,
                f,
            ) == (r, MouseNext::Done)
        }),
{
    reveal(RunView::emit);
    reveal(RunView::to);
    reveal(RunView::hold_border);
    reveal(RunView::drag_border);
}

/// Clicks in the text: one begins a selection, follows a link of an image or opens the image; two select a
/// word and three a paragraph.
pub proof fn law_clicks_in_the_text(r: RunView, ev: MouseEvent, c: ClickFacts, f: Facts)
    ensures
        ({
            let one = ClickFacts { click: ClickType::Single, ..c };
            let two = ClickFacts { click: ClickType::Double, ..c };
            let three = ClickFacts { click: ClickType::Triple, ..c };
            let does = |c: ClickFacts, e: Effect|
                asks(r, r.mouse_click(ClickTarget::Content, ev, c, f), seq![e]);
            &&& !c.image ==> does(one, Effect::TextMouseDown { column: ev.column, row: ev.row })
            &&& c.image && c.link && !ev.modifiers.control ==> does(one, Effect::FollowClickedLink)
            &&& c.image && !(c.link && !ev.modifiers.control) ==> does(one, Effect::OpenClickedImage)
            &&& does(two, Effect::TextDoubleClick { column: ev.column, row: ev.row })
            &&& does(three, Effect::TextTripleClick { column: ev.column, row: ev.row })
        }),
{
    reveal(RunView::emit);
}

/// Double clicks in the other parts choose what is under them; single ones do not.
pub proof fn law_double_clicks_choose(
    r: RunView,
    ev: MouseEvent,
    c: ClickFacts,
    f: Facts,
    chapter: usize,
    action: NavigationPanelAction,
)
    requires
        c.hit,
        !c.expansion_toggled,
        c.chapter == Some(chapter),
        c.enter == Some(action),
    ensures
        ({
            let one = ClickFacts { click: ClickType::Single, ..c };
            let two = ClickFacts { click: ClickType::Double, ..c };
            &&& r.mouse_click(ClickTarget::Navigation, ev, two, f) == r.navigation_action(action, f).0
            &&& r.mouse_click(ClickTarget::Navigation, ev, one, f) == r
            &&& r.mouse_click(ClickTarget::History, ev, two, f) == r.history_reply(c.history)
            &&& r.mouse_click(ClickTarget::History, ev, one, f) == r
            &&& leads(
                r,
                r.mouse_click(ClickTarget::Stats, ev, two, f),
                App {
                    focused_panel: FocusedPanel::Main(MainPanel::Content),
                    previous_main_panel: MainPanel::Content,
                    ..r.app
                },
                seq![Effect::HideStats, Effect::NavigateTo { chapter }],
            )
            &&& r.mouse_click(ClickTarget::Stats, ev, one, f) == r
        }),
{
    reveal(RunView::emit);
    reveal(RunView::to);
    reveal(RunView::focus_main);
}

// ---------------------------------------------------------------------------------------------
// Events
// ---------------------------------------------------------------------------------------------
/// Where events go: keys to whoever gets keys, the wheel to be gathered, the mouse to what is under it, and
/// a new size is told.
pub proof fn law_where_events_go(r: RunView, key: KeyEvent, ev: MouseEvent, f: Facts, l: LoopFacts)
    requires
        !l.pdf_mode,
        key.kind == KeyEventKind::Press,
    ensures
        ({
            let of = |e: Event| r.loop_event(e, f, l);
            let down = MouseEvent { kind: MouseEventKind::ScrollDown, ..ev };
            let up = MouseEvent { kind: MouseEventKind::ScrollUp, ..ev };
            let press = MouseEvent { kind: MouseEventKind::Down(MouseButton::Left), ..ev };
            &&& of(Event::Key(key)) == (
                r.key_event(key, f).0,
                LoopNext::Key(r.key_event(key, f).1),
            )
            &&& of(Event::Mouse(down)) == (r, LoopNext::Scroll(down))
            &&& of(Event::Mouse(up)) == (r, LoopNext::Scroll(up))
            &&& of(Event::Mouse(press)) == (r, LoopNext::Mouse(press))
            &&& asks(r, of(Event::Resize(80, 24)).0, seq![Effect::Resized])
            &&& of(Event::FocusGained) == (r, LoopNext::Done)
        }),
{
    reveal(RunView::emit);
}

/// Where events go while a document is shown: what is not the application's own is offered to the document,
/// which is drawn anew where the size changes.
pub proof fn law_where_events_of_a_document_go(r: RunView, ev: MouseEvent, f: Facts, l: LoopFacts)
    requires
        l.pdf_mode,
        r.app.focused_panel == FocusedPanel::Main(MainPanel::Content),
    ensures
        ({
            let over = Event::Mouse(ev);
            let border = r.app.resizing_nav_panel || r.app.on_border(ev.column);
            &&& asks(
                r,
                r.loop_event(Event::Resize(80, 24), f, l).0,
                seq![Effect::Resized, Effect::PdfForceRedraw],
            )
            &&& border ==> r.loop_event(over, f, l) == (r, LoopNext::Mouse(ev))
            &&& !border && !l.mouse_on_ui ==> r.loop_event(over, f, l) == (r, LoopNext::OfferPdf)
            &&& r.loop_event(Event::Paste, f, l) == (r, LoopNext::OfferPdf)
        }),
{
    reveal(RunView::emit);
}

/// Of keys only the press counts. While a document is shown a window in focus gets them first, then a mark
/// that waits for its letter, then the application, and then the document; what is typed into the document
/// is its own.
pub proof fn law_who_gets_the_keys_of_a_document(r: RunView, key: KeyEvent, f: Facts, l: LoopFacts)
    requires
        l.pdf_mode,
        key.kind == KeyEventKind::Press,
    ensures
        ({
            let got = r.loop_event(Event::Key(key), f, l);
            let text = r.app.focused_panel == FocusedPanel::Main(MainPanel::Content);
            let waits = r.app.pending_mark_op is Some;
            let (global, taken) = r.global_hotkeys(key, f);
            &&& r.app.focused_panel is Popup ==> got == (
                r.key_event(key, f).0,
                LoopNext::Key(r.key_event(key, f).1),
            )
            &&& text && waits && !l.pdf_text_input ==> got == (r.pending_mark(key).0, LoopNext::Done)
            &&& text && l.pdf_text_input ==> got == (r, LoopNext::OfferPdf)
            &&& text && !waits && !l.pdf_text_input && taken ==> got.1 == LoopNext::Done && asks(
                global,
                got.0,
                seq![Effect::PdfClearKeys],
            )
            &&& text && !waits && !l.pdf_text_input && !taken ==> got == (global, LoopNext::OfferPdf)
        }),
        r.loop_event(Event::Key(KeyEvent { kind: KeyEventKind::Release, ..key }), f, l) == (
            r,
            LoopNext::Done,
        ),
        r.loop_event(Event::Key(KeyEvent { kind: KeyEventKind::Repeat, ..key }), f, l) == (
            r,
            LoopNext::Done,
        ),
{
    reveal(RunView::emit);
}

/// A slash that neither the application nor the document took opens the search.
pub proof fn law_slash_searches_the_document(r: RunView, key: KeyEvent, f: Facts, l: LoopFacts)
    requires
        !l.pdf_text_input,
        key.code == KeyCode::Char('/'),
    ensures
        ({
            let (global, taken) = r.global_hotkeys(key, f);
            let after = r.pdf_key_left(key, f, l);
            &&& taken ==> asks(global, after, seq![Effect::PdfClearKeys])
            &&& !taken ==> after == global.remember_panel().open_search(false, f)
        }),
{
    reveal(RunView::emit);
}

/// What is left of a key by a document: a slash opens the search, and Tab goes to the panel but not in zen
/// mode.
pub proof fn law_keys_left_by_a_document(r: RunView, f: Facts, l: LoopFacts, key: KeyEvent)
    requires
        l.pdf_text_input,
        r.app.focused_panel == FocusedPanel::Main(MainPanel::Content),
    ensures
        !r.app.zen_mode ==> leads(
            r,
            r.pdf_key_left(KeyEvent { code: KeyCode::Tab, ..key }, f, l),
            App {
                focused_panel: FocusedPanel::Main(MainPanel::NavigationList),
                previous_main_panel: MainPanel::NavigationList,
                ..r.app
            },
            Seq::empty(),
        ),
        r.app.zen_mode ==> r.pdf_key_left(KeyEvent { code: KeyCode::Tab, ..key }, f, l) == r,
        r.pdf_key_left(KeyEvent { code: KeyCode::Char('/'), ..key }, f, l) == r,
{
    reveal(RunView::to);
    reveal(RunView::focus_main);
}

// ---------------------------------------------------------------------------------------------
// Rounds
// ---------------------------------------------------------------------------------------------
/// Twenty times a second the view is brought up to date; fifty events at most come before a frame.
pub proof fn law_pace_of_the_loop(since: u128)
    ensures
        TICK_RATE == 50_000_000,
        EVENTS_PER_ROUND == 50,
        SECOND == 20 * TICK_RATE,
        since <= TICK_RATE ==> since + time_left(since) == TICK_RATE,
        since > TICK_RATE ==> time_left(since) == 0,
{
}

/// Each thing that changes by itself asks for a frame, and nothing else does.
pub proof fn law_changes_are_drawn(t: TickFacts)
    ensures
        changed(TickFacts { images_loaded: true, ..t }),
        changed(TickFacts { highlight_changed: true, ..t }),
        changed(TickFacts { hud_expired: true, ..t }),
        changed(TickFacts { notification_expired: true, ..t }),
        changed(TickFacts { pdf_hud_expired: true, ..t }),
        changed(TickFacts { mark_highlight_expired: true, ..t }),
        changed(TickFacts { pdf_renders_ready: true, ..t }),
        changed(TickFacts { synctex_commands: true, ..t }),
        !changed(
            TickFacts {
                images_loaded: false,
                highlight_changed: false,
                hud_expired: false,
                notification_expired: false,
                pdf_hud_expired: false,
                mark_highlight_expired: false,
                pdf_renders_ready: false,
                synctex_commands: false,
            },
        ),
{
}

/// A frame is drawn where one is needed, but not while a page is awaited, unless a message is to be seen.
pub proof fn law_frames_are_drawn(app: App, hud: bool, events: usize, first: bool)
    ensures
        !app.frame_drawn(false, hud),
        app.frame_drawn(true, true),
        app.frame_drawn(true, false) <==> app.pdf_waiting_for_page is None
            && !app.pdf_waiting_for_viewport,
        app.round_start(events, first).clear <==> app.pending_force_redraw,
        app.round_start(events, first).suspend <==> app.pending_suspend,
        !app.round_start(events, first).needs_redraw <==> events == 0 && !first
            && !app.pending_force_redraw && !app.pending_suspend,
{
}

/// The counter of rounds counts one for each, and says how many there were once a second is over.
pub proof fn law_rounds_are_counted(c: FPSCounter, now: u128)
    requires
        c.ticks < u16::MAX,
        now >= c.last_measure,
    ensures
        now - c.last_measure <= SECOND ==> c.ticked(now) == (FPSCounter {
            ticks: (c.ticks + 1) as u16,
            ..c
        }),
        now - c.last_measure > SECOND ==> c.ticked(now) == (FPSCounter {
            last_measure: now,
            ticks: 0,
            current_fps: (c.ticks + 1) as u16,
        }),
{
}

} // verus!
