//! The loop of the application: which handler an event goes to, when a frame is drawn, and how long
//! to wait for the next event.
use vstd::prelude::*;

use crate::inputs::event::{Event, KeyCode, KeyEvent, KeyEventKind, MouseEvent, MouseEventKind};
use crate::main_app::keys::{law_keys_are_sound, lemma_flags_sound, lemma_global_hotkeys_is_sound};
use crate::main_app::state::{group_run_sound, sound};
use crate::main_app::state::{
    App, Effect, Facts, FocusedPanel, MainPanel, Next, Run, RunView,
};

verus! {

// ---------------------------------------------------------------------------------------------
// Frames per second
// ---------------------------------------------------------------------------------------------
/// Counts the rounds of the loop in a second.
#[derive(Clone, Copy, Debug, PartialEq, Eq, Structural)]
pub struct FPSCounter {
    /// When the count began, in nanoseconds.
    pub last_measure: u128,
    pub ticks: u16,
    pub current_fps: u16,
}

/// One second in nanoseconds.
pub const SECOND: u128 = 1_000_000_000;

impl FPSCounter {
    /// A counter that begins now.
    pub fn new(now: u128) -> (r: FPSCounter)
        ensures
            r == (FPSCounter { last_measure: now, ticks: 0, current_fps: 0 }),
    {
        FPSCounter { last_measure: now, ticks: 0, current_fps: 0 }
    }

    /// The count after one more round; it starts anew when more than a second has passed.
    pub open spec fn ticked(self, now: u128) -> FPSCounter {
        let ticks = if self.ticks < u16::MAX {
            (self.ticks + 1) as u16
        } else {
            u16::MAX
        };
        if now > self.last_measure && now - self.last_measure > SECOND {
            FPSCounter { last_measure: now, ticks: 0, current_fps: ticks }
        } else {
            FPSCounter { ticks, ..self }
        }
    }

    /// Counts a round.
    pub fn tick(&mut self, now: u128)
        ensures
            *final(self) == old(self).ticked(now),
    {
        self.ticks = self.ticks.saturating_add(1);
        if now > self.last_measure && now - self.last_measure > SECOND {
            self.current_fps = self.ticks;
            self.last_measure = now;
            self.ticks = 0;
        }
    }
}

// ---------------------------------------------------------------------------------------------
// Events
// ---------------------------------------------------------------------------------------------
/// What is known when an event arrives.
#[derive(Clone, Copy, Debug, PartialEq, Eq, Structural)]
pub struct LoopFacts {
    /// Whether a document is open in the reader of PDF.
    pub pdf_mode: bool,
    /// Whether text is being typed into that reader.
    pub pdf_text_input: bool,
    /// Whether the mouse is over something else than the document.
    pub mouse_on_ui: bool,
}

/// Where an event goes on.
#[derive(Clone, Copy, Debug, PartialEq, Eq, Structural)]
pub enum LoopNext {
    /// It is done with.
    Done,
    /// A key that was handled, and how that goes on.
    Key(Next),
    /// It is handed to the reader of the document.
    OfferPdf,
    /// The wheel was turned: events like it are gathered first.
    Scroll(MouseEvent),
    /// Any other mouse event.
    Mouse(MouseEvent),
}

/// Whether an event counts: of keys, only their press.
pub open spec fn counts(event: Event) -> bool {
    match event {
        Event::Key(key) => key.kind == KeyEventKind::Press,
        _ => true,
    }
}

/// Where a mouse event over the panels goes: the wheel turned sideways is ignored.
pub open spec fn mouse_route(ev: MouseEvent) -> LoopNext {
    match ev.kind {
        MouseEventKind::ScrollLeft => LoopNext::Done,
        MouseEventKind::ScrollRight => LoopNext::Done,
        MouseEventKind::ScrollDown => LoopNext::Scroll(ev),
        MouseEventKind::ScrollUp => LoopNext::Scroll(ev),
        _ => LoopNext::Mouse(ev),
    }
}

impl App {
    /// Whether events go to the reader of a document first.
    pub open spec fn pdf_first(self, l: LoopFacts) -> bool {
        l.pdf_mode && (self.main_panel_is(MainPanel::Content) || self.popup_active())
    }
}

impl RunView {
    /// A global key, where none is being typed into the document's reader; keys that the reader was
    /// waiting to complete are dropped with it.
    pub open spec fn pdf_hotkey(self, key: KeyEvent, f: Facts, l: LoopFacts) -> (RunView, bool) {
        if l.pdf_text_input {
            (self, false)
        } else {
            let (r, taken) = self.global_hotkeys(key, f);
            if taken {
                (r.emit(Effect::PdfClearKeys), true)
            } else {
                (r, false)
            }
        }
    }

    /// A key while a document is open: a window in focus gets it, then a mark that is waited for,
    /// then the global keys, then the reader of the document.
    pub open spec fn pdf_key(self, key: KeyEvent, f: Facts, l: LoopFacts) -> (RunView, LoopNext) {
        if self.app.popup_active() {
            let (r, next) = self.key_event(key, f);
            (r, LoopNext::Key(next))
        } else if self.app.pending_mark_op is Some && !l.pdf_text_input {
            (self.pending_mark(key).0, LoopNext::Done)
        } else {
            let (r, taken) = self.pdf_hotkey(key, f, l);
            if taken {
                (r, LoopNext::Done)
            } else {
                (r, LoopNext::OfferPdf)
            }
        }
    }

    /// A key that the reader of the document left: the global keys once more, then the search of the
    /// document, then the navigation panel.
    pub open spec fn pdf_key_left(self, key: KeyEvent, f: Facts, l: LoopFacts) -> RunView {
        let (r, taken) = self.pdf_hotkey(key, f, l);
        if taken {
            r
        } else if key.code == KeyCode::Char('/') && !l.pdf_text_input {
            r.remember_panel().open_search(false, f)
        } else if key.code == KeyCode::Tab && !r.app.popup_active() && !r.app.zen_mode {
            r.focus_main(MainPanel::NavigationList)
        } else {
            r
        }
    }

    /// An event while a document is shown.
    pub open spec fn pdf_loop_event(self, event: Event, f: Facts, l: LoopFacts) -> (
        RunView,
        LoopNext,
    ) {
        match event {
            Event::Key(key) => self.pdf_key(key, f, l),
            Event::Resize(_, _) => (
                self.emit(Effect::Resized).emit(Effect::PdfForceRedraw),
                LoopNext::Done,
            ),
            Event::Mouse(ev) => if self.app.resizing_nav_panel || self.app.on_border(ev.column) {
                (self, LoopNext::Mouse(ev))
            } else if l.mouse_on_ui {
                (self, mouse_route(ev))
            } else {
                (self, LoopNext::OfferPdf)
            },
            _ => (self, LoopNext::OfferPdf),
        }
    }

    /// An event of the terminal.
    pub open spec fn loop_event(self, event: Event, f: Facts, l: LoopFacts) -> (RunView, LoopNext) {
        if !counts(event) {
            (self, LoopNext::Done)
        } else if self.app.pdf_first(l) {
            self.pdf_loop_event(event, f, l)
        } else {
            match event {
                Event::Mouse(ev) => (self, mouse_route(ev)),
                Event::Key(key) => {
                    let (r, next) = self.key_event(key, f);
                    (r, LoopNext::Key(next))
                },
                Event::Resize(_, _) => (self.emit(Effect::Resized), LoopNext::Done),
                _ => (self, LoopNext::Done),
            }
        }
    }
}

fn route_mouse(ev: MouseEvent) -> (r: LoopNext)
    ensures
        r == mouse_route(ev),
{
    match ev.kind {
        MouseEventKind::ScrollLeft => LoopNext::Done,
        MouseEventKind::ScrollRight => LoopNext::Done,
        MouseEventKind::ScrollDown => LoopNext::Scroll(ev),
        MouseEventKind::ScrollUp => LoopNext::Scroll(ev),
        _ => LoopNext::Mouse(ev),
    }
}

impl Run {
    fn pdf_hotkey(&mut self, key: KeyEvent, f: &Facts, l: &LoopFacts) -> (r: bool)
        ensures
            (final(self)@, r) == old(self)@.pdf_hotkey(key, *f, *l),
    {
        if l.pdf_text_input {
            return false;
        }
        let taken = self.handle_global_hotkeys(key, f);
        if taken {
            self.emit(Effect::PdfClearKeys);
        }
        taken
    }

    fn pdf_key(&mut self, key: KeyEvent, f: &Facts, l: &LoopFacts) -> (r: LoopNext)
        ensures
            (final(self)@, r) == old(self)@.pdf_key(key, *f, *l),
    {
        if self.app.has_active_popup() {
            let next = self.handle_key_event(key, f);
            return LoopNext::Key(next);
        }
        if self.app.pending_mark_op.is_some() && !l.pdf_text_input {
            self.handle_pending_mark_input(key);
            return LoopNext::Done;
        }
        if self.pdf_hotkey(key, f, l) {
            LoopNext::Done
        } else {
            LoopNext::OfferPdf
        }
    }

    fn pdf_key_left(&mut self, key: KeyEvent, f: &Facts, l: &LoopFacts)
        ensures
            final(self)@ == old(self)@.pdf_key_left(key, *f, *l),
    {
        if self.pdf_hotkey(key, f, l) {
            return ;
        }
        if key.code == KeyCode::Char('/') && !l.pdf_text_input {
            self.remember_panel();
            self.open_book_search(false, f);
        } else if key.code == KeyCode::Tab && !self.app.has_active_popup() && !self.app.zen_mode {
            self.set_main_panel_focus(MainPanel::NavigationList);
        }
    }

    fn pdf_loop_event(&mut self, event: Event, f: &Facts, l: &LoopFacts) -> (r: LoopNext)
        ensures
            (final(self)@, r) == old(self)@.pdf_loop_event(event, *f, *l),
    {
        match event {
            Event::Key(key) => self.pdf_key(key, f, l),
            Event::Resize(_, _) => {
                self.emit(Effect::Resized);
                self.emit(Effect::PdfForceRedraw);
                LoopNext::Done
            },
            Event::Mouse(ev) => {
                if self.app.resizing_nav_panel || self.app.is_on_border(ev.column) {
                    LoopNext::Mouse(ev)
                } else if l.mouse_on_ui {
                    route_mouse(ev)
                } else {
                    LoopNext::OfferPdf
                }
            },
            _ => LoopNext::OfferPdf,
        }
    }

    fn loop_event(&mut self, event: Event, f: &Facts, l: &LoopFacts) -> (r: LoopNext)
        ensures
            (final(self)@, r) == old(self)@.loop_event(event, *f, *l),
    {
        if let Event::Key(key) = event {
            if key.kind != KeyEventKind::Press {
                return LoopNext::Done;
            }
        }
        if l.pdf_mode && (self.app.is_main_panel(MainPanel::Content)
            || self.app.has_active_popup()) {
            return self.pdf_loop_event(event, f, l);
        }
        match event {
            Event::Mouse(ev) => route_mouse(ev),
            Event::Key(key) => {
                let next = self.handle_key_event(key, f);
                LoopNext::Key(next)
            },
            Event::Resize(_, _) => {
                self.emit(Effect::Resized);
                LoopNext::Done
            },
            _ => LoopNext::Done,
        }
    }
}

// ---------------------------------------------------------------------------------------------
// Rounds
// ---------------------------------------------------------------------------------------------
/// How often the state of the view is brought up to date: fifty milliseconds.
pub const TICK_RATE: u128 = 50_000_000;

/// How many events are handled before a frame is drawn.
pub const EVENTS_PER_ROUND: usize = 50;

/// What a round begins with once its events were handled.
#[derive(Clone, Copy, Debug, PartialEq, Eq, Structural)]
pub struct RoundStart {
    /// Whether the screen is cleared and its pictures are sent anew.
    pub clear: bool,
    /// Whether the program is suspended.
    pub suspend: bool,
    pub needs_redraw: bool,
}

/// What has changed since the last time that the view was brought up to date.
#[derive(Clone, Copy, Debug, PartialEq, Eq, Structural)]
pub struct TickFacts {
    pub images_loaded: bool,
    pub highlight_changed: bool,
    pub hud_expired: bool,
    pub notification_expired: bool,
    pub pdf_hud_expired: bool,
    pub mark_highlight_expired: bool,
    pub pdf_renders_ready: bool,
    pub synctex_commands: bool,
}

/// Whether something has changed.
pub open spec fn changed(t: TickFacts) -> bool {
    t.images_loaded || t.highlight_changed || t.hud_expired || t.notification_expired
        || t.pdf_hud_expired || t.mark_highlight_expired || t.pdf_renders_ready
        || t.synctex_commands
}

/// How long to wait for the next event, in nanoseconds.
pub open spec fn time_left(since_tick: u128) -> u128 {
    if since_tick < TICK_RATE {
        (TICK_RATE - since_tick) as u128
    } else {
        0
    }
}

/// Whether another event is handled in this round.
pub fn takes_event(available: bool, events_processed: usize, quit: bool) -> (r: bool)
    ensures
        r == (available && events_processed < EVENTS_PER_ROUND && !quit),
{
    available && events_processed < EVENTS_PER_ROUND && !quit
}

/// Whether the view is due to be brought up to date.
pub fn tick_due(since_tick: u128) -> (r: bool)
    ensures
        r == (since_tick >= TICK_RATE),
{
    since_tick >= TICK_RATE
}

/// Whether what has changed asks for a frame.
pub fn tick_redraws(t: &TickFacts) -> (r: bool)
    ensures
        r == changed(*t),
{
    t.images_loaded || t.highlight_changed || t.hud_expired || t.notification_expired
        || t.pdf_hud_expired || t.mark_highlight_expired || t.pdf_renders_ready
        || t.synctex_commands
}

/// How long to wait for the next event; a round that handled events does not wait.
pub fn wait_time(events_processed: usize, since_tick: u128) -> (r: Option<u128>)
    ensures
        r == (if events_processed == 0 {
            Some(time_left(since_tick))
        } else {
            None
        }),
{
    if events_processed == 0 {
        Some(if since_tick < TICK_RATE {
            TICK_RATE - since_tick
        } else {
            0
        })
    } else {
        None
    }
}

impl App {
    /// What a round begins with.
    pub open spec fn round_start(self, events_processed: usize, first_render: bool) -> RoundStart {
        RoundStart {
            clear: self.pending_force_redraw,
            suspend: self.pending_suspend,
            needs_redraw: events_processed > 0 || first_render || self.pending_force_redraw
                || self.pending_suspend,
        }
    }

    /// Whether a frame is drawn: not while a page is awaited, unless a message is to be seen.
    pub open spec fn frame_drawn(self, needs_redraw: bool, hud_active: bool) -> bool {
        needs_redraw && (hud_active || !(self.pdf_waiting_for_page is Some
            || self.pdf_waiting_for_viewport))
    }

    /// Handles an event of the terminal.
    pub fn handle_event(&mut self, event: Event, f: &Facts, l: &LoopFacts) -> (r: (
        LoopNext,
        Vec<Effect>,
    ))
        ensures
            ({
                let (run, next) = RunView::start(*old(self)).loop_event(event, *f, *l);
                *final(self) == run.app && r.1@ == run.out && r.0 == next
            }),
    {
        let mut run = Run::start(*self);
        let next = run.loop_event(event, f, l);
        *self = run.app;
        (next, run.out)
    }

    /// Handles a key that the reader of the document left.
    pub fn key_after_pdf(&mut self, key: KeyEvent, f: &Facts, l: &LoopFacts) -> (effects: Vec<
        Effect,
    >)
        ensures
            ({
                let run = RunView::start(*old(self)).pdf_key_left(key, *f, *l);
                *final(self) == run.app && effects@ == run.out
            }),
    {
        let mut run = Run::start(*self);
        run.pdf_key_left(key, f, l);
        *self = run.app;
        run.out
    }

    /// Begins a round once its events were handled: what was asked for is done once.
    pub fn begin_round(&mut self, events_processed: usize, first_render: bool) -> (r: RoundStart)
        ensures
            r == old(self).round_start(events_processed, first_render),
            *final(self) == (App {
                pending_force_redraw: false,
                pending_suspend: false,
                ..*old(self)
            }),
    {
        let clear = self.pending_force_redraw;
        let suspend = self.pending_suspend;
        self.pending_force_redraw = false;
        self.pending_suspend = false;
        RoundStart {
            clear,
            suspend,
            needs_redraw: events_processed > 0 || first_render || clear || suspend,
        }
    }

    /// Whether a frame is drawn.
    pub fn draws_frame(&self, needs_redraw: bool, hud_active: bool) -> (r: bool)
        ensures
            r == self.frame_drawn(needs_redraw, hud_active),
    {
        needs_redraw && (hud_active || !(self.pdf_waiting_for_page.is_some()
            || self.pdf_waiting_for_viewport))
    }
}

// ---------------------------------------------------------------------------------------------
// Laws
// ---------------------------------------------------------------------------------------------
proof fn lemma_hotkey_is_sound(r: RunView, key: KeyEvent, f: Facts, l: LoopFacts)
    requires
        sound(r),
    ensures
        sound(r.pdf_hotkey(key, f, l).0),
{
    broadcast use group_run_sound;

    lemma_global_hotkeys_is_sound(r, key, f);
}

proof fn lemma_mark_is_sound(r: RunView, key: KeyEvent)
    requires
        sound(r),
    ensures
        sound(r.pending_mark(key).0),
{
    broadcast use group_run_sound;

    lemma_flags_sound(r, false);
}

/// Whatever event arrives, and whatever a document's reader leaves of it, the focus stays on what
/// exists.
pub proof fn law_events_are_sound(r: RunView, event: Event, key: KeyEvent, f: Facts, l: LoopFacts)
    requires
        sound(r),
    ensures
        sound(r.loop_event(event, f, l).0),
        sound(r.pdf_key_left(key, f, l)),
{
    broadcast use group_run_sound;

    if let Event::Key(pressed) = event {
        law_keys_are_sound(r, pressed, false, f);
        lemma_mark_is_sound(r, pressed);
        lemma_hotkey_is_sound(r, pressed, f, l);
    }
    lemma_hotkey_is_sound(r, key, f, l);
}

/// Releases and repetitions of keys change nothing.
pub proof fn law_only_presses_count(r: RunView, key: KeyEvent, f: Facts, l: LoopFacts)
    requires
        key.kind != KeyEventKind::Press,
    ensures
        r.loop_event(Event::Key(key), f, l) == (r, LoopNext::Done),
{
}

/// A window in focus gets the keys also while a document is open.
pub proof fn law_windows_get_keys_over_a_document(r: RunView, key: KeyEvent, f: Facts, l: LoopFacts)
    requires
        key.kind == KeyEventKind::Press,
        r.app.popup_active(),
    ensures
        r.loop_event(Event::Key(key), f, l) == (
            r.key_event(key, f).0,
            LoopNext::Key(r.key_event(key, f).1),
        ),
{
}

/// A letter that names a mark does nothing else: no global key and no key of the document's reader
/// sees it.
pub proof fn law_mark_letter_is_not_a_hotkey(r: RunView, key: KeyEvent, f: Facts, l: LoopFacts)
    requires
        key.kind == KeyEventKind::Press,
        r.app.pending_mark_op is Some,
        l.pdf_mode,
        !l.pdf_text_input,
        r.app.focused_panel == FocusedPanel::Main(MainPanel::Content),
    ensures
        r.loop_event(Event::Key(key), f, l) == (r.pending_mark(key).0, LoopNext::Done),
{
}

/// What is typed into the document's reader reaches it: no global key takes it away.
pub proof fn law_typed_text_reaches_the_document(r: RunView, key: KeyEvent, f: Facts, l: LoopFacts)
    requires
        key.kind == KeyEventKind::Press,
        l.pdf_mode,
        l.pdf_text_input,
        r.app.focused_panel == FocusedPanel::Main(MainPanel::Content),
    ensures
        r.loop_event(Event::Key(key), f, l) == (r, LoopNext::OfferPdf),
{
}

/// The wheel turned sideways over the panels does nothing.
pub proof fn law_sideways_wheel_is_ignored(r: RunView, ev: MouseEvent, f: Facts, l: LoopFacts)
    requires
        ev.kind == MouseEventKind::ScrollLeft || ev.kind == MouseEventKind::ScrollRight,
        !r.app.pdf_first(l),
    ensures
        r.loop_event(Event::Mouse(ev), f, l) == (r, LoopNext::Done),
{
}

/// The first round draws a frame, and so does every round that handled an event, unless a page is
/// awaited.
pub proof fn law_events_are_seen(app: App, events: usize, first: bool, hud: bool)
    requires
        events > 0 || first,
        app.pdf_waiting_for_page is None,
        !app.pdf_waiting_for_viewport,
    ensures
        app.frame_drawn(app.round_start(events, first).needs_redraw, hud),
{
}

/// A message of the document's reader is seen also while a page is awaited.
pub proof fn law_messages_are_seen(app: App)
    ensures
        app.frame_drawn(true, true),
{
}

/// A round never waits longer than until the view is due.
pub proof fn law_wait_ends_with_the_tick(since_tick: u128)
    ensures
        since_tick < TICK_RATE ==> since_tick + time_left(since_tick) == TICK_RATE,
        since_tick >= TICK_RATE ==> time_left(since_tick) == 0,
{
}

} // verus!
