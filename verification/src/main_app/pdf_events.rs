//! Events while a document is open: what its reader made of them, reloads and pages that are
//! awaited.
use vstd::prelude::*;
use vstd::string::*;

use crate::main_app::state::{group_run_app, group_run_sound, sound};
use crate::main_app::state::{App, AppAction, Effect, PendingMarkOp, Run, RunView};
use crate::text;

verus! {

/// What the reader of a document asks for after an event.
#[derive(Clone, Copy, Debug, PartialEq, Eq, Structural)]
pub enum PdfAction {
    /// The part of the page that is shown has moved.
    ViewportChanged,
    /// The source of the page is asked for.
    SyncTexInverse,
    SetMarkPending,
    GotoMarkPending,
    /// Anything that the reader does by itself.
    Apply,
}

/// What the reader of a document makes of an event.
#[derive(Clone, Copy, Debug, PartialEq, Eq, Structural)]
pub struct PdfAnswer {
    pub handled: bool,
    pub action: Option<PdfAction>,
    /// Whether the terminal keeps the pictures of pages itself.
    pub kitty: bool,
}

impl RunView {
    /// The part of a page that is shown is awaited before the next redraw, unless the terminal
    /// keeps the pictures itself.
    #[verifier::opaque]
    pub open spec fn await_viewport(self, kitty: bool) -> RunView {
        if kitty {
            self
        } else {
            self.to(App { pdf_waiting_for_viewport: true, ..self.app })
        }
    }

    /// Another page is awaited before the next redraw, unless the terminal keeps the pictures
    /// itself.
    #[verifier::opaque]
    pub open spec fn page_moved(self, before: usize, after: usize, kitty: bool) -> RunView {
        if kitty || before == after {
            self
        } else {
            self.to(App { pdf_waiting_for_page: Some(after), ..self.app })
        }
    }

    /// The next letter names a mark.
    #[verifier::opaque]
    pub open spec fn mark_pending(self, op: PendingMarkOp) -> RunView {
        self.to(App { pending_mark_op: Some(op), ..self.app })
    }

    /// What the reader of the document asks for is done.
    pub open spec fn pdf_action(self, action: PdfAction, kitty: bool) -> RunView {
        match action {
            PdfAction::ViewportChanged => self.await_viewport(kitty).emit(Effect::PdfApplyAction),
            PdfAction::SyncTexInverse => self.emit(Effect::PdfOpenSource),
            PdfAction::SetMarkPending => self.mark_pending(PendingMarkOp::Assign),
            PdfAction::GotoMarkPending => self.mark_pending(PendingMarkOp::Goto),
            PdfAction::Apply => self.emit(Effect::PdfApplyAction),
        }
    }

    /// What follows the reader's answer to an event.
    pub open spec fn pdf_answer(self, answer: PdfAnswer) -> RunView {
        match answer.action {
            Some(action) => if answer.handled {
                self.pdf_action(action, answer.kitty)
            } else {
                self
            },
            None => self,
        }
    }

    /// The picture of a page arrived: it is no longer awaited, and neither is a moved view.
    #[verifier::opaque]
    pub open spec fn frame_arrived(self, page: Option<usize>) -> RunView {
        match page {
            None => self,
            Some(p) => self.to(
                App {
                    pdf_waiting_for_page: if self.app.pdf_waiting_for_page == Some(p) {
                        None
                    } else {
                        self.app.pdf_waiting_for_page
                    },
                    pdf_waiting_for_viewport: false,
                    ..self.app
                },
            ),
        }
    }
}

impl Run {
    fn await_viewport(&mut self, kitty: bool)
        ensures
            final(self)@ == old(self)@.await_viewport(kitty),
    {
        proof {
            reveal(RunView::await_viewport);
        }
        if !kitty {
            self.set_app(App { pdf_waiting_for_viewport: true, ..self.app });
        }
    }

    fn page_moved(&mut self, before: usize, after: usize, kitty: bool)
        ensures
            final(self)@ == old(self)@.page_moved(before, after, kitty),
    {
        proof {
            reveal(RunView::page_moved);
        }
        if !kitty && before != after {
            self.set_app(App { pdf_waiting_for_page: Some(after), ..self.app });
        }
    }

    fn mark_pending(&mut self, op: PendingMarkOp)
        ensures
            final(self)@ == old(self)@.mark_pending(op),
    {
        proof {
            reveal(RunView::mark_pending);
        }
        self.set_app(App { pending_mark_op: Some(op), ..self.app });
    }

    fn pdf_action(&mut self, action: PdfAction, kitty: bool)
        ensures
            final(self)@ == old(self)@.pdf_action(action, kitty),
    {
        match action {
            PdfAction::ViewportChanged => {
                self.await_viewport(kitty);
                self.emit(Effect::PdfApplyAction);
            },
            PdfAction::SyncTexInverse => {
                self.emit(Effect::PdfOpenSource);
            },
            PdfAction::SetMarkPending => {
                self.mark_pending(PendingMarkOp::Assign);
            },
            PdfAction::GotoMarkPending => {
                self.mark_pending(PendingMarkOp::Goto);
            },
            PdfAction::Apply => {
                self.emit(Effect::PdfApplyAction);
            },
        }
    }

    fn pdf_answer(&mut self, answer: &PdfAnswer)
        ensures
            final(self)@ == old(self)@.pdf_answer(*answer),
    {
        if let Some(action) = answer.action {
            if answer.handled {
                self.pdf_action(action, answer.kitty);
            }
        }
    }

    fn frame_arrived(&mut self, page: Option<usize>)
        ensures
            final(self)@ == old(self)@.frame_arrived(page),
    {
        proof {
            reveal(RunView::frame_arrived);
        }
        if let Some(p) = page {
            let waiting = match self.app.pdf_waiting_for_page {
                Some(w) => if w == p {
                    None
                } else {
                    Some(w)
                },
                None => None,
            };
            self.set_app(
                App { pdf_waiting_for_page: waiting, pdf_waiting_for_viewport: false, ..self.app },
            );
        }
    }
}

impl App {
    /// What follows the answer of the document's reader to an event.
    pub fn handle_pdf_event(&mut self, answer: &PdfAnswer) -> (effects: Vec<Effect>)
        ensures
            ({
                let run = RunView::start(*old(self)).pdf_answer(*answer);
                *final(self) == run.app && effects@ == run.out
            }),
    {
        let mut run = Run::start(*self);
        run.pdf_answer(answer);
        *self = run.app;
        run.out
    }

    /// Takes note of what was done on an event: the page before and after it, and whether it asks
    /// to quit.
    pub fn pdf_event_done(&mut self, before: usize, after: usize, kitty: bool, quit: bool) -> (r:
        Option<AppAction>)
        ensures
            *final(self) == RunView::start(*old(self)).page_moved(before, after, kitty).app,
            r == (if quit {
                Some(AppAction::Quit)
            } else {
                None
            }),
    {
        let mut run = Run::start(*self);
        run.page_moved(before, after, kitty);
        *self = run.app;
        if quit {
            Some(AppAction::Quit)
        } else {
            None
        }
    }

    /// Takes note of a page whose picture arrived.
    pub fn poll_pdf_renders(&mut self, frame_page: Option<usize>)
        ensures
            *final(self) == RunView::start(*old(self)).frame_arrived(frame_page).app,
    {
        let mut run = Run::start(*self);
        run.frame_arrived(frame_page);
        *self = run.app;
    }

    /// Takes note of the page that was gone to.
    pub fn navigate_pdf_to_page(&mut self, before: usize, after: usize, kitty: bool)
        ensures
            *final(self) == RunView::start(*old(self)).page_moved(before, after, kitty).app,
    {
        let mut run = Run::start(*self);
        run.page_moved(before, after, kitty);
        *self = run.app;
    }

    /// Takes note of the page of a mark that was jumped to.
    pub fn apply_pdf_mark_jump(&mut self, page: usize, kitty: bool)
        ensures
            *final(self) == (App {
                pdf_waiting_for_page: if kitty {
                    old(self).pdf_waiting_for_page
                } else {
                    Some(page)
                },
                ..*old(self)
            }),
    {
        if !kitty {
            self.pdf_waiting_for_page = Some(page);
        }
    }
}

/// A page that is awaited is no longer so once its picture arrives.
pub proof fn law_arrived_page_is_not_awaited(r: RunView, page: usize)
    requires
        r.app.pdf_waiting_for_page == Some(page),
    ensures
        r.frame_arrived(Some(page)).app.pdf_waiting_for_page is None,
        !r.frame_arrived(Some(page)).app.pdf_waiting_for_viewport,
{
    reveal(RunView::frame_arrived);
    reveal(RunView::to);
}

proof fn lemma_steps_app(r: RunView, before: usize, after: usize, op: PendingMarkOp)
    ensures
        r.await_viewport(true) == r,
        r.page_moved(before, after, true) == r,
        r.mark_pending(op).app == (App { pending_mark_op: Some(op), ..r.app }),
{
    reveal(RunView::await_viewport);
    reveal(RunView::page_moved);
    reveal(RunView::mark_pending);
    reveal(RunView::to);
}

/// A terminal that keeps the pictures itself never makes the view wait.
pub proof fn law_kitty_never_waits(r: RunView, answer: PdfAnswer, before: usize, after: usize)
    requires
        answer.kitty,
    ensures
        ({
            let done = r.pdf_answer(answer).page_moved(before, after, answer.kitty).app;
            &&& done.pdf_waiting_for_page == r.app.pdf_waiting_for_page
            &&& done.pdf_waiting_for_viewport == r.app.pdf_waiting_for_viewport
        }),
{
    broadcast use group_run_app;

    lemma_steps_app(r, before, after, PendingMarkOp::Assign);
    lemma_steps_app(r, before, after, PendingMarkOp::Goto);
    lemma_steps_app(r.pdf_answer(answer), before, after, PendingMarkOp::Goto);
}

proof fn lemma_steps_sound(r: RunView, before: usize, after: usize, kitty: bool, op: PendingMarkOp)
    requires
        sound(r),
    ensures
        sound(r.await_viewport(kitty)),
        sound(r.page_moved(before, after, kitty)),
        sound(r.mark_pending(op)),
{
    reveal(sound);
    reveal(RunView::await_viewport);
    reveal(RunView::page_moved);
    reveal(RunView::mark_pending);
    reveal(RunView::to);
}

/// What a document's reader asks for leaves the focus on what exists.
pub proof fn law_pdf_events_are_sound(r: RunView, answer: PdfAnswer, before: usize, after: usize)
    requires
        sound(r),
    ensures
        sound(r.pdf_answer(answer).page_moved(before, after, answer.kitty)),
{
    broadcast use group_run_sound;

    lemma_steps_sound(r, before, after, answer.kitty, PendingMarkOp::Assign);
    lemma_steps_sound(r, before, after, answer.kitty, PendingMarkOp::Goto);
    lemma_steps_sound(r.pdf_answer(answer), before, after, answer.kitty, PendingMarkOp::Goto);
}

// ---------------------------------------------------------------------------------------------
// A place that an editor asked for
// ---------------------------------------------------------------------------------------------
/// What becomes of a place that an editor asked for and that is not shown yet.
#[derive(Clone, Copy, Debug, PartialEq, Eq, Structural)]
pub struct ForwardStep {
    /// Whether it stays to be shown.
    pub pending: bool,
    /// Whether it was shown now.
    pub applied: bool,
    /// Whether the moved view is awaited.
    pub waits: bool,
}

/// What becomes of a place that an editor asked for: it stays until the reader could show it, and
/// is dropped without a reader.
pub open spec fn forward_step(
    pending: bool,
    reader: bool,
    shown: bool,
    viewport_sent: bool,
) -> ForwardStep {
    if !pending || !reader {
        ForwardStep { pending: false, applied: false, waits: false }
    } else if !shown {
        ForwardStep { pending: true, applied: false, waits: false }
    } else {
        ForwardStep { pending: false, applied: true, waits: viewport_sent }
    }
}

/// What becomes of a place that an editor asked for. `shown` says that the reader could show it,
/// and `viewport_sent` that the converter was told of the moved view.
pub fn apply_pending_synctex_forward(
    pending: bool,
    reader: bool,
    shown: bool,
    viewport_sent: bool,
) -> (r: ForwardStep)
    ensures
        r == forward_step(pending, reader, shown, viewport_sent),
{
    if !pending || !reader {
        ForwardStep { pending: false, applied: false, waits: false }
    } else if !shown {
        ForwardStep { pending: true, applied: false, waits: false }
    } else {
        ForwardStep { pending: false, applied: true, waits: viewport_sent }
    }
}

// ---------------------------------------------------------------------------------------------
// Watching and reloading
// ---------------------------------------------------------------------------------------------
/// What a request to watch a document, or to stop, comes to.
#[derive(Clone, Copy, Debug, PartialEq, Eq, Structural)]
pub enum WatchPlan {
    /// No document is open.
    Nothing,
    RefuseDjvu,
    Disable,
    Enable,
}

/// What a request to watch a document, or to stop, comes to.
pub open spec fn watch_plan(open: bool, is_djvu: bool, watching: bool) -> WatchPlan {
    if !open {
        WatchPlan::Nothing
    } else if is_djvu {
        WatchPlan::RefuseDjvu
    } else if watching {
        WatchPlan::Disable
    } else {
        WatchPlan::Enable
    }
}

/// What is said of a request to watch; `now` says whether the document is watched after it.
pub open spec fn watch_message(plan: WatchPlan, now: bool) -> Option<Seq<char>> {
    match plan {
        WatchPlan::Nothing => None,
        WatchPlan::RefuseDjvu => Some("Watching is not supported for DjVu files"@),
        WatchPlan::Disable => Some("Watching disabled"@),
        WatchPlan::Enable => if now {
            Some("Watching enabled"@)
        } else {
            Some("Failed to enable watching"@)
        },
    }
}

/// What a request to watch a document, or to stop, comes to.
pub fn toggle_pdf_watching(open: bool, is_djvu: bool, watching: bool) -> (r: WatchPlan)
    ensures
        r == watch_plan(open, is_djvu, watching),
{
    if !open {
        WatchPlan::Nothing
    } else if is_djvu {
        WatchPlan::RefuseDjvu
    } else if watching {
        WatchPlan::Disable
    } else {
        WatchPlan::Enable
    }
}

/// What is said of a request to watch.
pub fn watching_message(plan: WatchPlan, now: bool) -> (r: Option<String>)
    ensures
        text::option_view(r) == watch_message(plan, now),
{
    match plan {
        WatchPlan::Nothing => None,
        WatchPlan::RefuseDjvu => Some(text::copy("Watching is not supported for DjVu files")),
        WatchPlan::Disable => Some(text::copy("Watching disabled")),
        WatchPlan::Enable => if now {
            Some(text::copy("Watching enabled"))
        } else {
            Some(text::copy("Failed to enable watching"))
        },
    }
}

/// What the converter is told after a reload.
#[derive(Clone, Copy, Debug, PartialEq, Eq, Structural)]
pub enum ReloadCommand {
    InvalidatePageCache,
    ClearSelection,
    SetPageCount(usize),
    NavigateTo(usize),
    UpdateComments,
    UpdateHighlights,
}

/// What is brought up to date, and what is forgotten, when a document has changed.
#[derive(Clone, Copy, Debug, PartialEq, Eq, Structural)]
pub enum ReloadStep {
    /// The title, the author and the path in the bookmark.
    UpdateBookmark,
    UpdateTitle,
    UpdateToc,
    /// How many pages are known; those that stay keep their size, so that the scrolling stays.
    ResizePages { kept: usize, added: usize },
    /// The page that is shown, without a change of the scrolling.
    ShowPage(usize),
    ForgetLayout,
    ForgetPictures,
    ForgetViewport,
    ClearSelection,
    ClearHighlight,
    ClearSearchMatches,
    TellConverter,
    UpdatePageNumbers,
    /// A message says that the document was loaded again.
    SayReloaded,
    /// What is known of its source, without a new listener.
    RefreshSource,
}

/// What is brought up to date, and what is forgotten, in this order.
pub open spec fn reload_steps(page: usize, kept: usize, added: usize) -> Seq<ReloadStep> {
    seq![
        ReloadStep::UpdateBookmark,
        ReloadStep::UpdateTitle,
        ReloadStep::UpdateToc,
        ReloadStep::ResizePages { kept, added },
        ReloadStep::ShowPage(page),
        ReloadStep::ForgetLayout,
        ReloadStep::ForgetPictures,
        ReloadStep::ForgetViewport,
        ReloadStep::ClearSelection,
        ReloadStep::ClearHighlight,
        ReloadStep::ClearSearchMatches,
        ReloadStep::TellConverter,
        ReloadStep::UpdatePageNumbers,
        ReloadStep::SayReloaded,
        ReloadStep::RefreshSource,
    ]
}

/// How a document that has changed is taken over.
pub struct ReloadPlan {
    /// The page that is shown: the same, or the last one where there are fewer.
    pub page: usize,
    /// How many pages keep what is known of them.
    pub kept: usize,
    /// How many pages are new.
    pub added: usize,
    /// What is done.
    pub steps: Vec<ReloadStep>,
    /// What the converter is told.
    pub commands: Vec<ReloadCommand>,
    /// What the message says.
    pub message: String,
}

/// What the converter is told after a reload.
pub open spec fn reload_commands(page_count: usize, page: usize) -> Seq<ReloadCommand> {
    seq![
        ReloadCommand::InvalidatePageCache,
        ReloadCommand::ClearSelection,
        ReloadCommand::SetPageCount(page_count),
        ReloadCommand::NavigateTo(page),
        ReloadCommand::UpdateComments,
        ReloadCommand::UpdateHighlights,
    ]
}

/// How a document that has changed is taken over: not at all while it has no pages, as it is then
/// being written.
pub fn handle_pdf_reload(page_count: usize, page: usize, known_pages: usize) -> (r: Option<
    ReloadPlan,
>)
    ensures
        r is Some <==> page_count > 0,
        r matches Some(p) ==> {
            &&& p.page == (if page < page_count {
                page as int
            } else {
                page_count - 1
            })
            &&& p.kept == (if known_pages < page_count {
                known_pages
            } else {
                page_count
            })
            &&& p.kept + p.added == page_count
            &&& p.steps@ == reload_steps(p.page, p.kept, p.added)
            &&& p.commands@ == reload_commands(page_count, p.page)
            &&& p.message@ == "Document reloaded"@
        },
{
    if page_count == 0 {
        return None;
    }
    let shown = if page < page_count {
        page
    } else {
        page_count - 1
    };
    let kept = if known_pages < page_count {
        known_pages
    } else {
        page_count
    };
    let commands = vec![
        ReloadCommand::InvalidatePageCache,
        ReloadCommand::ClearSelection,
        ReloadCommand::SetPageCount(page_count),
        ReloadCommand::NavigateTo(shown),
        ReloadCommand::UpdateComments,
        ReloadCommand::UpdateHighlights,
    ];
    assert(commands@ =~= reload_commands(page_count, shown));
    let added: usize = page_count - kept;
    let steps = vec![
        ReloadStep::UpdateBookmark,
        ReloadStep::UpdateTitle,
        ReloadStep::UpdateToc,
        ReloadStep::ResizePages { kept, added },
        ReloadStep::ShowPage(shown),
        ReloadStep::ForgetLayout,
        ReloadStep::ForgetPictures,
        ReloadStep::ForgetViewport,
        ReloadStep::ClearSelection,
        ReloadStep::ClearHighlight,
        ReloadStep::ClearSearchMatches,
        ReloadStep::TellConverter,
        ReloadStep::UpdatePageNumbers,
        ReloadStep::SayReloaded,
        ReloadStep::RefreshSource,
    ];
    assert(steps@ =~= reload_steps(shown, kept, added));
    let message = text::copy("Document reloaded");
    Some(ReloadPlan { page: shown, kept, added, steps, commands, message })
}

} // verus!
