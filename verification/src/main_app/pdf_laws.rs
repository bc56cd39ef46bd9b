//! What follows the events of an open document, and which pages its entries cover.
use vstd::prelude::*;
use vstd::string::*;

use crate::main_app::pdf_events::{
    forward_step, reload_commands, reload_steps, watch_message, watch_plan, ForwardStep, PdfAction,
    PdfAnswer, ReloadCommand, ReloadStep, WatchPlan,
};
use crate::main_app::pdf_toc::{
    any_covers, copy_refusal, covers, end_of, entry_at, entry_index, extract_message, first_child_page,
    listed_page, page_beyond, target_page, PdfTocItem, TocCopy, TocEntry, TocTarget,
};
use crate::main_app::reading_laws::{asks, leads};
use crate::main_app::state::{App, Effect, Notice, NotificationLevel, PendingMarkOp, RunView};
use crate::text;
use crate::text::{begins, decimal, trimmed};

verus! {

// ---------------------------------------------------------------------------------------------
// Events
// ---------------------------------------------------------------------------------------------
/// What the reader of a document asks for is done, and nothing where it left the event alone or asks for
/// nothing.
pub proof fn law_answers_of_the_reader(r: RunView, action: PdfAction, kitty: bool)
    ensures
        ({
            let asked = |a: PdfAction, handled: bool, kitty: bool|
                r.pdf_answer(PdfAnswer { handled, action: Some(a), kitty });
            let none: Seq<Effect> = Seq::empty();
            &&& asks(r, asked(PdfAction::Apply, true, kitty), seq![Effect::PdfApplyAction])
            &&& asks(r, asked(PdfAction::SyncTexInverse, true, kitty), seq![Effect::PdfOpenSource])
            &&& asks(r, asked(PdfAction::ViewportChanged, true, true), seq![Effect::PdfApplyAction])
            &&& leads(
                r,
                asked(PdfAction::ViewportChanged, true, false),
                App { pdf_waiting_for_viewport: true, ..r.app },
                seq![Effect::PdfApplyAction],
            )
            &&& leads(
                r,
                asked(PdfAction::SetMarkPending, true, kitty),
                App { pending_mark_op: Some(PendingMarkOp::Assign), ..r.app },
                none,
            )
            &&& leads(
                r,
                asked(PdfAction::GotoMarkPending, true, kitty),
                App { pending_mark_op: Some(PendingMarkOp::Goto), ..r.app },
                none,
            )
            &&& asked(action, false, kitty) == r
            &&& r.pdf_answer(PdfAnswer { handled: true, action: None, kitty }) == r
        }),
{
    reveal(RunView::emit);
    reveal(RunView::to);
    reveal(RunView::await_viewport);
    reveal(RunView::mark_pending);
}

/// A page that was gone to is awaited unless it was shown before or the terminal keeps the pictures; it is
/// awaited until its picture arrives.
pub proof fn law_pages_are_awaited(r: RunView, before: usize, after: usize, other: usize)
    requires
        before != after,
        other != after,
    ensures
        ({
            let moved = r.page_moved(before, after, false);
            &&& moved.app == (App { pdf_waiting_for_page: Some(after), ..r.app })
            &&& moved.out == r.out
            &&& r.page_moved(before, before, false) == r
            &&& r.page_moved(before, after, true) == r
            &&& moved.frame_arrived(Some(after)).app == (App {
                pdf_waiting_for_page: None,
                pdf_waiting_for_viewport: false,
                ..r.app
            })
            &&& moved.frame_arrived(Some(other)).app.pdf_waiting_for_page == Some(after)
            &&& moved.frame_arrived(None) == moved
        }),
{
    reveal(RunView::to);
    reveal(RunView::page_moved);
    reveal(RunView::frame_arrived);
}

/// A place that an editor asked for is shown once: it is kept until the reader can show it.
pub proof fn law_asked_places_are_shown(shown: bool, sent: bool)
    ensures
        forward_step(true, true, true, sent) == (ForwardStep {
            pending: false,
            applied: true,
            waits: sent,
        }),
        forward_step(true, true, false, sent) == (ForwardStep {
            pending: true,
            applied: false,
            waits: false,
        }),
        forward_step(true, false, shown, sent) == (ForwardStep {
            pending: false,
            applied: false,
            waits: false,
        }),
        forward_step(false, true, shown, sent) == (ForwardStep {
            pending: false,
            applied: false,
            waits: false,
        }),
{
}

/// Watching is turned on and off in turn; a DjVu document is refused, and without a document nothing is
/// said.
pub proof fn law_watching_is_toggled(djvu: bool, watching: bool, now: bool)
    ensures
        watch_plan(false, djvu, watching) == WatchPlan::Nothing,
        watch_plan(true, true, watching) == WatchPlan::RefuseDjvu,
        watch_plan(true, false, true) == WatchPlan::Disable,
        watch_plan(true, false, false) == WatchPlan::Enable,
        watch_message(WatchPlan::Nothing, now) is None,
        watch_message(WatchPlan::RefuseDjvu, now) == Some("Watching is not supported for DjVu files"@),
        watch_message(WatchPlan::Disable, now) == Some("Watching disabled"@),
        watch_message(WatchPlan::Enable, true) == Some("Watching enabled"@),
        watch_message(WatchPlan::Enable, false) == Some("Failed to enable watching"@),
{
}

/// A document that has changed is taken over: its names first, then its pages, then what was made of the
/// old ones is forgotten, and the converter is told before its source is looked up again.
pub proof fn law_changed_documents_are_taken_over(page: usize, kept: usize, added: usize, count: usize)
    ensures
        ({
            let s = reload_steps(page, kept, added);
            &&& s.take(5) =~= seq![
                ReloadStep::UpdateBookmark,
                ReloadStep::UpdateTitle,
                ReloadStep::UpdateToc,
                ReloadStep::ResizePages { kept, added },
                ReloadStep::ShowPage(page),
            ]
            &&& s.subrange(5, 11) =~= seq![
                ReloadStep::ForgetLayout,
                ReloadStep::ForgetPictures,
                ReloadStep::ForgetViewport,
                ReloadStep::ClearSelection,
                ReloadStep::ClearHighlight,
                ReloadStep::ClearSearchMatches,
            ]
            &&& s.skip(11) =~= seq![
                ReloadStep::TellConverter,
                ReloadStep::UpdatePageNumbers,
                ReloadStep::SayReloaded,
                ReloadStep::RefreshSource,
            ]
        }),
        reload_commands(count, page) =~= seq![
            ReloadCommand::InvalidatePageCache,
            ReloadCommand::ClearSelection,
            ReloadCommand::SetPageCount(count),
            ReloadCommand::NavigateTo(page),
            ReloadCommand::UpdateComments,
            ReloadCommand::UpdateHighlights,
        ],
{
}

// ---------------------------------------------------------------------------------------------
// Entries
// ---------------------------------------------------------------------------------------------
/// The links of the list lead to the page that they number, or to the one on which a printed number was
/// seen, or that comes to it by counting.
pub proof fn law_listed_links_lead_to_pages(n: usize, seen: Option<usize>, count: usize)
    ensures
        ({
            let page = "pdf:page:"@ + decimal(n as nat);
            let printed = "pdf:printed:"@ + decimal(n as nat);
            &&& listed_page(Some(page), seen, count) == Some(n)
            &&& seen is Some ==> listed_page(Some(printed), seen, count) == seen
            &&& 1 <= n <= count ==> listed_page(Some(printed), None, count) == Some((n - 1) as usize)
            &&& n == 0 || n > count ==> listed_page(Some(printed), None, count) is None
            &&& listed_page(None, seen, count) is None
            &&& target_page(TocTarget::InternalPage(n), count) == Some(n)
            &&& target_page(TocTarget::External, count) is None
            &&& seen is Some ==> target_page(TocTarget::PrintedPage { printed: n, seen }, count) == seen
            &&& 1 <= n <= count ==> target_page(TocTarget::PrintedPage { printed: n, seen: None }, count)
                == Some((n - 1) as usize)
        }),
{
    reveal_strlit("pdf:page:");
    reveal_strlit("pdf:printed:");
    let page = "pdf:page:"@ + decimal(n as nat);
    let printed = "pdf:printed:"@ + decimal(n as nat);
    assert(page.subrange(0, 9) =~= "pdf:page:"@);
    assert(page.skip(9) =~= decimal(n as nat));
    assert(printed.subrange(0, 12) =~= "pdf:printed:"@);
    assert(printed.skip(12) =~= decimal(n as nat));
    if begins(printed, "pdf:page:"@) {
        assert(printed.subrange(0, 9)[5] == "pdf:page:"@[5]);
    }
    text::lemma_decimal_reads_back(n as nat, usize::MAX as nat);
}

/// The entry of a listed one is the first with its page and title, white space aside, and else the first
/// with its page.
pub proof fn law_entry_of_a_listed_one(
    entries: Seq<TocEntry>,
    i: int,
    page: usize,
    title: Seq<char>,
    count: usize,
)
    requires
        0 <= i <= entries.len(),
    ensures
        ({
            let there = |k: int| target_page(entries[k].target, count) == Some(page);
            let named = |k: int| there(k) && trimmed(entries[k].title@) == trimmed(title);
            &&& match entry_at(entries, i, page, Some(trimmed(title)), count) {
                Some(k) => i <= k < entries.len() && named(k) && (forall|j: int|
                    #![trigger entries[j]]
                    i <= j < k ==> !named(j)),
                None => forall|j: int| #![trigger entries[j]] i <= j < entries.len() ==> !named(j),
            }
            &&& match entry_at(entries, i, page, None, count) {
                Some(k) => i <= k < entries.len() && there(k) && (forall|j: int|
                    #![trigger entries[j]]
                    i <= j < k ==> !there(j)),
                None => forall|j: int| #![trigger entries[j]] i <= j < entries.len() ==> !there(j),
            }
            &&& entry_at(entries, 0, page, Some(trimmed(title)), count) is Some ==> entry_index(
                entries,
                page,
                title,
                count,
            ) == entry_at(entries, 0, page, Some(trimmed(title)), count)
            &&& entry_at(entries, 0, page, Some(trimmed(title)), count) is None ==> entry_index(
                entries,
                page,
                title,
                count,
            ) == entry_at(entries, 0, page, None, count)
        }),
    decreases entries.len() - i,
{
    if i < entries.len() {
        law_entry_of_a_listed_one(entries, i + 1, page, title, count);
    }
}

/// Whether an entry leads to a page beyond the given one.
pub open spec fn beyond(entry: TocEntry, start: usize, count: usize) -> bool {
    target_page(entry.target, count) is Some && target_page(entry.target, count)->0 > start
}

/// The pages of an entry end before the page of the first entry behind it that leads further, and with the
/// document where none does.
pub proof fn law_where_an_entry_ends(
    entries: Seq<TocEntry>,
    start: usize,
    title: Seq<char>,
    count: usize,
    k: int,
)
    requires
        entry_index(entries, start, title, count) matches Some(i) && 0 <= i < k < entries.len() && (
        forall|j: int|
            #![trigger entries[j]]
            i < j < k ==> !beyond(entries[j], start, count)),
    ensures
        beyond(entries[k], start, count) ==> Some(end_of(entries, start, title, count)) == target_page(
            entries[k].target,
            count,
        ),
        k == entries.len() - 1 && !beyond(entries[k], start, count)
            ==> end_of(entries, start, title, count) == count,
{
    let i = entry_index(entries, start, title, count)->0;
    lemma_beyond(entries, i + 1, start, count, k);
}

proof fn lemma_beyond(entries: Seq<TocEntry>, i: int, start: usize, count: usize, k: int)
    requires
        0 <= i <= k < entries.len(),
        forall|j: int|
            #![trigger entries[j]]
            i <= j < k ==> !beyond(entries[j], start, count),
    ensures
        beyond(entries[k], start, count) ==> page_beyond(entries, i, start, count) == target_page(
            entries[k].target,
            count,
        ),
        k == entries.len() - 1 && !beyond(entries[k], start, count)
            ==> page_beyond(entries, i, start, count) is None,
    decreases k - i,
{
    reveal_with_fuel(page_beyond, 2);
    if i < k {
        assert(entries[i] == entries[i]);
        lemma_beyond(entries, i + 1, start, count, k);
    }
}

/// A chapter covers the pages from its own up to its end; a section covers what its children cover and what
/// stands before the first of them; an entry that leads nowhere covers nothing by itself.
pub proof fn law_pages_of_an_entry(
    title: String,
    start: usize,
    children: Vec<PdfTocItem>,
    page: usize,
    entries: Seq<TocEntry>,
    count: usize,
    k: int,
)
    ensures
        ({
            let chapter = PdfTocItem::Chapter { title, page: Some(start) };
            let section = PdfTocItem::Section { title, page: Some(start), children };
            let nowhere = PdfTocItem::Section { title, page: None, children };
            let end = end_of(entries, start, title@, count);
            let of = |item: PdfTocItem| covers(item, page, entries, count);
            let first = first_child_page(children@, 0);
            &&& of(chapter) <==> start <= page < end
            &&& !of(PdfTocItem::Chapter { title, page: None })
            &&& 0 <= k < children@.len() && of(children@[k]) ==> of(section) && of(nowhere)
            &&& first is Some && start <= page < first->0 ==> of(section)
            &&& first is None && start <= page < end ==> of(section)
            &&& page < start && of(section) ==> of(nowhere)
            &&& children@.len() == 0 ==> (of(section) <==> start <= page < end) && !of(nowhere)
        }),
{
    if 0 <= k < children@.len() && covers(children@[k], page, entries, count) {
        lemma_any_covers(children@, children@.len(), k, page, entries, count);
    }
}

proof fn lemma_any_covers(
    items: Seq<PdfTocItem>,
    n: nat,
    k: int,
    page: usize,
    entries: Seq<TocEntry>,
    count: usize,
)
    requires
        0 <= k < n <= items.len(),
        covers(items[k], page, entries, count),
    ensures
        any_covers(items, n, page, entries, count),
    decreases n,
{
    if k < n - 1 {
        lemma_any_covers(items, (n - 1) as nat, k, page, entries, count);
    }
}

/// The page of the first child that leads to one.
pub proof fn law_first_page_of_the_children(children: Seq<PdfTocItem>, k: int, p: usize, i: int)
    requires
        0 <= i <= k < children.len(),
        children[k].start() == Some(p),
        forall|j: int| #![trigger children[j]] i <= j < k ==> children[j].start() is None,
    ensures
        first_child_page(children, i) == Some(p),
    decreases k - i,
{
    if i < k {
        assert(children[i].start() is None);
        law_first_page_of_the_children(children, k, p, i + 1);
    }
}

/// What is said while pages are extracted: one page by its number, counted from one, and several by how
/// many they are; and what is told where there is nothing to extract.
pub proof fn law_what_is_said_of_extracting(title: Seq<char>, page: usize, pages: Seq<usize>)
    ensures
        extract_message(title, seq![page]) =~= "Extracting \""@ + title + "\" ("@ + ("page "@ + decimal(
            page as nat + 1,
        )) + ")..."@,
        pages.len() != 1 ==> extract_message(title, pages) =~= "Extracting \""@ + title + "\" ("@ + (
        decimal(pages.len()) + " pages"@) + ")..."@,
        copy_refusal(TocCopy::NoItem) == Some((NotificationLevel::Warning, Notice::NoTocItem)),
        copy_refusal(TocCopy::NoPages) == Some((NotificationLevel::Warning, Notice::NoTocPages)),
{
}

} // verus!
