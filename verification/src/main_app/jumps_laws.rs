//! What following a link does, and how a mark or a place of the history is reached.
use vstd::prelude::*;
use vstd::string::*;

use crate::main_app::jumps::{
    jump_step, link_plan, mark_failure, mark_steps, JumpStep, LinkAction, LinkInfo, LinkPlan, LinkType,
    MarkLocation, MarkStep,
};
use crate::main_app::opening::ChapterCursor;
use crate::main_app::state::Notice;
use crate::paths_laws::{below, is_name, law_file_name};

verus! {

/// Pictures are opened whatever the link is; a link to outside is opened outside; one to an anchor scrolls
/// there, and the place is remembered before and behind it where a book is open.
pub proof fn law_links_are_followed(link: LinkInfo, current: Option<Seq<char>>)
    ensures
        ({
            let outside = LinkInfo { link_type: LinkType::External, ..link };
            let anchor = LinkInfo { link_type: LinkType::InternalAnchor, has_anchor: true, ..link };
            let nowhere = LinkInfo { link_type: LinkType::InternalAnchor, has_anchor: false, ..link };
            &&& link_plan(link, true, true, current) == (LinkPlan {
                remembered: 0,
                action: LinkAction::OpenImage,
            })
            &&& link_plan(outside, false, true, current) == (LinkPlan {
                remembered: 0,
                action: LinkAction::OpenExternal,
            })
            &&& link_plan(anchor, false, true, current) == (LinkPlan {
                remembered: 2,
                action: LinkAction::ScrollToAnchor,
            })
            &&& link_plan(anchor, false, false, current) == (LinkPlan {
                remembered: 0,
                action: LinkAction::ScrollToAnchor,
            })
            &&& link_plan(nowhere, false, true, current).action == (LinkAction::Nothing {
                followed: false,
            })
        }),
{
}

/// A link to a file of the book goes there, unless it is the file that is shown: that is told by the name
/// of the file, wherever it stands, and then only its anchor is scrolled to.
pub proof fn law_links_to_files_are_followed(
    file: String,
    has_anchor: bool,
    dir: Seq<char>,
    other_dir: Seq<char>,
    name: Seq<char>,
    other: Seq<char>,
)
    requires
        is_name(name),
        is_name(other),
        file@ == below(dir, name),
    ensures
        ({
            let link = LinkInfo {
                link_type: LinkType::InternalChapter,
                target_chapter: Some(file),
                has_anchor,
            };
            let shown = |current: Seq<char>| link_plan(link, false, true, Some(current));
            let lost = LinkInfo {
                link_type: LinkType::InternalChapter,
                target_chapter: None,
                has_anchor,
            };
            &&& has_anchor ==> shown(below(other_dir, name)) == (LinkPlan {
                remembered: 2,
                action: LinkAction::ScrollToAnchor,
            })
            &&& !has_anchor ==> shown(below(other_dir, name)) == (LinkPlan {
                remembered: 2,
                action: LinkAction::Nothing { followed: true },
            })
            &&& other != name ==> shown(below(other_dir, other)) == (LinkPlan {
                remembered: 1,
                action: LinkAction::GoToFile,
            })
            &&& link_plan(link, false, true, None) == (LinkPlan {
                remembered: 1,
                action: LinkAction::GoToFile,
            })
            &&& link_plan(link, false, false, None) == (LinkPlan {
                remembered: 0,
                action: LinkAction::GoToFile,
            })
            &&& link_plan(lost, false, true, None) == (LinkPlan {
                remembered: 1,
                action: LinkAction::Nothing { followed: false },
            })
        }),
{
    law_file_name(dir, name);
    law_file_name(other_dir, name);
    law_file_name(other_dir, other);
}

/// On the way to a place its book is loaded first, then its chapter gone to, then its node restored; none
/// of these is done twice.
pub proof fn law_way_to_a_place(
    path: Seq<char>,
    other: Option<Seq<char>>,
    book: ChapterCursor,
    chapter: usize,
)
    ensures
        other != Some(path) ==> jump_step(other, Some(book), path, chapter) is Load,
        jump_step(None, None, path, chapter) is Load,
        book.current == chapter ==> jump_step(Some(path), Some(book), path, chapter) is Restore,
        book.current != chapter && chapter < book.total ==> (jump_step(
            Some(path),
            Some(book),
            path,
            chapter,
        ) matches JumpStep::Navigate(n) && n.result == Ok::<
            usize,
            crate::main_app::opening::OpenError,
        >(chapter)),
        book.current != chapter && chapter >= book.total ==> (jump_step(
            Some(path),
            Some(book),
            path,
            chapter,
        ) matches JumpStep::Navigate(n) && n.result is Err),
{
}

/// A mark in a book: its place is reached within the open chapter, through the chapter of the open book, or
/// by opening its book there, and then it is scrolled to, kept and flashed.
pub proof fn law_marks_of_books_are_reached(
    chapter: usize,
    node: usize,
    offset: usize,
    open: Option<usize>,
)
    ensures
        ({
            let exact = MarkLocation::Epub { chapter, node, node_offset: Some(offset) };
            let rough = MarkLocation::Epub { chapter, node, node_offset: None };
            let show = seq![
                MarkStep::RestorePosition { of_node: node, offset },
                MarkStep::SaveBookmark,
                MarkStep::FlashPosition { of_node: node, offset },
            ];
            let show_node = seq![
                MarkStep::RestoreNode { node },
                MarkStep::SaveBookmark,
                MarkStep::FlashNode { node },
            ];
            let remember = seq![MarkStep::RememberPlace];
            let go = seq![MarkStep::RememberPlace, MarkStep::Navigate { to_chapter: chapter }];
            let load = seq![MarkStep::OpenAtChapter { at_chapter: chapter }];
            &&& mark_steps(exact, true, true, Some(chapter)) =~= remember + show
            &&& mark_steps(rough, true, true, Some(chapter)) =~= remember + show_node
            &&& open != Some(chapter) ==> mark_steps(exact, true, true, open) =~= go + show
            &&& open != Some(chapter) ==> mark_steps(rough, true, true, open) =~= go + show_node
            &&& mark_steps(exact, true, false, open) =~= load + show
            &&& mark_steps(rough, true, false, open) =~= load + show_node
        }),
{
}

/// A mark in a document is applied, after its document was opened at that page where it was not open.
pub proof fn law_marks_of_documents_are_reached(
    page: usize,
    scroll_offset: u32,
    line: Option<usize>,
    open: Option<usize>,
)
    ensures
        ({
            let mark = MarkLocation::Pdf { page, scroll_offset, line };
            let apply = MarkStep::ApplyPdf { page, scroll_offset, line };
            &&& mark_steps(mark, true, true, open) =~= seq![apply]
            &&& mark_steps(mark, true, false, open) =~= seq![
                MarkStep::OpenAtPage { at_page: page },
                apply,
            ]
        }),
{
}

/// A chapter that cannot be gone to, and a book that cannot be opened, are told.
pub proof fn law_failed_jumps_are_told(n: usize)
    ensures
        mark_failure(MarkStep::Navigate { to_chapter: n }) == Some(Notice::JumpToMarkFailed),
        mark_failure(MarkStep::OpenAtChapter { at_chapter: n }) == Some(Notice::OpenPathFailed),
        mark_failure(MarkStep::OpenAtPage { at_page: n }) == Some(Notice::OpenPathFailed),
        mark_failure(MarkStep::RestoreNode { node: n }) is None,
        mark_failure(MarkStep::FlashNode { node: n }) is None,
        mark_failure(MarkStep::SaveBookmark) is None,
        mark_failure(MarkStep::RememberPlace) is None,
{
}

} // verus!
