//! Following links, jumping through the history of places and to marks.
use vstd::prelude::*;
use vstd::string::*;

use crate::main_app::chapters::{chapter_of_file, find_chapter_by_filename, TocItem};
use crate::main_app::opening::{
    navigate_to_chapter, navigate_to_chapter_inner, navigation, ChapterCursor, Navigation,
};
use crate::main_app::state::Notice;
use crate::paths;
use crate::text;
use crate::text::option_view;

verus! {

// ---------------------------------------------------------------------------------------------
// Links
// ---------------------------------------------------------------------------------------------
/// Where a link leads.
#[derive(Clone, Copy, Debug, PartialEq, Eq, Structural)]
pub enum LinkType {
    External,
    InternalAnchor,
    InternalChapter,
}

/// A link of the text.
pub struct LinkInfo {
    pub link_type: LinkType,
    pub target_chapter: Option<String>,
    pub has_anchor: bool,
}

/// What following a link comes to.
#[derive(Clone, Copy, Debug, PartialEq, Eq, Structural)]
pub enum LinkAction {
    OpenImage,
    OpenExternal,
    ScrollToAnchor,
    /// The chapter of the file that the link names, and its anchor there.
    GoToFile,
    /// Nothing is left to do; whether the link was followed.
    Nothing { followed: bool },
}

/// How a link is followed.
#[derive(Clone, Copy, Debug, PartialEq, Eq, Structural)]
pub struct LinkPlan {
    /// How often the place is put on the jump list before.
    pub remembered: u8,
    pub action: LinkAction,
}

/// The name of a file by which chapters are compared.
pub open spec fn file_of(path: Seq<char>) -> Seq<char> {
    match paths::name_of(path) {
        Some(n) => n,
        None => path,
    }
}

/// Whether a link leads to the chapter that is shown.
pub open spec fn same_chapter(current: Option<Seq<char>>, target: Seq<char>) -> bool {
    match current {
        Some(c) => file_of(c) == file_of(target),
        None => false,
    }
}

/// How a link is followed. A link to a picture opens it; one that stays in the book is remembered,
/// twice where it stays in the chapter.
pub open spec fn link_plan(
    link: LinkInfo,
    is_image: bool,
    book_open: bool,
    current_file: Option<Seq<char>>,
) -> LinkPlan {
    let once: u8 = if book_open {
        1
    } else {
        0
    };
    let twice: u8 = if book_open {
        2
    } else {
        0
    };
    if is_image {
        LinkPlan { remembered: 0, action: LinkAction::OpenImage }
    } else {
        match link.link_type {
            LinkType::External => LinkPlan { remembered: 0, action: LinkAction::OpenExternal },
            LinkType::InternalAnchor => LinkPlan {
                remembered: twice,
                action: if link.has_anchor {
                    LinkAction::ScrollToAnchor
                } else {
                    LinkAction::Nothing { followed: false }
                },
            },
            LinkType::InternalChapter => match option_view(link.target_chapter) {
                None => LinkPlan {
                    remembered: once,
                    action: LinkAction::Nothing { followed: false },
                },
                Some(file) => if same_chapter(current_file, file) {
                    LinkPlan {
                        remembered: twice,
                        action: if link.has_anchor {
                            LinkAction::ScrollToAnchor
                        } else {
                            LinkAction::Nothing { followed: true }
                        },
                    }
                } else {
                    LinkPlan { remembered: once, action: LinkAction::GoToFile }
                },
            },
        }
    }
}

fn name_or_path(path: &str) -> (r: String)
    ensures
        r@ == file_of(path@),
{
    let cs = text::chars_of(path);
    match paths::file_name(&cs) {
        Some(n) => text::string_of(&n),
        None => text::copy(path),
    }
}

/// How a link is followed.
pub fn handle_link_click(
    link: &LinkInfo,
    is_image: bool,
    book_open: bool,
    current_file: &Option<String>,
) -> (r: LinkPlan)
    ensures
        r == link_plan(*link, is_image, book_open, option_view(*current_file)),
{
    let once: u8 = if book_open {
        1
    } else {
        0
    };
    let twice: u8 = if book_open {
        2
    } else {
        0
    };
    if is_image {
        return LinkPlan { remembered: 0, action: LinkAction::OpenImage };
    }
    match link.link_type {
        LinkType::External => LinkPlan { remembered: 0, action: LinkAction::OpenExternal },
        LinkType::InternalAnchor => LinkPlan {
            remembered: twice,
            action: if link.has_anchor {
                LinkAction::ScrollToAnchor
            } else {
                LinkAction::Nothing { followed: false }
            },
        },
        LinkType::InternalChapter => {
            match &link.target_chapter {
                None => LinkPlan {
                    remembered: once,
                    action: LinkAction::Nothing { followed: false },
                },
                Some(file) => {
                    let same = match current_file {
                        Some(c) => {
                            let a = name_or_path(c.as_str());
                            let b = name_or_path(file.as_str());
                            text::same(a.as_str(), b.as_str())
                        },
                        None => false,
                    };
                    if same {
                        LinkPlan {
                            remembered: twice,
                            action: if link.has_anchor {
                                LinkAction::ScrollToAnchor
                            } else {
                                LinkAction::Nothing { followed: true }
                            },
                        }
                    } else {
                        LinkPlan { remembered: once, action: LinkAction::GoToFile }
                    }
                },
            }
        },
    }
}

/// How a move to the chapter of a file goes; none where no chapter has that file.
pub fn navigate_to_chapter_by_file(
    toc: &Option<Vec<TocItem>>,
    chapter_file: &str,
    spine: &Vec<Option<String>>,
    book: Option<ChapterCursor>,
) -> (r: Option<Navigation>)
    ensures
        ({
            let found = chapter_of_file(
                match toc {
                    Some(items) => Some(items@),
                    None => None,
                },
                chapter_file@,
                spine@,
            );
            match found {
                Some(k) => r == Some(navigation(book, k as usize, false)),
                None => r is None,
            }
        }),
{
    match find_chapter_by_filename(toc, chapter_file, spine) {
        Some(k) => Some(navigate_to_chapter(book, k)),
        None => None,
    }
}

/// A link that leaves the book, or opens a picture, leaves the jump list as it is.
pub proof fn law_leaving_links_are_not_remembered(
    link: LinkInfo,
    is_image: bool,
    book_open: bool,
    current_file: Option<Seq<char>>,
)
    requires
        is_image || link.link_type == LinkType::External,
    ensures
        link_plan(link, is_image, book_open, current_file).remembered == 0,
{
}

// ---------------------------------------------------------------------------------------------
// Places of the history
// ---------------------------------------------------------------------------------------------
/// What is to be done next on the way to a place.
#[derive(Clone, Copy, Debug)]
pub enum JumpStep {
    /// Its book is loaded, without regard to its bookmark.
    Load,
    /// Its chapter is gone to. The jump list stays as it is.
    Navigate(Navigation),
    /// Its node is scrolled to, and the place is kept.
    Restore,
}

/// What is to be done next on the way to a chapter of a book.
pub open spec fn jump_step(
    open_path: Option<Seq<char>>,
    book: Option<ChapterCursor>,
    path: Seq<char>,
    chapter: usize,
) -> JumpStep {
    if open_path != Some(path) {
        JumpStep::Load
    } else if book matches Some(b) && b.current == chapter {
        JumpStep::Restore
    } else {
        JumpStep::Navigate(navigation(book, chapter, true))
    }
}

/// What is to be done next on the way to a place: called again after each step that succeeded.
pub fn jump_to_location(
    open_path: &Option<String>,
    book: Option<ChapterCursor>,
    path: &str,
    chapter: usize,
) -> (r: JumpStep)
    ensures
        r == jump_step(option_view(*open_path), book, path@, chapter),
{
    let same = match open_path {
        Some(p) => text::same(p.as_str(), path),
        None => false,
    };
    if !same {
        return JumpStep::Load;
    }
    let there = match book {
        Some(b) => b.current == chapter,
        None => false,
    };
    if there {
        JumpStep::Restore
    } else {
        JumpStep::Navigate(navigate_to_chapter_inner(book, chapter, true))
    }
}

/// A jump ends after at most two steps that succeeded: once its book is loaded and its chapter gone
/// to, only its node is left.
pub proof fn law_jump_arrives(
    open_path: Option<Seq<char>>,
    book: Option<ChapterCursor>,
    loaded: ChapterCursor,
    path: Seq<char>,
    chapter: usize,
)
    ensures
        jump_step(open_path, book, path, chapter) is Load ==> !(jump_step(
            Some(path),
            Some(loaded),
            path,
            chapter,
        ) is Load),
        jump_step(open_path, book, path, chapter) is Navigate ==> jump_step(
            open_path,
            Some(ChapterCursor { current: chapter, ..loaded }),
            path,
            chapter,
        ) is Restore,
{
}

/// Jumping through the history does not write it: the place that is left is not remembered.
pub proof fn law_jumps_are_not_remembered(
    open_path: Option<Seq<char>>,
    book: Option<ChapterCursor>,
    path: Seq<char>,
    chapter: usize,
)
    ensures
        jump_step(open_path, book, path, chapter) matches JumpStep::Navigate(n) ==> !n.remember,
{
}

// ---------------------------------------------------------------------------------------------
// Marks
// ---------------------------------------------------------------------------------------------
/// A place that was marked.
#[derive(Clone, Copy, Debug, PartialEq, Eq, Structural)]
pub enum MarkLocation {
    Epub { chapter: usize, node: usize, node_offset: Option<usize> },
    Pdf { page: usize, scroll_offset: u32, line: Option<usize> },
}

/// A step of a jump to a mark. The steps are taken in order, up to the first that fails.
#[derive(Clone, Copy, Debug, PartialEq, Eq, Structural)]
pub enum MarkStep {
    Tell(Notice),
    RememberPlace,
    Navigate { to_chapter: usize },
    OpenAtChapter { at_chapter: usize },
    OpenAtPage { at_page: usize },
    RestoreNode { node: usize },
    RestorePosition { of_node: usize, offset: usize },
    SaveBookmark,
    FlashNode { node: usize },
    FlashPosition { of_node: usize, offset: usize },
    ApplyPdf { page: usize, scroll_offset: u32, line: Option<usize> },
}

/// What is told where a step fails.
pub open spec fn mark_failure(step: MarkStep) -> Option<Notice> {
    match step {
        MarkStep::Navigate { .. } => Some(Notice::JumpToMarkFailed),
        MarkStep::OpenAtChapter { .. } => Some(Notice::OpenPathFailed),
        MarkStep::OpenAtPage { .. } => Some(Notice::OpenPathFailed),
        _ => None,
    }
}

/// The place within a chapter is shown: scrolled to, kept and flashed.
pub open spec fn show_mark(node: usize, node_offset: Option<usize>) -> Seq<MarkStep> {
    match node_offset {
        Some(offset) => seq![
            MarkStep::RestorePosition { of_node: node, offset },
            MarkStep::SaveBookmark,
            MarkStep::FlashPosition { of_node: node, offset },
        ],
        None => seq![
            MarkStep::RestoreNode { node },
            MarkStep::SaveBookmark,
            MarkStep::FlashNode { node },
        ],
    }
}

/// The steps of a jump to a mark. `same_book` says that the mark is in the open book.
pub open spec fn mark_steps(
    mark: MarkLocation,
    path_exists: bool,
    same_book: bool,
    open_chapter: Option<usize>,
) -> Seq<MarkStep> {
    if !path_exists {
        seq![MarkStep::Tell(Notice::BookGone)]
    } else {
        match mark {
            MarkLocation::Epub { chapter, node, node_offset } => {
                let way = if same_book {
                    if open_chapter != Some(chapter) {
                        seq![MarkStep::RememberPlace, MarkStep::Navigate { to_chapter: chapter }]
                    } else {
                        seq![MarkStep::RememberPlace]
                    }
                } else {
                    seq![MarkStep::OpenAtChapter { at_chapter: chapter }]
                };
                way + show_mark(node, node_offset)
            },
            MarkLocation::Pdf { page, scroll_offset, line } => {
                let way = if same_book {
                    Seq::empty()
                } else {
                    seq![MarkStep::OpenAtPage { at_page: page }]
                };
                way + seq![MarkStep::ApplyPdf { page, scroll_offset, line }]
            },
        }
    }
}

/// What is told where a step fails.
pub fn mark_step_failure(step: MarkStep) -> (r: Option<Notice>)
    ensures
        r == mark_failure(step),
{
    match step {
        MarkStep::Navigate { .. } => Some(Notice::JumpToMarkFailed),
        MarkStep::OpenAtChapter { .. } => Some(Notice::OpenPathFailed),
        MarkStep::OpenAtPage { .. } => Some(Notice::OpenPathFailed),
        _ => None,
    }
}

/// The steps of a jump to a mark.
pub fn jump_to_mark(
    mark: MarkLocation,
    path_exists: bool,
    same_book: bool,
    open_chapter: Option<usize>,
) -> (r: Vec<MarkStep>)
    ensures
        r@ == mark_steps(mark, path_exists, same_book, open_chapter),
{
    let mut r: Vec<MarkStep> = Vec::new();
    if !path_exists {
        r.push(MarkStep::Tell(Notice::BookGone));
        assert(r@ =~= mark_steps(mark, path_exists, same_book, open_chapter));
        return r;
    }
    match mark {
        MarkLocation::Epub { chapter, node, node_offset } => {
            if same_book {
                r.push(MarkStep::RememberPlace);
                let there = match open_chapter {
                    Some(c) => c == chapter,
                    None => false,
                };
                if !there {
                    r.push(MarkStep::Navigate { to_chapter: chapter });
                }
            } else {
                r.push(MarkStep::OpenAtChapter { at_chapter: chapter });
            }
            match node_offset {
                Some(offset) => {
                    r.push(MarkStep::RestorePosition { of_node: node, offset });
                    r.push(MarkStep::SaveBookmark);
                    r.push(MarkStep::FlashPosition { of_node: node, offset });
                },
                None => {
                    r.push(MarkStep::RestoreNode { node });
                    r.push(MarkStep::SaveBookmark);
                    r.push(MarkStep::FlashNode { node });
                },
            }
        },
        MarkLocation::Pdf { page, scroll_offset, line } => {
            if !same_book {
                r.push(MarkStep::OpenAtPage { at_page: page });
            }
            r.push(MarkStep::ApplyPdf { page, scroll_offset, line });
        },
    }
    assert(r@ =~= mark_steps(mark, path_exists, same_book, open_chapter));
    r
}

/// A jump to a mark of a book that is gone only tells so.
pub proof fn law_gone_book_is_only_told(
    mark: MarkLocation,
    same_book: bool,
    open_chapter: Option<usize>,
)
    ensures
        mark_steps(mark, false, same_book, open_chapter) == seq![MarkStep::Tell(Notice::BookGone)],
{
}

// ---------------------------------------------------------------------------------------------
// The book that marks belong to
// ---------------------------------------------------------------------------------------------
/// The book whose marks are meant: the open book, else the open document.
pub fn current_book_path_for_marks(epub: &Option<String>, pdf: &Option<String>) -> (r: Option<
    String,
>)
    ensures
        text::option_view(r) == (if epub is Some {
            text::option_view(*epub)
        } else {
            text::option_view(*pdf)
        }),
{
    match epub {
        Some(path) => Some(text::copy(path.as_str())),
        None => match pdf {
            Some(name) => Some(text::copy(name.as_str())),
            None => None,
        },
    }
}

/// The book whose table of contents is remembered: the open document, else the open book.
pub fn persist_toc_expansion_state(epub: &Option<String>, pdf: &Option<String>) -> (r: Option<
    String,
>)
    ensures
        text::option_view(r) == (if pdf is Some {
            text::option_view(*pdf)
        } else {
            text::option_view(*epub)
        }),
{
    match pdf {
        Some(name) => Some(text::copy(name.as_str())),
        None => match epub {
            Some(path) => Some(text::copy(path.as_str())),
            None => None,
        },
    }
}

} // verus!
