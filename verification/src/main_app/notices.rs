//! The wording of messages.
use vstd::prelude::*;
use vstd::string::*;

use crate::main_app::state::{Hud, Notice};
use crate::text;

verus! {

/// The wording of a message; `detail` is what it is about and `cause` why it came to it, where it
/// says so.
pub open spec fn wording(notice: Notice, detail: Seq<char>, cause: Seq<char>) -> Seq<char> {
    match notice {
        Notice::AnnotationRemoved => "Annotation removed"@,
        Notice::AnnotationDeleted => "Annotation deleted"@,
        Notice::AnnotationsDeleted => "Annotations deleted"@,
        Notice::DeleteAnnotationFailed => "Failed to delete annotation: "@ + cause,
        Notice::DeleteCommentFailed => "Failed to delete comment: "@ + cause,
        Notice::NavigateToChapterFailed => "Failed to navigate to chapter: "@ + cause,
        Notice::NavigateToCommentFailed => "Failed to navigate to comment: "@ + cause,
        Notice::StatisticsFailed => "Failed to calculate statistics: "@ + cause,
        Notice::OpenBookFailed => "Failed to open book: "@ + cause,
        Notice::OpenPathFailed => "Failed to open '"@ + detail + "': "@ + cause,
        Notice::SourceBookmarksFailed => "Failed to load source library bookmarks: "@ + cause,
        Notice::AutoLoadFailed => "Failed to auto-load recent book: "@ + cause,
        Notice::LoadEpubFailed => "Failed to load EPUB: "@ + cause,
        Notice::JumpToMarkFailed => "Failed to jump to mark: "@ + cause,
        Notice::JumpBackFailed => "Failed to jump back: "@ + cause,
        Notice::JumpForwardFailed => "Failed to jump forward: "@ + cause,
        Notice::BookGone => "Book no longer exists: "@ + detail,
        Notice::ChapterNotFound => "Chapter not found in book"@,
        Notice::CannotDeleteOpenBook => "Cannot delete bookmark for the currently open book"@,
        Notice::KeybindingsReloaded => "Keybindings reloaded."@,
        Notice::ExportedComments => "Exported to "@ + detail,
        Notice::ExportFailed => "Failed to export: "@ + cause,
        Notice::ExtractingPage => "Extracting current page text..."@,
        Notice::TocFirst => "Space+C: Navigate to TOC first (Tab to switch)"@,
        Notice::JustifyOn => "Text justification: on"@,
        Notice::JustifyOff => "Text justification: off"@,
        Notice::WatchingPdfOnly => "Watching is only supported for PDF files"@,
        Notice::ColumnLayout => "Column layout: "@ + detail,
        Notice::PageLayout => "Page layout: "@ + detail,
        Notice::RenderMode => "Render mode: "@ + detail,
        Notice::ScrollModeUnsupported => "Scroll mode is only supported in Kitty terminal"@,
        Notice::NoTextSelected => "No text selected. Select text first, then press Space+l."@,
        Notice::Theme => "Theme: "@ + detail,
        Notice::SortedByName => "Sort: by name"@,
        Notice::SortedByType => "Sort: by type"@,
        Notice::SetLocalMark(c) => "Set mark '"@ + seq![c] + "'"@,
        Notice::LocalMarkRefused(c) => "Could not set mark '"@ + seq![c] + "': no bookmark entry."@,
        Notice::SetGlobalMark(c) => "Set global mark '"@ + seq![c] + "'"@,
        Notice::NoBookForMark => "No book is open; cannot set a mark."@,
        Notice::NoBookOpen => "No book is open."@,
        Notice::NoLocalMark(c) => "No mark '"@ + seq![c] + "' in this book."@,
        Notice::NoGlobalMark(c) => "No global mark '"@ + seq![c] + "'."@,
        Notice::OpenedExternally => "Opened in external viewer"@,
        Notice::OpenExternallyFailed => "Failed to open in external viewer: "@ + cause,
        Notice::NoPdfLoaded => "No PDF file currently loaded"@,
        Notice::NoEpubLoaded => "No EPUB file currently loaded"@,
        Notice::PdfBlocked => cause,
        Notice::NoLookupCommand => "No lookup command configured. Set lookup_command in settings (Space+s)."@,
        Notice::NoLookupText => "No text selected"@,
        Notice::LookupLaunched => "Launched: "@ + detail,
        Notice::LookupNotLaunched => "Failed to launch command: "@ + cause,
        Notice::NoTocItem => "No TOC item selected"@,
        Notice::NoTocPages => "No pages found for this TOC item"@,
    }
}

fn told(what: &str, of: &str) -> (r: String)
    ensures
        r@ == what@ + of@,
{
    let mut s = text::copy(what);
    s.append(of);
    s
}

fn around(before: &str, c: char, after: &str) -> (r: String)
    ensures
        r@ == before@ + seq![c] + after@,
{
    let mut s = text::copy(before);
    s.push(c);
    assert(s@ =~= before@ + seq![c]);
    s.append(after);
    s
}

/// The wording of a message.
pub fn notice_text(notice: Notice, detail: &str, cause: &str) -> (r: String)
    ensures
        r@ == wording(notice, detail@, cause@),
{
    match notice {
        Notice::AnnotationRemoved => text::copy("Annotation removed"),
        Notice::AnnotationDeleted => text::copy("Annotation deleted"),
        Notice::AnnotationsDeleted => text::copy("Annotations deleted"),
        Notice::DeleteAnnotationFailed => told("Failed to delete annotation: ", cause),
        Notice::DeleteCommentFailed => told("Failed to delete comment: ", cause),
        Notice::NavigateToChapterFailed => told("Failed to navigate to chapter: ", cause),
        Notice::NavigateToCommentFailed => told("Failed to navigate to comment: ", cause),
        Notice::StatisticsFailed => told("Failed to calculate statistics: ", cause),
        Notice::OpenBookFailed => told("Failed to open book: ", cause),
        Notice::OpenPathFailed => {
            let mut s = told("Failed to open '", detail);
            s.append("': ");
            s.append(cause);
            s
        },
        Notice::SourceBookmarksFailed => told("Failed to load source library bookmarks: ", cause),
        Notice::AutoLoadFailed => told("Failed to auto-load recent book: ", cause),
        Notice::LoadEpubFailed => told("Failed to load EPUB: ", cause),
        Notice::JumpToMarkFailed => told("Failed to jump to mark: ", cause),
        Notice::JumpBackFailed => told("Failed to jump back: ", cause),
        Notice::JumpForwardFailed => told("Failed to jump forward: ", cause),
        Notice::BookGone => told("Book no longer exists: ", detail),
        Notice::ChapterNotFound => text::copy("Chapter not found in book"),
        Notice::CannotDeleteOpenBook => text::copy("Cannot delete bookmark for the currently open book"),
        Notice::KeybindingsReloaded => text::copy("Keybindings reloaded."),
        Notice::ExportedComments => told("Exported to ", detail),
        Notice::ExportFailed => told("Failed to export: ", cause),
        Notice::ExtractingPage => text::copy("Extracting current page text..."),
        Notice::TocFirst => text::copy("Space+C: Navigate to TOC first (Tab to switch)"),
        Notice::JustifyOn => text::copy("Text justification: on"),
        Notice::JustifyOff => text::copy("Text justification: off"),
        Notice::WatchingPdfOnly => text::copy("Watching is only supported for PDF files"),
        Notice::ColumnLayout => told("Column layout: ", detail),
        Notice::PageLayout => told("Page layout: ", detail),
        Notice::RenderMode => told("Render mode: ", detail),
        Notice::ScrollModeUnsupported => text::copy("Scroll mode is only supported in Kitty terminal"),
        Notice::NoTextSelected => text::copy("No text selected. Select text first, then press Space+l."),
        Notice::Theme => told("Theme: ", detail),
        Notice::SortedByName => text::copy("Sort: by name"),
        Notice::SortedByType => text::copy("Sort: by type"),
        Notice::SetLocalMark(c) => around("Set mark '", c, "'"),
        Notice::LocalMarkRefused(c) => around("Could not set mark '", c, "': no bookmark entry."),
        Notice::SetGlobalMark(c) => around("Set global mark '", c, "'"),
        Notice::NoBookForMark => text::copy("No book is open; cannot set a mark."),
        Notice::NoBookOpen => text::copy("No book is open."),
        Notice::NoLocalMark(c) => around("No mark '", c, "' in this book."),
        Notice::NoGlobalMark(c) => around("No global mark '", c, "'."),
        Notice::OpenedExternally => text::copy("Opened in external viewer"),
        Notice::OpenExternallyFailed => told("Failed to open in external viewer: ", cause),
        Notice::NoPdfLoaded => text::copy("No PDF file currently loaded"),
        Notice::NoEpubLoaded => text::copy("No EPUB file currently loaded"),
        Notice::PdfBlocked => text::copy(cause),
        Notice::NoLookupCommand => text::copy(
            "No lookup command configured. Set lookup_command in settings (Space+s).",
        ),
        Notice::NoLookupText => text::copy("No text selected"),
        Notice::LookupLaunched => told("Launched: ", detail),
        Notice::LookupNotLaunched => told("Failed to launch command: ", cause),
        Notice::NoTocItem => text::copy("No TOC item selected"),
        Notice::NoTocPages => text::copy("No pages found for this TOC item"),
    }
}

/// The wording of a message of the reader's own display; those of the palette are its own.
pub open spec fn hud_wording(hud: Hud) -> Option<Seq<char>> {
    match hud {
        Hud::Palette => None,
        Hud::PaletteEdit => None,
        Hud::NoHighlightToRemove => Some("No highlight here to remove"@),
        Hud::UnknownColor => Some("Unknown highlight color"@),
        Hud::SelectTextFirst => Some(
            "Select text, or place the cursor on a highlight, then press H"@,
        ),
    }
}

/// The wording of a message of the reader's own display.
pub fn hud_text(hud: Hud) -> (r: Option<String>)
    ensures
        text::option_view(r) == hud_wording(hud),
{
    match hud {
        Hud::Palette => None,
        Hud::PaletteEdit => None,
        Hud::NoHighlightToRemove => Some(text::copy("No highlight here to remove")),
        Hud::UnknownColor => Some(text::copy("Unknown highlight color")),
        Hud::SelectTextFirst => Some(
            text::copy("Select text, or place the cursor on a highlight, then press H"),
        ),
    }
}

} // verus!
