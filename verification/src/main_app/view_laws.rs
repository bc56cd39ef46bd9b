//! What is drawn where, and what the bar below the view says.
use vstd::prelude::*;
use vstd::string::*;

use crate::main_app::drawing::{
    after_frame, content_area, draw_content, draw_page_cover, draw_palette, draw_windows, fits, frame,
    parts_of, terminal_title, DrawFacts, DrawOp,
};
use crate::main_app::help_bar::{
    all_buttons, button_under, buttons_start, drawn_buttons, filled_in, help_line, key_label,
    label_from, left_side, on_button, paired, panel_pieces, search_line, selection_pieces, span_of,
    total_span, width_of, HelpFacts, HelpPiece, KeyLabel, SearchShown, ShownNotice,
};
use crate::main_app::state::{
    Action, App, FocusedPanel, HighlightTarget, KeyContext, MainPanel, NotificationLevel, PopupWindow,
    Rect, SearchMode,
};
use crate::paths_laws::{below, dotted, is_extension, is_stem, law_stem_and_extension};
use crate::text;
use crate::text::{begins, decimal};

verus! {

// ---------------------------------------------------------------------------------------------
// Frames
// ---------------------------------------------------------------------------------------------
/// The bar has three rows at the bottom, and the navigation panel its width, as far as there is room; the
/// text gets the rest, or all in zen mode.
pub proof fn law_room_of_the_parts(app: App, area: Rect, width: u16)
    requires
        fits(area),
    ensures
        ({
            let p = parts_of(area, width);
            &&& area.height >= 3 ==> p.help_bar.height == 3 && p.help_bar.y == area.y + area.height - 3
            &&& area.height < 3 ==> p.help_bar.height == area.height && p.content.height == 0
            &&& area.width >= width ==> p.navigation.width == width && p.content.x == area.x + width
            &&& area.width < width ==> p.navigation.width == area.width && p.content.width == 0
            &&& p.help_bar.x == area.x
            &&& p.content.y == area.y
        }),
        app.zen_mode ==> content_area(app, area) == area,
        app.zen_mode ==> app.navigation_area() == (Rect { x: 0, y: 0, width: 0, height: 0 }),
        !app.zen_mode ==> app.navigation_area() == parts_of(
            app.terminal_size,
            app.nav_width() as u16,
        ).navigation,
        !app.zen_mode ==> content_area(app, area) == parts_of(area, app.nav_width() as u16).content,
{
}

/// A document is shown before a book, a book where there is one, and else what stands in its place; what
/// has the focus is marked, and pictures in the text are left out under a window.
pub proof fn law_what_the_text_shows(app: App, area: Rect, d: DrawFacts)
    ensures
        ({
            let text = app.focused_panel == FocusedPanel::Main(MainPanel::Content);
            let open = DrawFacts { pdf_open: false, book_open: true, ..d };
            let none = DrawFacts { pdf_open: false, book_open: false, ..d };
            &&& draw_content(app, area, DrawFacts { pdf_open: true, ..d }) == DrawOp::Pdf(area)
            &&& draw_content(app, area, open) == (DrawOp::Text {
                area,
                focused: app.zen_mode || text,
                zen: app.zen_mode,
                suppress_images: app.focused_panel is Popup,
            })
            &&& draw_content(app, area, none) == (DrawOp::Placeholder { area, focused: text })
        }),
{
}

/// A frame begins with the background; outside zen mode the navigation panel, the text and the bar follow,
/// each in its place, and in zen mode the text alone.
pub proof fn law_order_of_a_frame(app: App, area: Rect, d: DrawFacts)
    ensures
        ({
            let f = frame(app, area, d);
            let p = parts_of(area, app.nav_width() as u16);
            &&& f[0] == DrawOp::Background(area)
            &&& !app.zen_mode ==> f[1] == (DrawOp::Navigation {
                area: p.navigation,
                focused: app.focused_panel == FocusedPanel::Main(MainPanel::NavigationList),
            })
            &&& !app.zen_mode ==> f[2] == draw_content(app, p.content, d)
            &&& !app.zen_mode ==> f[3] == DrawOp::HelpBar(p.help_bar)
            &&& app.zen_mode ==> f[1] == draw_content(app, area, d)
        }),
{
}

/// The palette is drawn where it is open for a selection or a highlight and has room; it offers to remove
/// only what is there.
pub proof fn law_palette_is_drawn(app: App, area: Rect, d: DrawFacts, target: HighlightTarget)
    ensures
        ({
            let of = |a: App| draw_palette(a, area, d);
            let room = area.width >= 12 && area.height >= 5;
            let editing = App {
                pending_highlight_palette: true,
                highlight_palette_target: Some(target),
                ..app
            };
            let fresh = App { pending_highlight_palette: true, highlight_palette_target: None, ..app };
            &&& room ==> of(editing) =~= seq![
                DrawOp::Palette { show_remove: true, current: Some(target.color) },
            ]
            &&& room && d.visual_mode ==> of(fresh) =~= seq![
                DrawOp::Palette { show_remove: false, current: None },
            ]
            &&& !d.visual_mode ==> of(fresh).len() == 0
            &&& !room ==> of(editing).len() == 0
            &&& of(App { pending_highlight_palette: false, ..editing }).len() == 0
        }),
{
}

/// A page under a window is covered within its border, or made free where the terminal keeps its picture;
/// one without a window over it is not.
pub proof fn law_pages_are_covered(app: App, area: Rect, d: DrawFacts)
    ensures
        ({
            let page = content_area(app, area);
            let kitty = DrawFacts { pdf_open: true, pdf_kitty: true, ..d };
            let plain = DrawFacts { pdf_open: true, pdf_kitty: false, ..d };
            let under = app.focused_panel is Popup;
            let within = Rect {
                x: (page.x + 1) as u16,
                y: (page.y + 1) as u16,
                width: (page.width - 2) as u16,
                height: (page.height - 2) as u16,
            };
            &&& under ==> draw_page_cover(app, area, kitty) =~= seq![DrawOp::FreePage(page)]
            &&& under && page.x < u16::MAX && page.y < u16::MAX && page.width >= 2 && page.height >= 2
                ==> draw_page_cover(app, area, plain) =~= seq![DrawOp::CoverPage(within)]
            &&& !under ==> draw_page_cover(app, area, kitty).len() == 0
            &&& draw_page_cover(app, area, DrawFacts { pdf_open: false, ..d }).len() == 0
        }),
{
}

/// A window in focus is drawn over what is dimmed; without a window nothing is dimmed.
pub proof fn law_windows_are_drawn(app: App, area: Rect, w: PopupWindow)
    requires
        !app.windows.image_popup,
    ensures
        app.focused_panel is Main ==> draw_windows(app, area).len() == 0,
        app.focused_panel == FocusedPanel::Popup(w) && app.windows.has(w) ==> draw_windows(app, area)
            =~= seq![DrawOp::Dim(area), DrawOp::Window(w)],
{
}

/// A picture that is open lies above the reading history and below other windows.
pub proof fn law_pictures_are_drawn(app: App, area: Rect, w: PopupWindow)
    requires
        app.windows.image_popup,
        app.windows.has(w),
    ensures
        ({
            let shown = draw_windows(app, area);
            let dim = DrawOp::Dim(area);
            let image = DrawOp::Window(PopupWindow::ImagePopup);
            let own = DrawOp::Window(w);
            &&& app.focused_panel is Main ==> shown =~= seq![dim, image]
            &&& app.focused_panel == FocusedPanel::Popup(PopupWindow::ImagePopup) ==> shown =~= seq![
                dim,
                image,
            ]
            &&& app.focused_panel == FocusedPanel::Popup(w) && w == PopupWindow::ReadingHistory ==> shown
                =~= seq![dim, own, dim, image]
            &&& app.focused_panel == FocusedPanel::Popup(w) && w != PopupWindow::ReadingHistory && w
                != PopupWindow::ImagePopup ==> shown =~= seq![dim, image, dim, own]
        }),
{
}

/// After a frame the size of the terminal is known, and the bar is where it was drawn.
pub proof fn law_frame_is_noted(app: App, area: Rect)
    requires
        fits(area),
        area.height >= 3,
        !app.zen_mode,
    ensures
        after_frame(app, area).terminal_size == area,
        after_frame(app, area).help_bar_area == (Rect {
            x: area.x,
            y: (area.y + area.height - 3) as u16,
            width: area.width,
            height: 3,
        }),
{
}

/// The title of the terminal names the program and the file that is read.
pub proof fn law_title_names_the_book(
    dir: Seq<char>,
    stem: Seq<char>,
    ext: Seq<char>,
    pdf: Option<Seq<char>>,
)
    requires
        is_stem(stem),
        is_extension(ext),
    ensures
        ({
            let path = below(dir, dotted(stem, ext));
            &&& terminal_title(Some(path), pdf) == "bookokrat — "@ + stem
            &&& terminal_title(None, Some(path)) == "bookokrat — "@ + stem
            &&& terminal_title(None, None) == "bookokrat"@
        }),
{
    let plain = seq!['a'];
    assert(plain[0] == 'a' && plain.len() == 1);
    assert(seq!['.'][0] == '.' && seq!['.', '.'].len() == 2);
    law_stem_and_extension(dir, stem, ext, plain);
}

// ---------------------------------------------------------------------------------------------
// The bar
// ---------------------------------------------------------------------------------------------
/// The key that is shown for an action is the first that is bound to it in its context, and a question mark
/// where none is.
pub proof fn law_key_of_an_action(
    labels: Seq<KeyLabel>,
    context: KeyContext,
    action: Action,
    i: int,
)
    requires
        0 <= i <= labels.len(),
    ensures
        ({
            let bound = |k: int| labels[k].context == context && labels[k].action == action;
            let none = forall|k: int| #![trigger labels[k]] i <= k < labels.len() ==> !bound(k);
            &&& none ==> label_from(labels, context, action, i) == "?"@
            &&& !none ==> exists|k: int|
                #![trigger labels[k]]
                i <= k < labels.len() && bound(k) && label_from(labels, context, action, i)
                    == labels[k].label@ && (forall|j: int|
                    #![trigger labels[j]]
                    i <= j < k ==> !bound(j))
        }),
        key_label(labels, context, action) == label_from(labels, context, action, 0),
    decreases labels.len() - i,
{
    let bound = |k: int| labels[k].context == context && labels[k].action == action;
    if i < labels.len() {
        law_key_of_an_action(labels, context, action, i + 1);
        if bound(i) {
            assert(labels[i].label@ == label_from(labels, context, action, i));
        } else if exists|k: int| #![trigger labels[k]] i + 1 <= k < labels.len() && bound(k) {
            let k = choose|k: int|
                #![trigger labels[k]]
                i + 1 <= k < labels.len() && bound(k) && label_from(labels, context, action, i + 1)
                    == labels[k].label@ && (forall|j: int|
                    #![trigger labels[j]]
                    i + 1 <= j < k ==> !bound(j));
            assert(i <= k < labels.len() && bound(k));
            assert(label_from(labels, context, action, i) == labels[k].label@);
        }
    }
}

/// Two keys are shown with a slash between them, and what is held down with both is named once.
pub proof fn law_pairs_of_keys(held: Seq<char>, a: Seq<char>, b: Seq<char>)
    requires
        !a.contains('+'),
    ensures
        paired(held + seq!['+'] + a, held + seq!['+'] + b) == held + seq!['+'] + a + "/"@ + b,
        paired(a, b) == a + "/"@ + b,
{
    let k1 = held + seq!['+'] + a;
    let k2 = held + seq!['+'] + b;
    text::lemma_last_index_before(k1, '+', k1.len() as int);
    text::lemma_last_index_before(a, '+', a.len() as int);
    let at = text::last_index_before(k1, '+', k1.len() as int);
    assert(k1[held.len() as int] == '+');
    if at > held.len() {
        assert(a[at - held.len() - 1] == '+');
    }
    assert(at == held.len());
    assert(k1.take(at + 1) =~= held + seq!['+']);
    assert(k2.subrange(0, at + 1) =~= held + seq!['+']);
    assert(k2.skip(at + 1) =~= b);
    let own = text::last_index_before(a, '+', a.len() as int);
    if own >= 0 {
        assert(a[own] == '+');
    }
}

/// A message is shown with its level and the key that dismisses it, before a search, a selection and the
/// keys of the panel, in that order; the frames per second come last.
pub proof fn law_what_the_bar_says(
    panel: FocusedPanel,
    notice: ShownNotice,
    search: SearchShown,
    labels: Seq<KeyLabel>,
    fps: u16,
    facts: HelpFacts,
)
    ensures
        ({
            let cancel = key_label(labels, KeyContext::Navigation, Action::Cancel);
            let told = |level: NotificationLevel|
                help_line(
                    panel,
                    HelpFacts { notice: Some(ShownNotice { level, ..notice }), ..facts },
                    labels,
                );
            let quiet = HelpFacts { notice: None, search: None, has_selection: false, fps: None };
            &&& told(NotificationLevel::Info) == "["@ + "INFO"@ + "] "@ + notice.message@ + " | "@
                + cancel + ": Dismiss"@
            &&& told(NotificationLevel::Warning) == "["@ + "WARNING"@ + "] "@ + notice.message@ + " | "@
                + cancel + ": Dismiss"@
            &&& told(NotificationLevel::Error) == "["@ + "ERROR"@ + "] "@ + notice.message@ + " | "@
                + cancel + ": Dismiss"@
            &&& help_line(panel, HelpFacts { search: Some(search), ..quiet }, labels) == search_line(
                search,
                labels,
            )
            &&& help_line(
                panel,
                HelpFacts { search: Some(search), has_selection: true, ..quiet },
                labels,
            ) == search_line(search, labels)
            &&& help_line(panel, HelpFacts { has_selection: true, ..quiet }, labels) == filled_in(
                selection_pieces(),
                6,
                labels,
            )
            &&& help_line(panel, quiet, labels) == filled_in(
                panel_pieces(panel),
                panel_pieces(panel).len(),
                labels,
            )
            &&& left_side(panel, HelpFacts { fps: Some(fps), ..facts }, labels) == help_line(
                panel,
                facts,
                labels,
            ) + " | FPS: "@ + decimal(fps as nat)
            &&& left_side(panel, HelpFacts { fps: None, ..facts }, labels) == help_line(
                panel,
                facts,
                labels,
            )
        }),
{
    let quiet = HelpFacts { notice: None, search: None, has_selection: false, fps: None };
    let with = HelpFacts { fps: Some(fps), ..facts };
    assert(help_line(panel, with, labels) == help_line(panel, facts, labels));
    assert(help_line(panel, HelpFacts { fps: None, ..facts }, labels) == help_line(
        panel,
        facts,
        labels,
    ));
}

/// What is said of a search: while it is typed the query and how many matches it has, then which of them is
/// shown.
pub proof fn law_what_is_said_of_a_search(search: SearchShown, labels: Seq<KeyLabel>, n: usize)
    ensures
        ({
            let cancel = key_label(labels, KeyContext::Navigation, Action::Cancel);
            let next = key_label(labels, KeyContext::PopupHelp, Action::NextSearchMatch);
            let previous = key_label(labels, KeyContext::PopupHelp, Action::PrevSearchMatch);
            let typed = SearchShown { mode: SearchMode::InputMode, matches: n, ..search };
            let found = SearchShown { mode: SearchMode::NavigationMode, ..search };
            let start = "/ "@ + search.query@ + "█  "@;
            let end = "  "@ + cancel + ": Cancel | Enter: Search"@;
            &&& n > 0 ==> search_line(typed, labels) =~= start + (decimal(n as nat) + " matches"@) + end
            &&& n == 0 && search.query@.len() > 0 ==> search_line(typed, labels) =~= start
                + "No matches"@ + end
            &&& n == 0 && search.query@.len() == 0 ==> search_line(typed, labels) =~= start + ""@ + end
            &&& search_line(found, labels) =~= "/"@ + search.query@ + "  "@ + search.match_info@ + "  "@
                + next + "/"@ + previous + ": Navigate | "@ + cancel + ": Exit"@
        }),
{
}

/// What is said of a selection and of the two panels.
pub proof fn law_what_is_said_of_the_panels(labels: Seq<KeyLabel>)
    ensures
        ({
            let epub = |a: Action| key_label(labels, KeyContext::EpubContent, a);
            let nav = |a: Action| key_label(labels, KeyContext::Navigation, a);
            let both = |a: Action, b: Action| paired(epub(a), epub(b));
            let text = panel_pieces(FocusedPanel::Main(MainPanel::Content));
            let list = panel_pieces(FocusedPanel::Main(MainPanel::NavigationList));
            &&& filled_in(selection_pieces(), 6, labels) =~= epub(Action::AddComment)
                + ": Add comment | "@ + epub(Action::CopySelection) + ": Copy to clipboard | "@ + nav(
                Action::Cancel,
            ) + ": Clear selection"@
            &&& text.len() == 12
            &&& filled_in(text, 12, labels) =~= both(Action::ScrollDown, Action::ScrollUp)
                + ": Scroll | "@ + both(Action::PrevChapter, Action::NextChapter) + ": Chapter | "@
                + both(Action::ScrollHalfDown, Action::ScrollHalfUp) + ": Half-screen | "@ + epub(
                Action::SwitchFocus,
            ) + ": Switch | "@ + key_label(labels, KeyContext::Global, Action::OpenExternalViewer)
                + ": Open | "@ + epub(Action::Quit) + ": Quit"@
            &&& list.len() == 16
            &&& filled_in(list, 16, labels) =~= nav(Action::MoveDown) + "/"@ + nav(Action::MoveUp)
                + ": Navigate | "@ + nav(Action::Select) + ": Select | "@ + nav(Action::Collapse) + "/"@
                + nav(Action::Expand) + ": Fold/Unfold | "@ + nav(Action::CollapseAll) + "/"@ + nav(
                Action::ExpandAll,
            ) + ": Fold/Unfold All | "@ + nav(Action::SwitchFocus) + ": Switch | q: Quit"@
        }),
{
    reveal_with_fuel(filled_in, 17);
}

/// The bar says of each window how it is closed.
pub proof fn law_windows_say_how_they_close(w: PopupWindow)
    requires
        w != PopupWindow::BookSearch,
    ensures
        ({
            let pieces = panel_pieces(FocusedPanel::Popup(w));
            let words = if w == PopupWindow::ImagePopup {
                "/Any key: Close"
            } else if w == PopupWindow::MarksList {
                "/'/`: Close"
            } else {
                ": Close"
            };
            &&& pieces.last() == HelpPiece::Words(words)
            &&& pieces[pieces.len() - 2] == HelpPiece::Key(KeyContext::Navigation, Action::Cancel)
        }),
{
}

/// The five buttons, from left to right, with their keys.
pub proof fn law_buttons_of_the_bar(labels: Seq<KeyLabel>)
    ensures
        ({
            let key = |a: Action| key_label(labels, KeyContext::Global, a);
            all_buttons(labels) =~= seq![
                (key(Action::ToggleCommentsViewer) + ": Comments"@, Action::ToggleCommentsViewer),
                (key(Action::ToggleReadingHistory) + ": History"@, Action::ToggleReadingHistory),
                (key(Action::ToggleBookStats) + ": Stats"@, Action::ToggleBookStats),
                (key(Action::OpenThemeSelector) + ": Theme"@, Action::OpenThemeSelector),
                (key(Action::ToggleHelp) + ": Help"@, Action::ToggleHelp),
            ]
        }),
{
}

/// The buttons are drawn in their order, each underlined in brackets of its own, with a space behind each
/// but the last.
pub proof fn law_buttons_are_drawn(buttons: Seq<(Seq<char>, Action)>, n: nat, i: int)
    requires
        0 <= i < n <= buttons.len(),
    ensures
        drawn_buttons(buttons, n).len() == 3 * n,
        drawn_buttons(buttons, n)[3 * i] == ("["@, false),
        drawn_buttons(buttons, n)[3 * i + 1] == (buttons[i].0, true),
        i + 1 < buttons.len() ==> drawn_buttons(buttons, n)[3 * i + 2] == ("] "@, false),
        i + 1 == buttons.len() ==> drawn_buttons(buttons, n)[3 * i + 2] == ("]"@, false),
    decreases n,
{
    if i < n - 1 {
        law_buttons_are_drawn(buttons, (n - 1) as nat, i);
    } else {
        lemma_drawn_length(buttons, (n - 1) as nat);
    }
}

proof fn lemma_drawn_length(buttons: Seq<(Seq<char>, Action)>, n: nat)
    requires
        n <= buttons.len(),
    ensures
        drawn_buttons(buttons, n).len() == 3 * n,
    decreases n,
{
    if n > 0 {
        lemma_drawn_length(buttons, (n - 1) as nat);
    }
}

/// A click finds a button where it is drawn: the labels follow each other at three cells' distance, and the
/// bracket behind the last one stands at the right edge where there is room.
pub proof fn law_buttons_are_where_they_are_drawn(
    buttons: Seq<(Seq<char>, Action)>,
    i: int,
    width: int,
    cell: int,
)
    requires
        0 <= i < buttons.len(),
    ensures
        i + 1 < buttons.len() ==> (on_button(buttons, i + 1, width, cell) <==> 0 <= cell - (
        buttons_start(buttons, width) + span_of(buttons, i as nat) + 1 + width_of(buttons[i]) + 3)
            < width_of(buttons[i + 1])),
        i + 1 == buttons.len() && width > total_span(buttons) ==> (on_button(buttons, i, width, cell)
            <==> width - 1 - width_of(buttons[i]) <= cell < width - 1),
        width <= total_span(buttons) ==> (on_button(buttons, 0, width, cell) <==> 1 <= cell < 1
            + width_of(buttons[0])),
{
}

/// Only the first line within the bar, and its upper border, have buttons.
pub proof fn law_lower_lines_have_no_buttons(
    area: Rect,
    buttons: Seq<(Seq<char>, Action)>,
    x: u16,
    y: u16,
)
    requires
        y > area.y + 1,
    ensures
        button_under(area, buttons, x, y) is None,
{
}

} // verus!
