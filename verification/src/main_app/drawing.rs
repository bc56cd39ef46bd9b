//! What is drawn in a frame, and where.
use vstd::prelude::*;
use vstd::string::*;

use crate::main_app::chapters::{extract_book_title, title_from_path};
use crate::main_app::state::{
    App, Effect, FocusedPanel, HighlightColor, MainPanel, PopupWindow, Rect,
};
use crate::text;
use crate::text::option_view;

verus! {

// ---------------------------------------------------------------------------------------------
// Layout
// ---------------------------------------------------------------------------------------------
/// Which way an area is split.
#[derive(Clone, Copy, Debug, PartialEq, Eq, Structural)]
pub enum Direction {
    Horizontal,
    Vertical,
}

/// How large a part of a split area is.
#[derive(Clone, Copy, Debug, PartialEq, Eq, Structural)]
pub enum Constraint {
    Min(u16),
    Length(u16),
}

/// The smaller of two numbers.
pub open spec fn least(a: u16, b: u16) -> u16 {
    if a < b {
        a
    } else {
        b
    }
}

/// An area without the lowest `n` rows, and those rows.
pub open spec fn cut_bottom(area: Rect, n: u16) -> (Rect, Rect) {
    let low = least(n, area.height);
    (
        Rect { height: (area.height - low) as u16, ..area },
        Rect { y: (area.y + area.height - low) as u16, height: low, ..area },
    )
}

/// The leftmost `n` columns of an area, and the area without them.
pub open spec fn cut_left(area: Rect, n: u16) -> (Rect, Rect) {
    let left = least(n, area.width);
    (
        Rect { width: left, ..area },
        Rect { x: (area.x + left) as u16, width: (area.width - left) as u16, ..area },
    )
}

/// Whether an area lies within the coordinates that there are.
pub open spec fn fits(area: Rect) -> bool {
    area.x + area.width <= u16::MAX && area.y + area.height <= u16::MAX
}

/// `ratatui::layout::Layout::split` gives a part of fixed length that length, or all there is where
/// there is less, and the part of a least length the rest: rows from top to bottom, columns from
/// left to right. Only two such parts of an area are asked for here.
#[verifier::external_body]
fn split(area: Rect, direction: Direction, constraints: &Vec<Constraint>) -> (r: Vec<Rect>)
    requires
        fits(area),
        constraints@.len() == 2,
        match direction {
            Direction::Vertical => constraints@[0] == Constraint::Min(0) && constraints@[1] is Length,
            Direction::Horizontal => constraints@[0] is Length && constraints@[1]
                == Constraint::Min(0),
        },
    ensures
        r@ == match direction {
            Direction::Vertical => seq![
                cut_bottom(area, constraints@[1]->Length_0).0,
                cut_bottom(area, constraints@[1]->Length_0).1,
            ],
            Direction::Horizontal => seq![
                cut_left(area, constraints@[0]->Length_0).0,
                cut_left(area, constraints@[0]->Length_0).1,
            ],
        },
{
    let whole = ratatui::layout::Rect::new(area.x, area.y, area.width, area.height);
    let towards = match direction {
        Direction::Horizontal => ratatui::layout::Direction::Horizontal,
        Direction::Vertical => ratatui::layout::Direction::Vertical,
    };
    let sizes = constraints.iter().map(|c| match c {
        Constraint::Min(n) => ratatui::layout::Constraint::Min(*n),
        Constraint::Length(n) => ratatui::layout::Constraint::Length(*n),
    });
    let parts = ratatui::layout::Layout::default().direction(towards).constraints(sizes).split(whole);
    parts.iter().map(|p| Rect { x: p.x, y: p.y, width: p.width, height: p.height }).collect()
}

/// Where the parts of the view stand outside zen mode.
#[derive(Clone, Copy, Debug, PartialEq, Eq, Structural)]
pub struct Parts {
    pub navigation: Rect,
    pub content: Rect,
    pub help_bar: Rect,
}

/// Where the parts of the view stand in an area: the bar takes three rows at the bottom, the
/// navigation panel its columns at the left, and the text the rest.
pub open spec fn parts_of(area: Rect, nav_width: u16) -> Parts {
    let (main, help_bar) = cut_bottom(area, 3);
    let (navigation, content) = cut_left(main, nav_width);
    Parts { navigation, content, help_bar }
}

fn find_parts(area: Rect, nav_width: u16) -> (r: Parts)
    requires
        fits(area),
    ensures
        r == parts_of(area, nav_width),
{
    let rows = split(
        area,
        Direction::Vertical,
        &vec![Constraint::Min(0), Constraint::Length(3)],
    );
    let columns = split(
        rows[0],
        Direction::Horizontal,
        &vec![Constraint::Length(nav_width), Constraint::Min(0)],
    );
    Parts { navigation: columns[0], content: columns[1], help_bar: rows[1] }
}

impl App {
    /// Where the navigation panel stands: nowhere in zen mode.
    pub open spec fn navigation_area(self) -> Rect {
        if self.zen_mode {
            Rect { x: 0, y: 0, width: 0, height: 0 }
        } else {
            parts_of(self.terminal_size, self.nav_width() as u16).navigation
        }
    }

    /// Where the navigation panel stands.
    pub fn get_navigation_panel_area(&self) -> (r: Rect)
        requires
            fits(self.terminal_size),
        ensures
            r == self.navigation_area(),
    {
        if self.zen_mode {
            return Rect { x: 0, y: 0, width: 0, height: 0 };
        }
        find_parts(self.terminal_size, self.nav_panel_width()).navigation
    }
}

// ---------------------------------------------------------------------------------------------
// Frames
// ---------------------------------------------------------------------------------------------
/// A thing that is drawn, in the order in which they cover each other.
#[derive(Clone, Copy, Debug, PartialEq, Eq, Structural)]
pub enum DrawOp {
    Background(Rect),
    Navigation { area: Rect, focused: bool },
    Pdf(Rect),
    Text { area: Rect, focused: bool, zen: bool, suppress_images: bool },
    /// What stands where no book is open.
    Placeholder { area: Rect, focused: bool },
    HelpBar(Rect),
    Palette { show_remove: bool, current: Option<HighlightColor> },
    /// The cells of a page made free to be drawn over.
    FreePage(Rect),
    /// A page covered, with what the terminal shows of it removed.
    CoverPage(Rect),
    /// What is drawn so far dimmed.
    Dim(Rect),
    Window(PopupWindow),
}

/// What is known when a frame is drawn.
#[derive(Clone, Copy, Debug, PartialEq, Eq, Structural)]
pub struct DrawFacts {
    /// Whether the text has scrolled by itself.
    pub auto_scrolled: bool,
    pub pdf_open: bool,
    /// Whether the terminal keeps the pictures of pages itself.
    pub pdf_kitty: bool,
    pub book_open: bool,
    /// Whether text is being selected by keys.
    pub visual_mode: bool,
}

/// The text of a book, a page of a document, or neither.
pub open spec fn draw_content(app: App, area: Rect, d: DrawFacts) -> DrawOp {
    let focused = app.main_panel_is(MainPanel::Content);
    if d.pdf_open {
        DrawOp::Pdf(area)
    } else if d.book_open {
        DrawOp::Text {
            area,
            focused: app.zen_mode || focused,
            zen: app.zen_mode,
            suppress_images: app.popup_active(),
        }
    } else {
        DrawOp::Placeholder { area, focused }
    }
}

/// Where the text stands.
pub open spec fn content_area(app: App, area: Rect) -> Rect {
    if app.zen_mode {
        area
    } else {
        parts_of(area, app.nav_width() as u16).content
    }
}

/// The panels: in zen mode only the text, else the navigation panel, the text and the bar.
pub open spec fn draw_panels(app: App, area: Rect, d: DrawFacts) -> Seq<DrawOp> {
    if app.zen_mode {
        seq![draw_content(app, area, d)]
    } else {
        let parts = parts_of(area, app.nav_width() as u16);
        seq![
            DrawOp::Navigation {
                area: parts.navigation,
                focused: app.main_panel_is(MainPanel::NavigationList),
            },
            draw_content(app, parts.content, d),
            DrawOp::HelpBar(parts.help_bar),
        ]
    }
}

/// The highlight palette, where it is open and the terminal is large enough for it.
pub open spec fn draw_palette(app: App, area: Rect, d: DrawFacts) -> Seq<DrawOp> {
    if app.pending_highlight_palette && (d.visual_mode || app.highlight_palette_target is Some)
        && area.width >= 12 && area.height >= 5 {
        seq![
            DrawOp::Palette {
                show_remove: app.highlight_palette_target is Some,
                current: match app.highlight_palette_target {
                    Some(t) => Some(t.color),
                    None => None,
                },
            },
        ]
    } else {
        Seq::empty()
    }
}

/// An area without its border.
pub open spec fn inner_area(area: Rect) -> Rect {
    Rect {
        x: if area.x < u16::MAX {
            (area.x + 1) as u16
        } else {
            u16::MAX
        },
        y: if area.y < u16::MAX {
            (area.y + 1) as u16
        } else {
            u16::MAX
        },
        width: if area.width >= 2 {
            (area.width - 2) as u16
        } else {
            0
        },
        height: if area.height >= 2 {
            (area.height - 2) as u16
        } else {
            0
        },
    }
}

/// A page under a window, which must not show through it.
pub open spec fn draw_page_cover(app: App, area: Rect, d: DrawFacts) -> Seq<DrawOp> {
    if app.popup_active() && d.pdf_open {
        let page = content_area(app, area);
        if d.pdf_kitty {
            seq![DrawOp::FreePage(page)]
        } else {
            seq![DrawOp::CoverPage(inner_area(page))]
        }
    } else {
        Seq::empty()
    }
}

/// A window over what is dimmed, where it exists.
pub open spec fn draw_window(app: App, area: Rect, w: PopupWindow) -> Seq<DrawOp> {
    if app.windows.has(w) {
        seq![DrawOp::Dim(area), DrawOp::Window(w)]
    } else {
        seq![DrawOp::Dim(area)]
    }
}

/// The windows: the reading history in focus below a picture, which is drawn as long as it exists,
/// and any other window in focus above it.
pub open spec fn draw_windows(app: App, area: Rect) -> Seq<DrawOp> {
    let below = if app.focused_panel == FocusedPanel::Popup(PopupWindow::ReadingHistory) {
        draw_window(app, area, PopupWindow::ReadingHistory)
    } else {
        Seq::empty()
    };
    let image = if app.windows.image_popup {
        draw_window(app, area, PopupWindow::ImagePopup)
    } else {
        Seq::empty()
    };
    let above = match app.focused_panel {
        FocusedPanel::Popup(w) => if w != PopupWindow::ReadingHistory && w
            != PopupWindow::ImagePopup {
            draw_window(app, area, w)
        } else {
            Seq::empty()
        },
        FocusedPanel::Main(_) => Seq::empty(),
    };
    below + image + above
}

/// All that is drawn in a frame.
pub open spec fn frame(app: App, area: Rect, d: DrawFacts) -> Seq<DrawOp> {
    seq![DrawOp::Background(area)] + draw_panels(app, area, d) + draw_palette(app, area, d)
        + draw_page_cover(app, area, d) + draw_windows(app, area)
}

/// The state after a frame: the size of the terminal is noted, and where the bar stands.
pub open spec fn after_frame(app: App, area: Rect) -> App {
    let sized = App { terminal_size: area, ..app };
    if app.zen_mode {
        sized
    } else {
        App { help_bar_area: parts_of(area, sized.nav_width() as u16).help_bar, ..sized }
    }
}

fn push_content(out: &mut Vec<DrawOp>, app: &App, area: Rect, d: &DrawFacts)
    ensures
        final(out)@ == old(out)@.push(draw_content(*app, area, *d)),
{
    let focused = app.is_main_panel(MainPanel::Content);
    if d.pdf_open {
        out.push(DrawOp::Pdf(area));
    } else if d.book_open {
        out.push(
            DrawOp::Text {
                area,
                focused: app.zen_mode || focused,
                zen: app.zen_mode,
                suppress_images: app.has_active_popup(),
            },
        );
    } else {
        out.push(DrawOp::Placeholder { area, focused });
    }
}

fn push_palette(out: &mut Vec<DrawOp>, app: &App, area: Rect, d: &DrawFacts)
    ensures
        final(out)@ == old(out)@ + draw_palette(*app, area, *d),
{
    if app.pending_highlight_palette && (d.visual_mode || app.highlight_palette_target.is_some())
        && area.width >= 12 && area.height >= 5 {
        let current = match app.highlight_palette_target {
            Some(t) => Some(t.color),
            None => None,
        };
        out.push(
            DrawOp::Palette { show_remove: app.highlight_palette_target.is_some(), current },
        );
    }
    assert(out@ =~= old(out)@ + draw_palette(*app, area, *d));
}

fn push_panels(out: &mut Vec<DrawOp>, app: &App, area: Rect, d: &DrawFacts)
    requires
        fits(area),
    ensures
        final(out)@ == old(out)@ + draw_panels(*app, area, *d),
{
    if app.zen_mode {
        push_content(out, app, area, d);
    } else {
        let parts = find_parts(area, app.nav_panel_width());
        let focused = app.is_main_panel(MainPanel::NavigationList);
        out.push(DrawOp::Navigation { area: parts.navigation, focused });
        push_content(out, app, parts.content, d);
        out.push(DrawOp::HelpBar(parts.help_bar));
    }
    assert(out@ =~= old(out)@ + draw_panels(*app, area, *d));
}

fn push_page_cover(out: &mut Vec<DrawOp>, app: &App, area: Rect, d: &DrawFacts)
    requires
        fits(area),
    ensures
        final(out)@ == old(out)@ + draw_page_cover(*app, area, *d),
{
    if app.has_active_popup() && d.pdf_open {
        let page = if app.zen_mode {
            area
        } else {
            find_parts(area, app.nav_panel_width()).content
        };
        if d.pdf_kitty {
            out.push(DrawOp::FreePage(page));
        } else {
            out.push(DrawOp::CoverPage(within_border(page)));
        }
    }
    assert(out@ =~= old(out)@ + draw_page_cover(*app, area, *d));
}

fn within_border(area: Rect) -> (r: Rect)
    ensures
        r == inner_area(area),
{
    Rect {
        x: area.x.saturating_add(1),
        y: area.y.saturating_add(1),
        width: area.width.saturating_sub(2),
        height: area.height.saturating_sub(2),
    }
}

fn push_window(out: &mut Vec<DrawOp>, app: &App, area: Rect, w: PopupWindow)
    ensures
        final(out)@ == old(out)@ + draw_window(*app, area, w),
{
    out.push(DrawOp::Dim(area));
    if app.windows.is_there(w) {
        out.push(DrawOp::Window(w));
    }
    assert(out@ =~= old(out)@ + draw_window(*app, area, w));
}

fn push_windows(out: &mut Vec<DrawOp>, app: &App, area: Rect)
    ensures
        final(out)@ == old(out)@ + draw_windows(*app, area),
{
    let ghost start = out@;
    let ghost none = Seq::<DrawOp>::empty();
    assert(start + none =~= start);
    if app.focused_panel == FocusedPanel::Popup(PopupWindow::ReadingHistory) {
        push_window(out, app, area, PopupWindow::ReadingHistory);
    }
    let ghost second = out@;
    assert(second + none =~= second);
    if app.windows.image_popup {
        push_window(out, app, area, PopupWindow::ImagePopup);
    }
    let ghost third = out@;
    assert(third + none =~= third);
    if let FocusedPanel::Popup(w) = app.focused_panel {
        if w != PopupWindow::ReadingHistory && w != PopupWindow::ImagePopup {
            push_window(out, app, area, w);
        }
    }
    assert(out@ =~= start + draw_windows(*app, area));
}

impl App {
    /// What is drawn in a frame of the given area, and what is to be done before it.
    pub fn draw(&mut self, area: Rect, d: &DrawFacts) -> (r: (Vec<Effect>, Vec<DrawOp>))
        requires
            fits(area),
        ensures
            *final(self) == after_frame(*old(self), area),
            r.0@ == (if d.auto_scrolled {
                seq![Effect::SaveBookmark { force: false }]
            } else {
                Seq::empty()
            }),
            r.1@ == frame((App { terminal_size: area, ..*old(self) }), area, *d),
    {
        let mut effects: Vec<Effect> = Vec::new();
        if d.auto_scrolled {
            effects.push(Effect::SaveBookmark { force: false });
        }
        assert(effects@ =~= (if d.auto_scrolled {
            seq![Effect::SaveBookmark { force: false }]
        } else {
            Seq::empty()
        }));
        self.terminal_size = area;
        let app = *self;
        let mut out: Vec<DrawOp> = Vec::new();
        out.push(DrawOp::Background(area));
        assert(out@ =~= seq![DrawOp::Background(area)]);
        push_panels(&mut out, &app, area, d);
        push_palette(&mut out, &app, area, d);
        push_page_cover(&mut out, &app, area, d);
        push_windows(&mut out, &app, area);
        if !self.zen_mode {
            self.help_bar_area = find_parts(area, self.nav_panel_width()).help_bar;
        }
        (effects, out)
    }
}

// ---------------------------------------------------------------------------------------------
// The title of the terminal
// ---------------------------------------------------------------------------------------------
/// The title of the terminal: the program, and the open book.
pub open spec fn terminal_title(book: Option<Seq<char>>, pdf: Option<Seq<char>>) -> Seq<char> {
    match (book, pdf) {
        (Some(path), _) => "bookokrat — "@ + title_from_path(path),
        (None, Some(path)) => "bookokrat — "@ + title_from_path(path),
        (None, None) => "bookokrat"@,
    }
}

fn titled(path: &str) -> (r: String)
    ensures
        r@ == "bookokrat — "@ + title_from_path(path@),
{
    let mut s = text::copy("bookokrat — ");
    let t = extract_book_title(path);
    s.append(t.as_str());
    s
}

/// The title of the terminal, by the file of the open book or else of the open document.
pub fn desired_terminal_title(book_file: &Option<String>, pdf_path: &Option<String>) -> (r: String)
    ensures
        r@ == terminal_title(option_view(*book_file), option_view(*pdf_path)),
{
    if let Some(path) = book_file {
        return titled(path.as_str());
    }
    if let Some(path) = pdf_path {
        return titled(path.as_str());
    }
    text::copy("bookokrat")
}

impl App {
    /// The title that the terminal is to be given; none where it has it already, in tests, or where
    /// the output is no terminal.
    pub fn sync_terminal_title(
        &self,
        is_terminal: bool,
        last: &Option<String>,
        book_file: &Option<String>,
        pdf_path: &Option<String>,
    ) -> (r: Option<String>)
        ensures
            ({
                let title = terminal_title(option_view(*book_file), option_view(*pdf_path));
                option_view(r) == (if self.test_mode || !is_terminal || option_view(*last) == Some(
                    title,
                ) {
                    None
                } else {
                    Some(title)
                })
            }),
    {
        if self.test_mode || !is_terminal {
            return None;
        }
        let title = desired_terminal_title(book_file, pdf_path);
        if let Some(shown) = last {
            if text::same(shown.as_str(), title.as_str()) {
                return None;
            }
        }
        Some(title)
    }
}

// ---------------------------------------------------------------------------------------------
// Laws
// ---------------------------------------------------------------------------------------------
/// The parts of the view cover the area and nothing else: rows and columns add up.
pub proof fn law_parts_cover_the_area(area: Rect, nav_width: u16)
    requires
        fits(area),
    ensures
        ({
            let p = parts_of(area, nav_width);
            &&& p.navigation.height == p.content.height
            &&& p.navigation.height + p.help_bar.height == area.height
            &&& p.navigation.width + p.content.width == area.width
            &&& p.help_bar.width == area.width
            &&& p.content.x == p.navigation.x + p.navigation.width
            &&& p.help_bar.y == p.navigation.y + p.navigation.height
            &&& p.navigation.x == area.x && p.navigation.y == area.y
        }),
{
}

/// In zen mode neither the navigation panel nor the bar is drawn.
pub proof fn law_zen_mode_shows_only_the_text(app: App, area: Rect, d: DrawFacts, i: int)
    requires
        app.zen_mode,
        0 <= i < frame(app, area, d).len(),
    ensures
        !(frame(app, area, d)[i] is Navigation),
        !(frame(app, area, d)[i] is HelpBar),
{
    let a = seq![DrawOp::Background(area)];
    let b = draw_panels(app, area, d);
    let c = draw_palette(app, area, d);
    let e = draw_page_cover(app, area, d);
    let w = draw_windows(app, area);
    lemma_windows_are_windows(app, area);
    let op = frame(app, area, d)[i];
    assert(a.contains(op) || b.contains(op) || c.contains(op) || e.contains(op) || w.contains(op))
        by {
        if i < 1 {
            assert(a[0] == op);
        } else if i < 1 + b.len() {
            assert(b[i - 1] == op);
        } else if i < 1 + b.len() + c.len() {
            assert(c[i - 1 - b.len()] == op);
        } else if i < 1 + b.len() + c.len() + e.len() {
            assert(e[i - 1 - b.len() - c.len()] == op);
        } else {
            assert(w[i - 1 - b.len() - c.len() - e.len()] == op);
        }
    }
}

proof fn lemma_windows_are_windows(app: App, area: Rect)
    ensures
        forall|op: DrawOp|
            draw_windows(app, area).contains(op) ==> op is Dim || op is Window,
{
    assert forall|op: DrawOp| draw_windows(app, area).contains(op) implies op is Dim || op is Window by {
        let w = draw_windows(app, area);
        let i = choose|i: int| 0 <= i < w.len() && w[i] == op;
        assert(w[i] == op);
    }
}

/// The window in focus is drawn last, over everything else.
pub proof fn law_window_in_focus_is_on_top(app: App, area: Rect, d: DrawFacts, w: PopupWindow)
    requires
        app.wf(),
        app.focused_panel == FocusedPanel::Popup(w),
        w != PopupWindow::ReadingHistory || !app.windows.image_popup,
    ensures
        frame(app, area, d).last() == DrawOp::Window(w),
{
    let win = draw_windows(app, area);
    assert(win.last() == DrawOp::Window(w));
    assert(frame(app, area, d).last() == win.last());
}

/// A frame leaves the focus and the windows as they are.
pub proof fn law_drawing_changes_only_the_layout(app: App, area: Rect)
    ensures
        after_frame(app, area) == (App {
            terminal_size: area,
            help_bar_area: after_frame(app, area).help_bar_area,
            ..app
        }),
        app.zen_mode ==> after_frame(app, area).help_bar_area == app.help_bar_area,
{
}

} // verus!
