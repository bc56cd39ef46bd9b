//! The path of a key: who gets it first, and what it does.
use vstd::prelude::*;

use crate::inputs::event::{KeyCode, KeyEvent, KeyModifiers};
use crate::main_app::epub_actions::{
    law_content_action_is_sound, law_normal_action_is_sound,
};
use crate::main_app::global_actions::law_global_action_keeps_focus_on_a_window;
use crate::main_app::state::{group_run_app, group_run_sound, lemma_emit_app, sound};
use crate::main_app::state::{
    App, AppAction, Effect, Facts, FocusedPanel, Hud, Lookup, MainPanel, Next, PaletteKey,
    PendingCharMotion, PendingMarkOp, PendingYank, PopupWindow, Question, Run, RunView, SearchIn,
    SearchMode, Task, Turn, VisualMode, YankObject,
};

verus! {

/// Whether a character is an ASCII letter.
pub open spec fn is_letter(c: char) -> bool {
    65 <= c as int <= 90 || 97 <= c as int <= 122
}

fn letter(c: char) -> (r: bool)
    ensures
        r == is_letter(c),
{
    let n: u32 = c as u32;
    (65 <= n && n <= 90) || (97 <= n && n <= 122)
}

/// Whether a character continues a count: a digit, and zero only behind another digit.
pub open spec fn is_count_digit(c: char, f: Facts) -> bool {
    48 <= c as int <= 57 && (c != '0' || f.pending_count)
}

fn count_digit(c: char, f: &Facts) -> (r: bool)
    ensures
        r == is_count_digit(c, *f),
{
    let n: u32 = c as u32;
    48 <= n && n <= 57 && (c != '0' || f.pending_count)
}

/// What a letter behind a yank still waits for.
pub open spec fn yank_prefix(ch: char) -> Option<PendingYank> {
    if ch == 'g' {
        Some(PendingYank::WaitingForG)
    } else if ch == 'i' {
        Some(PendingYank::WaitingForInnerObject)
    } else if ch == 'a' {
        Some(PendingYank::WaitingForAroundObject)
    } else if ch == 'f' {
        Some(PendingYank::WaitingForFindChar(PendingCharMotion::FindForward))
    } else if ch == 'F' {
        Some(PendingYank::WaitingForFindChar(PendingCharMotion::FindBackward))
    } else if ch == 't' {
        Some(PendingYank::WaitingForFindChar(PendingCharMotion::TillForward))
    } else if ch == 'T' {
        Some(PendingYank::WaitingForFindChar(PendingCharMotion::TillBackward))
    } else {
        None
    }
}

fn yank_prefix_of(ch: char) -> (r: Option<PendingYank>)
    ensures
        r == yank_prefix(ch),
{
    match ch {
        'g' => Some(PendingYank::WaitingForG),
        'i' => Some(PendingYank::WaitingForInnerObject),
        'a' => Some(PendingYank::WaitingForAroundObject),
        'f' => Some(PendingYank::WaitingForFindChar(PendingCharMotion::FindForward)),
        'F' => Some(PendingYank::WaitingForFindChar(PendingCharMotion::FindBackward)),
        't' => Some(PendingYank::WaitingForFindChar(PendingCharMotion::TillForward)),
        'T' => Some(PendingYank::WaitingForFindChar(PendingCharMotion::TillBackward)),
        _ => None,
    }
}

/// The text that a yank takes with a motion, and how often; `count` is the count typed.
pub open spec fn yank_motion(ch: char, count: usize) -> Option<(YankObject, usize)> {
    if ch == 'y' {
        Some((YankObject::Line, count))
    } else if ch == 'w' {
        Some((YankObject::WordForward, count))
    } else if ch == 'W' {
        Some((YankObject::BigWordForward, count))
    } else if ch == 'e' {
        Some((YankObject::WordEnd, count))
    } else if ch == 'b' {
        Some((YankObject::WordBackward, count))
    } else if ch == '$' {
        Some((YankObject::ToLineEnd, 1))
    } else if ch == '0' {
        Some((YankObject::ToLineStart, 1))
    } else if ch == '^' {
        Some((YankObject::ToFirstNonBlank, 1))
    } else if ch == '{' {
        Some((YankObject::ParagraphUp, count))
    } else if ch == '}' {
        Some((YankObject::ParagraphDown, count))
    } else if ch == 'G' {
        Some((YankObject::ToDocumentBottom, 1))
    } else {
        None
    }
}

fn yank_motion_of(ch: char, count: usize) -> (r: Option<(YankObject, usize)>)
    ensures
        r == yank_motion(ch, count),
{
    match ch {
        'y' => Some((YankObject::Line, count)),
        'w' => Some((YankObject::WordForward, count)),
        'W' => Some((YankObject::BigWordForward, count)),
        'e' => Some((YankObject::WordEnd, count)),
        'b' => Some((YankObject::WordBackward, count)),
        '$' => Some((YankObject::ToLineEnd, 1)),
        '0' => Some((YankObject::ToLineStart, 1)),
        '^' => Some((YankObject::ToFirstNonBlank, 1)),
        '{' => Some((YankObject::ParagraphUp, count)),
        '}' => Some((YankObject::ParagraphDown, count)),
        'G' => Some((YankObject::ToDocumentBottom, 1)),
        _ => None,
    }
}

/// The pair of brackets that a bracket belongs to.
pub open spec fn bracket_pair(ch: char) -> Option<(char, char)> {
    if ch == '(' || ch == ')' {
        Some(('(', ')'))
    } else if ch == '[' || ch == ']' {
        Some(('[', ']'))
    } else if ch == '{' || ch == '}' {
        Some(('{', '}'))
    } else if ch == '<' || ch == '>' {
        Some(('<', '>'))
    } else {
        None
    }
}

fn bracket_pair_of(ch: char) -> (r: Option<(char, char)>)
    ensures
        r == bracket_pair(ch),
{
    match ch {
        '(' | ')' => Some(('(', ')')),
        '[' | ']' => Some(('[', ']')),
        '{' | '}' => Some(('{', '}')),
        '<' | '>' => Some(('<', '>')),
        _ => None,
    }
}

/// The text object that a character names, without (`inner`) or with what surrounds it.
pub open spec fn text_object(ch: char, inner: bool, count: usize) -> Option<(YankObject, usize)> {
    if ch == 'w' {
        Some((if inner { YankObject::InnerWord } else { YankObject::AroundWord }, 1))
    } else if ch == 'W' {
        Some((if inner { YankObject::InnerBigWord } else { YankObject::AroundBigWord }, 1))
    } else if ch == 'p' {
        Some((if inner { YankObject::InnerParagraph } else { YankObject::AroundParagraph }, count))
    } else if ch == '"' || ch == '\'' || ch == '`' {
        Some((if inner { YankObject::InnerQuotes(ch) } else { YankObject::AroundQuotes(ch) }, 1))
    } else if let Some((open, close)) = bracket_pair(ch) {
        Some(
            (
                if inner {
                    YankObject::InnerBrackets(open, close)
                } else {
                    YankObject::AroundBrackets(open, close)
                },
                1,
            ),
        )
    } else {
        None
    }
}

fn text_object_of(ch: char, inner: bool, count: usize) -> (r: Option<(YankObject, usize)>)
    ensures
        r == text_object(ch, inner, count),
{
    match ch {
        'w' => if inner {
            Some((YankObject::InnerWord, 1))
        } else {
            Some((YankObject::AroundWord, 1))
        },
        'W' => if inner {
            Some((YankObject::InnerBigWord, 1))
        } else {
            Some((YankObject::AroundBigWord, 1))
        },
        'p' => if inner {
            Some((YankObject::InnerParagraph, count))
        } else {
            Some((YankObject::AroundParagraph, count))
        },
        '"' | '\'' | '`' => if inner {
            Some((YankObject::InnerQuotes(ch), 1))
        } else {
            Some((YankObject::AroundQuotes(ch), 1))
        },
        _ => match bracket_pair_of(ch) {
            Some((open, close)) => if inner {
                Some((YankObject::InnerBrackets(open, close), 1))
            } else {
                Some((YankObject::AroundBrackets(open, close), 1))
            },
            None => None,
        },
    }
}

impl RunView {
    // -- marks ----------------------------------------------------------------------------------
    /// No mark is waited for any more.
    #[verifier::opaque]
    pub open spec fn drop_mark(self) -> RunView {
        self.to(App { pending_mark_op: None, ..self.app })
    }

    /// The key behind a mark command, and whether there was one: a letter names the mark, the command
    /// doubled after a jump opens the list, any other key gives up.
    pub open spec fn pending_mark(self, key: KeyEvent) -> (RunView, bool) {
        match self.app.pending_mark_op {
            None => (self, false),
            Some(op) => {
                let r = self.drop_mark();
                if op == PendingMarkOp::Goto && (key.code == KeyCode::Char('`') || key.code
                    == KeyCode::Char('\'')) {
                    (r.open_marks(), true)
                } else {
                    match key.code {
                        KeyCode::Char(ch) => if is_letter(ch) {
                            match op {
                                PendingMarkOp::Assign => (
                                    r.emit(Effect::Perform(Task::SetMark(ch))),
                                    true,
                                ),
                                PendingMarkOp::Goto => (
                                    r.emit(Effect::Perform(Task::GotoMark(ch))),
                                    true,
                                ),
                            }
                        } else {
                            (r, true)
                        },
                        _ => (r, true),
                    }
                }
            },
        }
    }

    // -- windows --------------------------------------------------------------------------------
    /// A key in the window of keymap errors.
    pub open spec fn keybinding_errors_key(self, key: KeyEvent) -> RunView {
        let control = KeyModifiers { shift: false, alt: false, control: true };
        if !self.app.windows.keybinding_errors_popup {
            self
        } else if key.code == KeyCode::Esc || key.code == KeyCode::Char('q') {
            self.leave_window(PopupWindow::KeybindingErrors)
        } else if key.code == KeyCode::Char('j') || key.code == KeyCode::Down {
            self.emit(Effect::ScrollKeybindingErrors { down: true })
        } else if key.code == KeyCode::Char('k') || key.code == KeyCode::Up {
            self.emit(Effect::ScrollKeybindingErrors { down: false })
        } else if key.code == KeyCode::Char('d') && key.modifiers == control {
            self.emit(Effect::PageKeybindingErrors { down: true, lines: 20 })
        } else if key.code == KeyCode::Char('u') && key.modifiers == control {
            self.emit(Effect::PageKeybindingErrors { down: false, lines: 20 })
        } else {
            self
        }
    }

    // -- searching ------------------------------------------------------------------------------
    /// A key while a search query is typed.
    pub open spec fn search_key(self, key: KeyEvent, f: Facts) -> RunView {
        match key.code {
            KeyCode::Char(c) => self.type_search(f, c),
            KeyCode::Backspace => match f.search_place() {
                Some(place) => self.emit(Effect::SearchErase(place)),
                None => self,
            },
            KeyCode::Esc => self.cancel_search(f),
            KeyCode::Enter => match f.search_place() {
                Some(place) => self.emit(Effect::ConfirmSearch(place)),
                None => self,
            },
            _ => self,
        }
    }

    // -- the highlight palette ------------------------------------------------------------------
    /// The palette closed.
    #[verifier::opaque]
    pub open spec fn close_palette(self) -> RunView {
        self.to(
            App {
                pending_highlight_palette: false,
                highlight_palette_target: None,
                ..self.app
            },
        )
    }

    /// A key while the palette is open. The highlight's own colour takes it away; another colour
    /// replaces it under a selection and recolours it elsewhere.
    pub open spec fn palette_key(self, f: Facts) -> RunView {
        match f.palette_key {
            PaletteKey::ShowHelp => self.emit(
                Effect::ShowHud(
                    if self.app.highlight_palette_target is Some {
                        Hud::PaletteEdit
                    } else {
                        Hud::Palette
                    },
                ),
            ),
            PaletteKey::Cancel => self.close_palette().emit(Effect::ClearCount),
            PaletteKey::Apply(color) => {
                let r = self.close_palette();
                match self.app.highlight_palette_target {
                    Some(t) => if t.color == color {
                        r.emit(Effect::RemoveHighlight(t.highlight)).emit(Effect::ClearCount)
                    } else if f.visual_mode is Some {
                        r.emit(Effect::DeleteHighlight(t.highlight)).emit(
                            Effect::AddHighlight(color),
                        ).emit(Effect::ClearCount)
                    } else {
                        r.emit(Effect::RecolorHighlight(t.highlight, color)).emit(
                            Effect::ClearCount,
                        )
                    },
                    None => r.emit(Effect::AddHighlight(color)).emit(Effect::ClearCount),
                }
            },
            PaletteKey::Remove => {
                let r = self.close_palette();
                match self.app.highlight_palette_target {
                    Some(t) => r.emit(Effect::RemoveHighlight(t.highlight)).emit(
                        Effect::ClearCount,
                    ),
                    None => r.emit(Effect::ShowHud(Hud::NoHighlightToRemove)).emit(
                        Effect::ClearCount,
                    ),
                }
            },
            PaletteKey::UnknownKey => self.close_palette().emit(
                Effect::ShowHud(Hud::UnknownColor),
            ).emit(Effect::ClearCount),
        }
    }

    // -- normal mode ----------------------------------------------------------------------------
    /// The character that a find motion waits for.
    pub open spec fn find_key(self, key: KeyEvent, f: Facts) -> RunView {
        match key.code {
            KeyCode::Char(ch) => self.emit(Effect::TakeCount).emit(
                Effect::ExecutePendingFind { ch, times: f.count },
            ),
            _ => self.emit(Effect::ClearPendingMotion).emit(Effect::ClearCount),
        }
    }

    /// The key behind a yank.
    pub open spec fn yank_key(self, key: KeyEvent, f: Facts) -> RunView {
        match f.pending_yank {
            PendingYank::Idle => self,
            PendingYank::WaitingForMotion => match key.code {
                KeyCode::Char(ch) => match yank_prefix(ch) {
                    Some(pending) => self.emit(Effect::SetPendingYank(pending)),
                    None => match yank_motion(ch, f.count) {
                        Some((object, count)) => self.emit(Effect::TakeCount).emit(
                            Effect::Yank { object, count },
                        ),
                        None => self.emit(Effect::TakeCount).emit(Effect::ClearPendingYank).emit(
                            Effect::ClearCount,
                        ),
                    },
                },
                _ => self.emit(Effect::ClearPendingYank).emit(Effect::ClearCount),
            },
            PendingYank::WaitingForG => if key.code == KeyCode::Char('g') {
                self.emit(Effect::ClearCount).emit(
                    Effect::Yank { object: YankObject::ToDocumentTop, count: 1 },
                ).emit(Effect::ClearPendingYank)
            } else {
                self.emit(Effect::ClearCount).emit(Effect::ClearPendingYank)
            },
            PendingYank::WaitingForInnerObject => self.object_key(key, true, f),
            PendingYank::WaitingForAroundObject => self.object_key(key, false, f),
            PendingYank::WaitingForFindChar(motion) => match key.code {
                KeyCode::Char(ch) => self.emit(Effect::TakeCount).emit(
                    Effect::Yank { object: YankObject::FindChar(motion, ch), count: f.count },
                ).emit(Effect::ClearPendingYank),
                _ => self.emit(Effect::ClearCount).emit(Effect::ClearPendingYank),
            },
        }
    }

    /// The key that names the text object of a yank.
    pub open spec fn object_key(self, key: KeyEvent, inner: bool, f: Facts) -> RunView {
        match key.code {
            KeyCode::Char(ch) => match text_object(ch, inner, f.count) {
                Some((object, count)) => self.emit(Effect::TakeCount).emit(
                    Effect::Yank { object, count },
                ).emit(Effect::ClearPendingYank),
                None => self.emit(Effect::TakeCount).emit(Effect::ClearPendingYank),
            },
            _ => self.emit(Effect::ClearPendingYank),
        }
    }

    /// What the bindings of normal mode make of a key, and whether they took it.
    pub open spec fn common_motion(self, key: KeyEvent, f: Facts) -> (RunView, bool) {
        let pending = !f.key_sequence_empty && !self.cleared;
        let first = if pending {
            f.normal.sequence
        } else {
            f.normal.single
        };
        match first {
            Lookup::Found(action) => self.clear_keys().normal_action(action, f),
            Lookup::Prefix => (self.emit(Effect::PushKey(key)), true),
            Lookup::NoMatch => if pending {
                let r = self.clear_keys();
                match f.normal.single {
                    Lookup::Found(action) => r.normal_action(action, f),
                    Lookup::Prefix => (r.emit(Effect::PushKey(key)), true),
                    Lookup::NoMatch => (r, false),
                }
            } else {
                (self, false)
            },
        }
    }

    /// Whether an inner text object is to be selected next.
    #[verifier::opaque]
    pub open spec fn expect_inner(self, expected: bool) -> RunView {
        self.to(App { pending_visual_inner: expected, ..self.app })
    }

    /// Visual mode left.
    pub open spec fn leave_visual(self) -> RunView {
        self.close_palette().emit(Effect::ExitVisualMode).emit(Effect::ClearCount)
    }

    /// A key of visual mode that names no text object.
    pub open spec fn visual_command(self, key: KeyEvent, mode: VisualMode, f: Facts) -> RunView {
        if key.code == KeyCode::Char('i') {
            self.expect_inner(true)
        } else if key.code == KeyCode::Char('y') {
            self.emit(Effect::Yank { object: YankObject::Selection, count: 1 }).emit(
                Effect::ClearCount,
            )
        } else if key.code == KeyCode::Char('a') {
            self.emit(Effect::StartCommentInput).emit(Effect::ClearCount)
        } else if key.code == KeyCode::Esc {
            if f.text_search is Some {
                self.cancel_search(f)
            } else {
                self.leave_visual()
            }
        } else if key.code == KeyCode::Char('v') {
            if mode == VisualMode::CharacterWise {
                self.leave_visual()
            } else {
                self.emit(Effect::EnterVisualMode(VisualMode::CharacterWise)).emit(
                    Effect::ClearCount,
                )
            }
        } else if key.code == KeyCode::Char('V') {
            if mode == VisualMode::LineWise {
                self.leave_visual()
            } else {
                self.emit(Effect::EnterVisualMode(VisualMode::LineWise)).emit(Effect::ClearCount)
            }
        } else {
            let (r, handled) = self.common_motion(key, f);
            if handled {
                r
            } else {
                match key.code {
                    KeyCode::Char(ch) => if is_count_digit(ch, f) {
                        r.emit(Effect::AppendCountDigit(ch))
                    } else {
                        r
                    },
                    _ => r,
                }
            }
        }
    }

    /// A key of visual mode.
    pub open spec fn visual_key(self, key: KeyEvent, mode: VisualMode, f: Facts) -> RunView {
        if self.app.pending_highlight_palette {
            self.palette_key(f)
        } else if self.app.pending_visual_inner {
            let r = self.expect_inner(false);
            if key.code == KeyCode::Char('w') {
                r.emit(Effect::SelectInnerWord)
            } else if key.code == KeyCode::Char('W') {
                r.emit(Effect::SelectInnerBigWord)
            } else {
                r.visual_command(key, mode, f)
            }
        } else {
            self.visual_command(key, mode, f)
        }
    }

    /// A key of normal mode behind the count.
    pub open spec fn normal_command(self, key: KeyEvent, f: Facts) -> (RunView, Next) {
        let (r, handled) = self.common_motion(key, f);
        if handled {
            (r, Next::Done(None))
        } else if key.code == KeyCode::Enter {
            (r.emit(Effect::ClearCount).emit(Effect::FollowLink), Next::Done(None))
        } else if key.code == KeyCode::Char('v') {
            (
                r.emit(Effect::EnterVisualMode(VisualMode::CharacterWise)).emit(Effect::ClearCount),
                Next::Done(None),
            )
        } else if key.code == KeyCode::Char('V') {
            (
                r.emit(Effect::EnterVisualMode(VisualMode::LineWise)).emit(Effect::ClearCount),
                Next::Done(None),
            )
        } else if key.code == KeyCode::Char('y') {
            (r.emit(Effect::StartYank), Next::Done(None))
        } else if key.code == KeyCode::Char('n') {
            if f.text_search == Some(SearchMode::NavigationMode) {
                (r.emit(Effect::NextMatch), Next::Done(None))
            } else {
                (r.emit(Effect::ClearCount).emit(Effect::ToggleNormalMode), Next::Done(None))
            }
        } else if key.code == KeyCode::Esc {
            if f.text_search is Some {
                (r.cancel_search(f), Next::Done(None))
            } else {
                (r.emit(Effect::ClearCount).emit(Effect::ToggleNormalMode), Next::Done(None))
            }
        } else {
            r.content_key(key, f)
        }
    }

    /// A key of normal mode.
    pub open spec fn normal_key(self, key: KeyEvent, f: Facts) -> (RunView, Next) {
        let (g, taken) = self.global_hotkeys(key, f);
        let r = g.emit(Effect::ClearExpiredYankHighlight);
        if taken {
            (g, Next::Done(None))
        } else if f.pending_motion {
            (r.find_key(key, f), Next::Done(None))
        } else if f.pending_yank != PendingYank::Idle {
            (r.yank_key(key, f), Next::Done(None))
        } else {
            match f.visual_mode {
                Some(mode) => (r.visual_key(key, mode, f), Next::Done(None)),
                None => if r.app.pending_highlight_palette {
                    (r.palette_key(f), Next::Done(None))
                } else {
                    match key.code {
                        KeyCode::Char(ch) => if is_count_digit(ch, f) {
                            (r, Next::Ask(Question::CountDigit(ch)))
                        } else {
                            r.normal_command(key, f)
                        },
                        _ => r.normal_command(key, f),
                    }
                },
            }
        }
    }

    // -- the content ----------------------------------------------------------------------------
    /// `n` and `N` during a search of the text: the next or the previous match, or a typed letter.
    pub open spec fn match_key(self, key: KeyEvent, f: Facts) -> Option<RunView> {
        if !f.searching() {
            None
        } else if key.code == KeyCode::Char('n') {
            if f.navigation_search == Some(SearchMode::InputMode) {
                Some(self.type_search(f, 'n'))
            } else if f.text_search == Some(SearchMode::NavigationMode) {
                Some(self.emit(Effect::NextMatch))
            } else if f.text_search is Some {
                Some(self.type_search(f, 'n'))
            } else {
                None
            }
        } else if key.code == KeyCode::Char('N') {
            if f.navigation_search == Some(SearchMode::InputMode) {
                Some(self.type_search(f, 'N'))
            } else if f.text_search == Some(SearchMode::NavigationMode) {
                Some(self.emit(Effect::PreviousMatch))
            } else if f.text_search is Some {
                Some(self.type_search(f, 'N'))
            } else {
                None
            }
        } else {
            None
        }
    }

    /// What the bindings of the content make of a key.
    pub open spec fn bound_key(self, key: KeyEvent, f: Facts) -> (RunView, Next) {
        let pending = !f.key_sequence_empty && !self.cleared;
        let first = if pending {
            f.content.sequence
        } else {
            f.content.single
        };
        match first {
            Lookup::Found(action) => {
                let (r, asked) = self.clear_keys().content_action(action, f);
                (r, Next::Done(asked))
            },
            Lookup::Prefix => (self.emit(Effect::PushKey(key)), Next::Done(None)),
            Lookup::NoMatch => if pending {
                let r = self.clear_keys();
                match f.content.single {
                    Lookup::Found(action) => {
                        let (s, asked) = r.content_action(action, f);
                        (s, Next::Done(asked))
                    },
                    Lookup::Prefix => (r.emit(Effect::PushKey(key)), Next::Done(None)),
                    Lookup::NoMatch => (r, Next::Done(None)),
                }
            } else {
                (self, Next::Done(None))
            },
        }
    }

    /// A key that reaches the content: global bindings, then the matches of a search, then the
    /// content's own bindings.
    pub open spec fn content_key(self, key: KeyEvent, f: Facts) -> (RunView, Next) {
        let (r, taken) = self.global_hotkeys(key, f);
        if taken {
            (r, Next::Done(None))
        } else {
            match r.match_key(key, f) {
                Some(s) => (s, Next::Done(None)),
                None => r.bound_key(key, f),
            }
        }
    }

    /// A key that no window and no panel before the reader has taken.
    pub open spec fn reader_key(self, key: KeyEvent, f: Facts) -> (RunView, Next) {
        if self.app.main_panel_is(MainPanel::Content) && f.normal_mode {
            self.normal_key(key, f)
        } else {
            self.content_key(key, f)
        }
    }

    // -- the order ------------------------------------------------------------------------------
    /// The path of a key behind the comment editor: a mark that waits for its letter, the window in
    /// focus, a search being typed, the navigation panel, the reader.
    pub open spec fn routed_key(self, key: KeyEvent, f: Facts) -> (RunView, Next) {
        let (r, marked) = self.pending_mark(key);
        if marked {
            (r, Next::Done(None))
        } else {
            match self.app.focused_panel {
                FocusedPanel::Popup(w) => if w == PopupWindow::ImagePopup {
                    (self.drop_window(w).close_popup(), Next::Done(None))
                } else if w == PopupWindow::KeybindingErrors {
                    (self.keybinding_errors_key(key), Next::Done(None))
                } else {
                    (self, Next::Ask(Question::PopupKey(w)))
                },
                FocusedPanel::Main(panel) => if f.typing_search() {
                    (self.search_key(key, f), Next::Done(None))
                } else if panel == MainPanel::NavigationList {
                    let (g, taken) = self.global_hotkeys(key, f);
                    if taken {
                        (g, Next::Done(None))
                    } else {
                        (g, Next::Ask(Question::NavigationKey))
                    }
                } else {
                    self.reader_key(key, f)
                },
            }
        }
    }

    /// The path of a key.
    pub open spec fn key_event(self, key: KeyEvent, f: Facts) -> (RunView, Next) {
        let r = self.emit(Effect::DismissErrorHud);
        if f.comment_input_active {
            (r, Next::Ask(Question::CommentInput))
        } else {
            r.routed_key(key, f)
        }
    }

    /// The path of a key behind the navigation panel: `q` quits, Esc dismisses, and only a key that the
    /// panel passed by goes on.
    pub open spec fn key_behind_navigation(self, key: KeyEvent, bypass: bool, f: Facts) -> (
        RunView,
        Next,
    ) {
        if key.code == KeyCode::Char('q') {
            (self.emit(Effect::SaveBookmark { force: true }), Next::Done(Some(AppAction::Quit)))
        } else if key.code == KeyCode::Esc {
            if f.has_notification {
                (self.emit(Effect::DismissNotification), Next::Done(None))
            } else if f.searching() {
                (self.cancel_search(f), Next::Done(None))
            } else {
                (self, Next::Done(None))
            }
        } else if !bypass {
            (self, Next::Done(None))
        } else {
            self.reader_key(key, f)
        }
    }
}

impl Run {
    /// The key behind a mark command; false where none waits.
    pub(crate) fn handle_pending_mark_input(&mut self, key: KeyEvent) -> (r: bool)
        ensures
            (final(self)@, r) == old(self)@.pending_mark(key),
    {
        let op = match self.app.pending_mark_op {
            Some(op) => op,
            None => {
                return false;
            },
        };
        proof {
            reveal(RunView::drop_mark);
        }
        self.set_app(App { pending_mark_op: None, ..self.app });
        if op == PendingMarkOp::Goto && (key.code == KeyCode::Char('`') || key.code
            == KeyCode::Char('\'')) {
            self.open_marks_popup();
            return true;
        }
        match key.code {
            KeyCode::Char(ch) => {
                if letter(ch) {
                    match op {
                        PendingMarkOp::Assign => {
                            self.emit(Effect::Perform(Task::SetMark(ch)));
                        },
                        PendingMarkOp::Goto => {
                            self.emit(Effect::Perform(Task::GotoMark(ch)));
                        },
                    }
                }
            },
            _ => {},
        }
        true
    }

    fn handle_keybinding_errors_key(&mut self, key: KeyEvent)
        ensures
            final(self)@ == old(self)@.keybinding_errors_key(key),
    {
        let control = KeyModifiers::control();
        if !self.app.windows.keybinding_errors_popup {
            return ;
        }
        if key.code == KeyCode::Esc || key.code == KeyCode::Char('q') {
            self.leave_window(PopupWindow::KeybindingErrors);
        } else if key.code == KeyCode::Char('j') || key.code == KeyCode::Down {
            self.emit(Effect::ScrollKeybindingErrors { down: true });
        } else if key.code == KeyCode::Char('k') || key.code == KeyCode::Up {
            self.emit(Effect::ScrollKeybindingErrors { down: false });
        } else if key.code == KeyCode::Char('d') && key.modifiers == control {
            self.emit(Effect::PageKeybindingErrors { down: true, lines: 20 });
        } else if key.code == KeyCode::Char('u') && key.modifiers == control {
            self.emit(Effect::PageKeybindingErrors { down: false, lines: 20 });
        }
    }

    fn handle_search_key(&mut self, key: KeyEvent, f: &Facts)
        ensures
            final(self)@ == old(self)@.search_key(key, *f),
    {
        match key.code {
            KeyCode::Char(c) => {
                self.handle_search_input(f, c);
            },
            KeyCode::Backspace => {
                if f.navigation_search.is_some() {
                    self.emit(Effect::SearchErase(SearchIn::Navigation));
                } else if f.text_search.is_some() {
                    self.emit(Effect::SearchErase(SearchIn::Text));
                }
            },
            KeyCode::Esc => {
                self.cancel_current_search(f);
            },
            KeyCode::Enter => {
                if f.navigation_search.is_some() {
                    self.emit(Effect::ConfirmSearch(SearchIn::Navigation));
                } else if f.text_search.is_some() {
                    self.emit(Effect::ConfirmSearch(SearchIn::Text));
                }
            },
            _ => {},
        }
    }

    fn clear_highlight_palette(&mut self)
        ensures
            final(self)@ == old(self)@.close_palette(),
    {
        proof {
            reveal(RunView::close_palette);
        }
        self.set_app(
            App {
                pending_highlight_palette: false,
                highlight_palette_target: None,
                ..self.app
            },
        );
    }

    fn handle_highlight_palette_key(&mut self, f: &Facts)
        ensures
            final(self)@ == old(self)@.palette_key(*f),
    {
        let target = self.app.highlight_palette_target;
        match f.palette_key {
            PaletteKey::ShowHelp => {
                if target.is_some() {
                    self.emit(Effect::ShowHud(Hud::PaletteEdit));
                } else {
                    self.emit(Effect::ShowHud(Hud::Palette));
                }
            },
            PaletteKey::Cancel => {
                self.clear_highlight_palette();
                self.emit(Effect::ClearCount);
            },
            PaletteKey::Apply(color) => {
                self.clear_highlight_palette();
                match target {
                    Some(t) => {
                        if t.color == color {
                            self.emit(Effect::RemoveHighlight(t.highlight));
                        } else if f.visual_mode.is_some() {
                            self.emit(Effect::DeleteHighlight(t.highlight));
                            self.emit(Effect::AddHighlight(color));
                        } else {
                            self.emit(Effect::RecolorHighlight(t.highlight, color));
                        }
                    },
                    None => {
                        self.emit(Effect::AddHighlight(color));
                    },
                }
                self.emit(Effect::ClearCount);
            },
            PaletteKey::Remove => {
                self.clear_highlight_palette();
                match target {
                    Some(t) => {
                        self.emit(Effect::RemoveHighlight(t.highlight));
                    },
                    None => {
                        self.emit(Effect::ShowHud(Hud::NoHighlightToRemove));
                    },
                }
                self.emit(Effect::ClearCount);
            },
            PaletteKey::UnknownKey => {
                self.clear_highlight_palette();
                self.emit(Effect::ShowHud(Hud::UnknownColor));
                self.emit(Effect::ClearCount);
            },
        }
    }

    fn handle_pending_find_motion(&mut self, key: KeyEvent, f: &Facts)
        ensures
            final(self)@ == old(self)@.find_key(key, *f),
    {
        match key.code {
            KeyCode::Char(ch) => {
                self.emit(Effect::TakeCount);
                self.emit(Effect::ExecutePendingFind { ch, times: f.count });
            },
            _ => {
                self.emit(Effect::ClearPendingMotion);
                self.emit(Effect::ClearCount);
            },
        }
    }

    fn handle_object_key(&mut self, key: KeyEvent, inner: bool, f: &Facts)
        ensures
            final(self)@ == old(self)@.object_key(key, inner, *f),
    {
        match key.code {
            KeyCode::Char(ch) => {
                self.emit(Effect::TakeCount);
                if let Some((object, count)) = text_object_of(ch, inner, f.count) {
                    self.emit(Effect::Yank { object, count });
                }
            },
            _ => {},
        }
        self.emit(Effect::ClearPendingYank);
    }

    fn handle_pending_yank(&mut self, key: KeyEvent, f: &Facts)
        ensures
            final(self)@ == old(self)@.yank_key(key, *f),
    {
        match f.pending_yank {
            PendingYank::Idle => {},
            PendingYank::WaitingForMotion => {
                match key.code {
                    KeyCode::Char(ch) => {
                        match yank_prefix_of(ch) {
                            Some(pending) => {
                                self.emit(Effect::SetPendingYank(pending));
                            },
                            None => {
                                self.emit(Effect::TakeCount);
                                match yank_motion_of(ch, f.count) {
                                    Some((object, count)) => {
                                        self.emit(Effect::Yank { object, count });
                                    },
                                    None => {
                                        self.emit(Effect::ClearPendingYank);
                                        self.emit(Effect::ClearCount);
                                    },
                                }
                            },
                        }
                    },
                    _ => {
                        self.emit(Effect::ClearPendingYank);
                        self.emit(Effect::ClearCount);
                    },
                }
            },
            PendingYank::WaitingForG => {
                self.emit(Effect::ClearCount);
                if key.code == KeyCode::Char('g') {
                    self.emit(Effect::Yank { object: YankObject::ToDocumentTop, count: 1 });
                }
                self.emit(Effect::ClearPendingYank);
            },
            PendingYank::WaitingForInnerObject => {
                self.handle_object_key(key, true, f);
            },
            PendingYank::WaitingForAroundObject => {
                self.handle_object_key(key, false, f);
            },
            PendingYank::WaitingForFindChar(motion) => {
                match key.code {
                    KeyCode::Char(ch) => {
                        self.emit(Effect::TakeCount);
                        self.emit(
                            Effect::Yank {
                                object: YankObject::FindChar(motion, ch),
                                count: f.count,
                            },
                        );
                    },
                    _ => {
                        self.emit(Effect::ClearCount);
                    },
                }
                self.emit(Effect::ClearPendingYank);
            },
        }
    }

    /// Lets the bindings of normal mode have a key; false where they do not take it.
    fn handle_common_normal_mode_motions(&mut self, key: KeyEvent, f: &Facts) -> (r: bool)
        ensures
            (final(self)@, r) == old(self)@.common_motion(key, *f),
    {
        let pending = !f.key_sequence_empty && !self.cleared;
        let first = if pending {
            f.normal.sequence
        } else {
            f.normal.single
        };
        match first {
            Lookup::Found(action) => {
                self.clear_keys();
                self.dispatch_epub_normal_action(action, f)
            },
            Lookup::Prefix => {
                self.emit(Effect::PushKey(key));
                true
            },
            Lookup::NoMatch => {
                if pending {
                    self.clear_keys();
                    match f.normal.single {
                        Lookup::Found(action) => self.dispatch_epub_normal_action(action, f),
                        Lookup::Prefix => {
                            self.emit(Effect::PushKey(key));
                            true
                        },
                        Lookup::NoMatch => false,
                    }
                } else {
                    false
                }
            },
        }
    }

    fn expect_inner_object(&mut self, expected: bool)
        ensures
            final(self)@ == old(self)@.expect_inner(expected),
    {
        proof {
            reveal(RunView::expect_inner);
        }
        self.set_app(App { pending_visual_inner: expected, ..self.app });
    }

    fn leave_visual_mode(&mut self)
        ensures
            final(self)@ == old(self)@.leave_visual(),
    {
        self.clear_highlight_palette();
        self.emit(Effect::ExitVisualMode);
        self.emit(Effect::ClearCount);
    }

    fn handle_visual_command(&mut self, key: KeyEvent, mode: VisualMode, f: &Facts)
        ensures
            final(self)@ == old(self)@.visual_command(key, mode, *f),
    {
        if key.code == KeyCode::Char('i') {
            self.expect_inner_object(true);
        } else if key.code == KeyCode::Char('y') {
            self.emit(Effect::Yank { object: YankObject::Selection, count: 1 });
            self.emit(Effect::ClearCount);
        } else if key.code == KeyCode::Char('a') {
            self.emit(Effect::StartCommentInput);
            self.emit(Effect::ClearCount);
        } else if key.code == KeyCode::Esc {
            if f.text_search.is_some() {
                self.cancel_current_search(f);
            } else {
                self.leave_visual_mode();
            }
        } else if key.code == KeyCode::Char('v') {
            if mode == VisualMode::CharacterWise {
                self.leave_visual_mode();
            } else {
                self.emit(Effect::EnterVisualMode(VisualMode::CharacterWise));
                self.emit(Effect::ClearCount);
            }
        } else if key.code == KeyCode::Char('V') {
            if mode == VisualMode::LineWise {
                self.leave_visual_mode();
            } else {
                self.emit(Effect::EnterVisualMode(VisualMode::LineWise));
                self.emit(Effect::ClearCount);
            }
        } else {
            if !self.handle_common_normal_mode_motions(key, f) {
                if let KeyCode::Char(ch) = key.code {
                    if count_digit(ch, f) {
                        self.emit(Effect::AppendCountDigit(ch));
                    }
                }
            }
        }
    }

    fn handle_visual_key(&mut self, key: KeyEvent, mode: VisualMode, f: &Facts)
        ensures
            final(self)@ == old(self)@.visual_key(key, mode, *f),
    {
        if self.app.pending_highlight_palette {
            self.handle_highlight_palette_key(f);
            return ;
        }
        if self.app.pending_visual_inner {
            self.expect_inner_object(false);
            if key.code == KeyCode::Char('w') {
                self.emit(Effect::SelectInnerWord);
                return ;
            }
            if key.code == KeyCode::Char('W') {
                self.emit(Effect::SelectInnerBigWord);
                return ;
            }
        }
        self.handle_visual_command(key, mode, f);
    }

    fn handle_normal_command(&mut self, key: KeyEvent, f: &Facts) -> (r: Next)
        ensures
            (final(self)@, r) == old(self)@.normal_command(key, *f),
    {
        if self.handle_common_normal_mode_motions(key, f) {
            return Next::Done(None);
        }
        if key.code == KeyCode::Enter {
            self.emit(Effect::ClearCount);
            self.emit(Effect::FollowLink);
        } else if key.code == KeyCode::Char('v') {
            self.emit(Effect::EnterVisualMode(VisualMode::CharacterWise));
            self.emit(Effect::ClearCount);
        } else if key.code == KeyCode::Char('V') {
            self.emit(Effect::EnterVisualMode(VisualMode::LineWise));
            self.emit(Effect::ClearCount);
        } else if key.code == KeyCode::Char('y') {
            self.emit(Effect::StartYank);
        } else if key.code == KeyCode::Char('n') {
            if let Some(SearchMode::NavigationMode) = f.text_search {
                self.emit(Effect::NextMatch);
            } else {
                self.emit(Effect::ClearCount);
                self.emit(Effect::ToggleNormalMode);
            }
        } else if key.code == KeyCode::Esc {
            if f.text_search.is_some() {
                self.cancel_current_search(f);
            } else {
                self.emit(Effect::ClearCount);
                self.emit(Effect::ToggleNormalMode);
            }
        } else {
            return self.handle_content_key(key, f);
        }
        Next::Done(None)
    }

    fn handle_normal_key(&mut self, key: KeyEvent, f: &Facts) -> (r: Next)
        ensures
            (final(self)@, r) == old(self)@.normal_key(key, *f),
    {
        if self.handle_global_hotkeys(key, f) {
            return Next::Done(None);
        }
        self.emit(Effect::ClearExpiredYankHighlight);
        if f.pending_motion {
            self.handle_pending_find_motion(key, f);
            return Next::Done(None);
        }
        if f.pending_yank != PendingYank::Idle {
            self.handle_pending_yank(key, f);
            return Next::Done(None);
        }
        if let Some(mode) = f.visual_mode {
            self.handle_visual_key(key, mode, f);
            return Next::Done(None);
        }
        if self.app.pending_highlight_palette {
            self.handle_highlight_palette_key(f);
            return Next::Done(None);
        }
        if let KeyCode::Char(ch) = key.code {
            if count_digit(ch, f) {
                return Next::Ask(Question::CountDigit(ch));
            }
        }
        self.handle_normal_command(key, f)
    }

    /// `n` and `N` during a search; false where they mean nothing there.
    fn handle_match_key(&mut self, key: KeyEvent, f: &Facts) -> (r: bool)
        ensures
            match old(self)@.match_key(key, *f) {
                Some(s) => r && final(self)@ == s,
                None => !r && final(self)@ == old(self)@,
            },
    {
        if !f.is_in_search_mode() {
            return false;
        }
        let typed: char = if key.code == KeyCode::Char('n') {
            'n'
        } else if key.code == KeyCode::Char('N') {
            'N'
        } else {
            return false;
        };
        if let Some(SearchMode::InputMode) = f.navigation_search {
            self.handle_search_input(f, typed);
            return true;
        }
        match f.text_search {
            Some(SearchMode::NavigationMode) => {
                if typed == 'n' {
                    self.emit(Effect::NextMatch);
                } else {
                    self.emit(Effect::PreviousMatch);
                }
                true
            },
            Some(_) => {
                self.handle_search_input(f, typed);
                true
            },
            None => false,
        }
    }

    fn handle_bound_key(&mut self, key: KeyEvent, f: &Facts) -> (r: Next)
        ensures
            (final(self)@, r) == old(self)@.bound_key(key, *f),
    {
        let pending = !f.key_sequence_empty && !self.cleared;
        let first = if pending {
            f.content.sequence
        } else {
            f.content.single
        };
        match first {
            Lookup::Found(action) => {
                self.clear_keys();
                Next::Done(self.dispatch_epub_content_action(action, f))
            },
            Lookup::Prefix => {
                self.emit(Effect::PushKey(key));
                Next::Done(None)
            },
            Lookup::NoMatch => {
                if pending {
                    self.clear_keys();
                    match f.content.single {
                        Lookup::Found(action) => Next::Done(
                            self.dispatch_epub_content_action(action, f),
                        ),
                        Lookup::Prefix => {
                            self.emit(Effect::PushKey(key));
                            Next::Done(None)
                        },
                        Lookup::NoMatch => Next::Done(None),
                    }
                } else {
                    Next::Done(None)
                }
            },
        }
    }

    fn handle_content_key(&mut self, key: KeyEvent, f: &Facts) -> (r: Next)
        ensures
            (final(self)@, r) == old(self)@.content_key(key, *f),
    {
        if self.handle_global_hotkeys(key, f) {
            return Next::Done(None);
        }
        if self.handle_match_key(key, f) {
            return Next::Done(None);
        }
        self.handle_bound_key(key, f)
    }

    fn handle_reader_key(&mut self, key: KeyEvent, f: &Facts) -> (r: Next)
        ensures
            (final(self)@, r) == old(self)@.reader_key(key, *f),
    {
        if self.app.is_main_panel(MainPanel::Content) && f.normal_mode {
            self.handle_normal_key(key, f)
        } else {
            self.handle_content_key(key, f)
        }
    }

    fn route_key(&mut self, key: KeyEvent, f: &Facts) -> (r: Next)
        ensures
            (final(self)@, r) == old(self)@.routed_key(key, *f),
    {
        if self.handle_pending_mark_input(key) {
            return Next::Done(None);
        }
        match self.app.focused_panel {
            FocusedPanel::Popup(w) => {
                if w == PopupWindow::ImagePopup {
                    self.drop_window(w);
                    self.close_popup_to_previous();
                    Next::Done(None)
                } else if w == PopupWindow::KeybindingErrors {
                    self.handle_keybinding_errors_key(key);
                    Next::Done(None)
                } else {
                    Next::Ask(Question::PopupKey(w))
                }
            },
            FocusedPanel::Main(panel) => {
                if f.is_search_input_mode() {
                    self.handle_search_key(key, f);
                    Next::Done(None)
                } else if panel == MainPanel::NavigationList {
                    if self.handle_global_hotkeys(key, f) {
                        Next::Done(None)
                    } else {
                        Next::Ask(Question::NavigationKey)
                    }
                } else {
                    self.handle_reader_key(key, f)
                }
            },
        }
    }

    pub(crate) fn handle_key_event(&mut self, key: KeyEvent, f: &Facts) -> (r: Next)
        ensures
            (final(self)@, r) == old(self)@.key_event(key, *f),
    {
        self.emit(Effect::DismissErrorHud);
        if f.comment_input_active {
            Next::Ask(Question::CommentInput)
        } else {
            self.route_key(key, f)
        }
    }
}

impl App {
    /// Handles a key press.
    pub fn handle_key_event(&mut self, key: KeyEvent, f: &Facts) -> (r: Turn)
        ensures
            ({
                let (run, next) = RunView::start(*old(self)).key_event(key, *f);
                &&& *final(self) == run.app
                &&& r.effects@ == run.out
                &&& r.next == next
            }),
    {
        let mut run = Run::start(*self);
        let next = run.handle_key_event(key, f);
        *self = run.app;
        Turn { effects: run.out, next }
    }

    /// Goes on with a key that was offered to the comment editor.
    pub fn key_after_comment_input(&mut self, key: KeyEvent, taken: bool, f: &Facts) -> (r: Turn)
        ensures
            ({
                let start = RunView::start(*old(self));
                let (run, next) = if taken {
                    (start, Next::Done(None))
                } else {
                    start.routed_key(key, *f)
                };
                &&& *final(self) == run.app
                &&& r.effects@ == run.out
                &&& r.next == next
            }),
    {
        let mut run = Run::start(*self);
        let next = if taken {
            Next::Done(None)
        } else {
            run.route_key(key, f)
        };
        *self = run.app;
        Turn { effects: run.out, next }
    }

    /// Goes on with a key that the navigation panel has had; `bypass` where it passed it by.
    pub fn key_after_navigation(&mut self, key: KeyEvent, bypass: bool, f: &Facts) -> (r: Turn)
        ensures
            ({
                let (run, next) = RunView::start(*old(self)).key_behind_navigation(key, bypass, *f);
                &&& *final(self) == run.app
                &&& r.effects@ == run.out
                &&& r.next == next
            }),
    {
        let mut run = Run::start(*self);
        let next = if key.code == KeyCode::Char('q') {
            run.emit(Effect::SaveBookmark { force: true });
            Next::Done(Some(AppAction::Quit))
        } else if key.code == KeyCode::Esc {
            if f.has_notification {
                run.emit(Effect::DismissNotification);
            } else if f.is_in_search_mode() {
                run.cancel_current_search(f);
            }
            Next::Done(None)
        } else if !bypass {
            Next::Done(None)
        } else {
            run.handle_reader_key(key, f)
        };
        *self = run.app;
        Turn { effects: run.out, next }
    }

    /// Goes on with a digit that was offered to the count.
    pub fn key_after_count(&mut self, key: KeyEvent, taken: bool, f: &Facts) -> (r: Turn)
        ensures
            ({
                let start = RunView::start(*old(self));
                let (run, next) = if taken {
                    (start, Next::Done(None))
                } else {
                    start.normal_command(key, *f)
                };
                &&& *final(self) == run.app
                &&& r.effects@ == run.out
                &&& r.next == next
            }),
    {
        let mut run = Run::start(*self);
        let next = if taken {
            Next::Done(None)
        } else {
            run.handle_normal_command(key, f)
        };
        *self = run.app;
        Turn { effects: run.out, next }
    }

    /// The key behind a mark command; false where none waits.
    pub fn handle_pending_mark_input(&mut self, key: KeyEvent) -> (r: (bool, Vec<Effect>))
        ensures
            ({
                let (run, taken) = RunView::start(*old(self)).pending_mark(key);
                &&& *final(self) == run.app
                &&& r.1@ == run.out
                &&& r.0 == taken
            }),
    {
        let mut run = Run::start(*self);
        let taken = run.handle_pending_mark_input(key);
        *self = run.app;
        (taken, run.out)
    }

    /// Whether the highlight palette is open on a selection or a highlight.
    pub fn is_highlight_palette_active(&self, f: &Facts) -> (r: bool)
        ensures
            r == (self.pending_highlight_palette && (f.visual_mode is Some
                || self.highlight_palette_target is Some)),
    {
        self.pending_highlight_palette && (f.visual_mode.is_some()
            || self.highlight_palette_target.is_some())
    }
}

// ---------------------------------------------------------------------------------------------
// Laws
// ---------------------------------------------------------------------------------------------
/// Any key closes an image window and does nothing else.
pub proof fn law_any_key_closes_an_image(r: RunView, key: KeyEvent, f: Facts)
    requires
        r.app.focused_panel == FocusedPanel::Popup(PopupWindow::ImagePopup),
        r.app.pending_mark_op is None,
        !f.comment_input_active,
    ensures
        r.key_event(key, f) == (
            r.emit(Effect::DismissErrorHud).drop_window(PopupWindow::ImagePopup).close_popup(),
            Next::Done(None),
        ),
        r.key_event(key, f).0.app.focused_panel is Main,
        !r.key_event(key, f).0.app.windows.image_popup,
{
    broadcast use group_run_app;

}

/// A window in focus gets the key before any panel, and the state stays as it is until it has answered.
pub proof fn law_window_in_focus_gets_the_key(r: RunView, key: KeyEvent, f: Facts, w: PopupWindow)
    requires
        r.app.focused_panel == FocusedPanel::Popup(w),
        w != PopupWindow::ImagePopup,
        w != PopupWindow::KeybindingErrors,
        r.app.pending_mark_op is None,
        !f.comment_input_active,
    ensures
        r.key_event(key, f) == (
            r.emit(Effect::DismissErrorHud),
            Next::Ask(Question::PopupKey(w)),
        ),
        r.key_event(key, f).0.app == r.app,
{
    broadcast use group_run_app;

}

/// A mark command takes exactly the next key, whatever it is.
pub proof fn law_mark_takes_the_next_key(r: RunView, key: KeyEvent, f: Facts)
    requires
        r.app.pending_mark_op is Some,
        !f.comment_input_active,
    ensures
        r.key_event(key, f).1 == Next::Done(None),
        r.key_event(key, f).0.app.pending_mark_op is None,
{
    broadcast use group_run_app;

    reveal(RunView::drop_mark);
}

/// While a comment is written its editor is asked before anything else happens to a key.
pub proof fn law_comment_editor_comes_first(r: RunView, key: KeyEvent, f: Facts)
    requires
        f.comment_input_active,
    ensures
        r.key_event(key, f) == (
            r.emit(Effect::DismissErrorHud),
            Next::Ask(Question::CommentInput),
        ),
{
}

/// While a search query is typed a key changes nothing but the search.
pub proof fn law_typed_query_keeps_the_state(r: RunView, key: KeyEvent, f: Facts)
    requires
        r.app.focused_panel is Main,
        r.app.pending_mark_op is None,
        !f.comment_input_active,
        f.typing_search(),
    ensures
        r.key_event(key, f).1 == Next::Done(None),
        r.key_event(key, f).0.app == r.app,
{
    broadcast use group_run_app;

}

/// The palette is closed by every key but the one that asks for help, and applies a colour at most to
/// one highlight.
pub proof fn law_palette_closes(r: RunView, f: Facts)
    requires
        f.palette_key != PaletteKey::ShowHelp,
    ensures
        !r.palette_key(f).app.pending_highlight_palette,
        r.palette_key(f).app.highlight_palette_target is None,
{
    let closed = r.close_palette();
    assert(!closed.app.pending_highlight_palette && closed.app.highlight_palette_target is None)
        by {
        reveal(RunView::close_palette);
        reveal(RunView::to);
    }
    assert(r.palette_key(f).app == closed.app) by {
        broadcast use lemma_emit_app;

    }
}

/// Re-picking the colour that a highlight has takes the highlight away.
pub proof fn law_same_colour_removes(r: RunView, f: Facts)
    requires
        r.app.highlight_palette_target matches Some(t) && f.palette_key == PaletteKey::Apply(t.color),
    ensures
        r.palette_key(f) == r.close_palette().emit(
            Effect::RemoveHighlight(r.app.highlight_palette_target->0.highlight),
        ).emit(Effect::ClearCount),
{
}

/// Whether a turn that asks to quit has just saved the place.
pub open spec fn quits_saved(turn: (RunView, Next)) -> bool {
    turn.1 == Next::Done(Some(AppAction::Quit)) ==> turn.0.out.len() > 0 && turn.0.out.last()
        == Effect::SaveBookmark { force: true }
}

proof fn lemma_content_key_quits_saved(r: RunView, key: KeyEvent, f: Facts)
    ensures
        quits_saved(r.content_key(key, f)),
{
    reveal(RunView::emit);
}

proof fn lemma_normal_command_quits_saved(r: RunView, key: KeyEvent, f: Facts)
    ensures
        quits_saved(r.normal_command(key, f)),
{
    lemma_content_key_quits_saved(r.common_motion(key, f).0, key, f);
}

proof fn lemma_reader_key_quits_saved(r: RunView, key: KeyEvent, f: Facts)
    ensures
        quits_saved(r.reader_key(key, f)),
{
    lemma_content_key_quits_saved(r, key, f);
    lemma_normal_command_quits_saved(
        r.global_hotkeys(key, f).0.emit(Effect::ClearExpiredYankHighlight),
        key,
        f,
    );
}

/// No key quits without the place having been saved, whatever the throttle says.
pub proof fn law_no_key_quits_unsaved(r: RunView, key: KeyEvent, bypass: bool, f: Facts)
    ensures
        quits_saved(r.key_event(key, f)),
        quits_saved(r.routed_key(key, f)),
        quits_saved(r.key_behind_navigation(key, bypass, f)),
        quits_saved(r.normal_command(key, f)),
{
    lemma_reader_key_quits_saved(r, key, f);
    lemma_reader_key_quits_saved(r.emit(Effect::DismissErrorHud), key, f);
    lemma_normal_command_quits_saved(r, key, f);
    reveal(RunView::emit);
}

/// No key leaves the focus on a window that does not exist.
pub proof fn law_keys_are_sound(r: RunView, key: KeyEvent, bypass: bool, f: Facts)
    requires
        sound(r),
    ensures
        sound(r.key_event(key, f).0),
        sound(r.routed_key(key, f).0),
        sound(r.key_behind_navigation(key, bypass, f).0),
        sound(r.normal_command(key, f).0),
{
    broadcast use group_run_sound;

    lemma_routed_key_is_sound(r, key, f);
    lemma_routed_key_is_sound(r.emit(Effect::DismissErrorHud), key, f);
    lemma_reader_key_is_sound(r, key, f);
    lemma_normal_command_is_sound(r, key, f);
}

pub(crate) proof fn lemma_flags_sound(r: RunView, expected: bool)
    requires
        sound(r),
    ensures
        sound(r.drop_mark()),
        sound(r.close_palette()),
        sound(r.expect_inner(expected)),
{
    reveal(RunView::drop_mark);
    reveal(RunView::close_palette);
    reveal(RunView::expect_inner);
    reveal(RunView::to);
    reveal(sound);
}

pub(crate) proof fn lemma_global_hotkeys_is_sound(r: RunView, key: KeyEvent, f: Facts)
    requires
        sound(r),
    ensures
        sound(r.global_hotkeys(key, f).0),
{
    broadcast use group_run_sound;

    if let Lookup::Found(action) = f.global.sequence {
        law_global_action_keeps_focus_on_a_window(r.clear_keys(), action, f);
    }
    if let Lookup::Found(action) = f.global.single {
        law_global_action_keeps_focus_on_a_window(r.clear_keys(), action, f);
        law_global_action_keeps_focus_on_a_window(r, action, f);
    }
}

proof fn lemma_common_motion_is_sound(r: RunView, key: KeyEvent, f: Facts)
    requires
        sound(r),
    ensures
        sound(r.common_motion(key, f).0),
{
    broadcast use group_run_sound;

    if let Lookup::Found(action) = f.normal.sequence {
        law_normal_action_is_sound(r.clear_keys(), action, f);
    }
    if let Lookup::Found(action) = f.normal.single {
        law_normal_action_is_sound(r.clear_keys(), action, f);
    }
}

proof fn lemma_content_key_is_sound(r: RunView, key: KeyEvent, f: Facts)
    requires
        sound(r),
    ensures
        sound(r.content_key(key, f).0),
{
    broadcast use group_run_sound;

    lemma_global_hotkeys_is_sound(r, key, f);
    let g = r.global_hotkeys(key, f).0;
    if let Lookup::Found(action) = f.content.sequence {
        law_content_action_is_sound(g.clear_keys(), action, f);
    }
    if let Lookup::Found(action) = f.content.single {
        law_content_action_is_sound(g.clear_keys(), action, f);
    }
}

proof fn lemma_normal_command_is_sound(r: RunView, key: KeyEvent, f: Facts)
    requires
        sound(r),
    ensures
        sound(r.normal_command(key, f).0),
{
    broadcast use group_run_sound;

    lemma_common_motion_is_sound(r, key, f);
    lemma_content_key_is_sound(r.common_motion(key, f).0, key, f);
}

proof fn lemma_palette_key_is_sound(r: RunView, f: Facts)
    requires
        sound(r),
    ensures
        sound(r.palette_key(f)),
{
    broadcast use group_run_sound;

    lemma_flags_sound(r, false);
}

proof fn lemma_visual_command_is_sound(r: RunView, key: KeyEvent, mode: VisualMode, f: Facts)
    requires
        sound(r),
    ensures
        sound(r.visual_command(key, mode, f)),
{
    broadcast use group_run_sound;

    lemma_flags_sound(r, true);
    lemma_common_motion_is_sound(r, key, f);
}

proof fn lemma_visual_key_is_sound(r: RunView, key: KeyEvent, mode: VisualMode, f: Facts)
    requires
        sound(r),
    ensures
        sound(r.visual_key(key, mode, f)),
{
    broadcast use group_run_sound;

    lemma_flags_sound(r, false);
    lemma_palette_key_is_sound(r, f);
    lemma_visual_command_is_sound(r, key, mode, f);
    lemma_visual_command_is_sound(r.expect_inner(false), key, mode, f);
}

proof fn lemma_yank_key_is_sound(r: RunView, key: KeyEvent, f: Facts)
    requires
        sound(r),
    ensures
        sound(r.yank_key(key, f)),
        sound(r.find_key(key, f)),
{
    broadcast use group_run_sound;

}

proof fn lemma_reader_key_is_sound(r: RunView, key: KeyEvent, f: Facts)
    requires
        sound(r),
    ensures
        sound(r.reader_key(key, f).0),
{
    broadcast use group_run_sound;

    lemma_content_key_is_sound(r, key, f);
    lemma_global_hotkeys_is_sound(r, key, f);
    let s = r.global_hotkeys(key, f).0.emit(Effect::ClearExpiredYankHighlight);
    lemma_yank_key_is_sound(s, key, f);
    if let Some(mode) = f.visual_mode {
        lemma_visual_key_is_sound(s, key, mode, f);
    }
    lemma_palette_key_is_sound(s, f);
    lemma_normal_command_is_sound(s, key, f);
}

proof fn lemma_routed_key_is_sound(r: RunView, key: KeyEvent, f: Facts)
    requires
        sound(r),
    ensures
        sound(r.routed_key(key, f).0),
{
    broadcast use group_run_sound;

    lemma_flags_sound(r, false);
    lemma_global_hotkeys_is_sound(r, key, f);
    lemma_reader_key_is_sound(r, key, f);
    lemma_image_closes_soundly(r);
}

proof fn lemma_image_closes_soundly(r: RunView)
    ensures
        sound(r.drop_window(PopupWindow::ImagePopup).close_popup()),
{
    broadcast use group_run_sound;

}

} // verus!
