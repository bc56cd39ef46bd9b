//! What the keys of the reader do: which text a yank takes, what a selection becomes, where a letter leads.
use vstd::prelude::*;

use crate::inputs::event::{KeyCode, KeyEvent, KeyModifiers};
use crate::main_app::reading_laws::{asks, leads};
use crate::main_app::state::{
    Action, App, AppAction, Effect, Facts, FocusedPanel, HighlightColor, HighlightTarget, Hud, Lookup,
    MainPanel, Next, PaletteKey, PendingCharMotion, PendingMarkOp, PendingYank, PopupWindow, Question,
    RunView, SearchIn, SearchMode, Task, VisualMode, YankObject,
};

verus! {

/// A key with a character.
pub open spec fn typed(c: char) -> KeyEvent {
    KeyEvent {
        code: KeyCode::Char(c),
        modifiers: KeyModifiers { shift: false, alt: false, control: false },
        kind: crate::inputs::event::KeyEventKind::Press,
    }
}

/// Another key.
pub open spec fn pressed(code: KeyCode) -> KeyEvent {
    KeyEvent {
        code,
        modifiers: KeyModifiers { shift: false, alt: false, control: false },
        kind: crate::inputs::event::KeyEventKind::Press,
    }
}

/// Whether a character behind a yank takes a text so many times.
pub open spec fn takes(r: RunView, f: Facts, c: char, object: YankObject, count: usize) -> bool {
    asks(r, r.yank_key(typed(c), f), seq![Effect::TakeCount, Effect::Yank { object, count }])
}

/// The motions behind a yank: lines, words and paragraphs as often as the count says, the rest of the line,
/// its start and the rest of the text once.
pub proof fn law_yanked_motions(r: RunView, f: Facts)
    requires
        f.pending_yank == PendingYank::WaitingForMotion,
    ensures
        takes(r, f, 'y', YankObject::Line, f.count),
        takes(r, f, 'w', YankObject::WordForward, f.count),
        takes(r, f, 'W', YankObject::BigWordForward, f.count),
        takes(r, f, 'e', YankObject::WordEnd, f.count),
        takes(r, f, 'b', YankObject::WordBackward, f.count),
        takes(r, f, '{', YankObject::ParagraphUp, f.count),
        takes(r, f, '}', YankObject::ParagraphDown, f.count),
        takes(r, f, '$', YankObject::ToLineEnd, 1),
        takes(r, f, '0', YankObject::ToLineStart, 1),
        takes(r, f, '^', YankObject::ToFirstNonBlank, 1),
        takes(r, f, 'G', YankObject::ToDocumentBottom, 1),
        asks(
            r,
            r.yank_key(typed('z'), f),
            seq![Effect::TakeCount, Effect::ClearPendingYank, Effect::ClearCount],
        ),
        asks(
            r,
            r.yank_key(pressed(KeyCode::Esc), f),
            seq![Effect::ClearPendingYank, Effect::ClearCount],
        ),
{
    reveal(RunView::emit);
}

/// Whether a character behind a yank makes it wait for more.
pub open spec fn waits(r: RunView, f: Facts, c: char, what: PendingYank) -> bool {
    asks(r, r.yank_key(typed(c), f), seq![Effect::SetPendingYank(what)])
}

/// The characters behind a yank that wait for more: for the top of the text, for a text object without or
/// with what surrounds it, and for a character to be found.
pub proof fn law_yanks_that_wait(r: RunView, f: Facts)
    requires
        f.pending_yank == PendingYank::WaitingForMotion,
    ensures
        waits(r, f, 'g', PendingYank::WaitingForG),
        waits(r, f, 'i', PendingYank::WaitingForInnerObject),
        waits(r, f, 'a', PendingYank::WaitingForAroundObject),
        waits(r, f, 'f', PendingYank::WaitingForFindChar(PendingCharMotion::FindForward)),
        waits(r, f, 'F', PendingYank::WaitingForFindChar(PendingCharMotion::FindBackward)),
        waits(r, f, 't', PendingYank::WaitingForFindChar(PendingCharMotion::TillForward)),
        waits(r, f, 'T', PendingYank::WaitingForFindChar(PendingCharMotion::TillBackward)),
{
    reveal(RunView::emit);
}

/// What follows a yank that waits: `g` takes all up to the top, and a character all up to where it is
/// found; anything else gives the yank up.
pub proof fn law_yanks_that_waited(r: RunView, f: Facts, motion: PendingCharMotion, c: char)
    ensures
        f.pending_yank == PendingYank::WaitingForG ==> asks(
            r,
            r.yank_key(typed('g'), f),
            seq![
                Effect::ClearCount,
                Effect::Yank { object: YankObject::ToDocumentTop, count: 1 },
                Effect::ClearPendingYank,
            ],
        ) && (c != 'g' ==> asks(
            r,
            r.yank_key(typed(c), f),
            seq![Effect::ClearCount, Effect::ClearPendingYank],
        )),
        f.pending_yank == PendingYank::WaitingForFindChar(motion) ==> asks(
            r,
            r.yank_key(typed(c), f),
            seq![
                Effect::TakeCount,
                Effect::Yank { object: YankObject::FindChar(motion, c), count: f.count },
                Effect::ClearPendingYank,
            ],
        ),
        f.pending_yank == PendingYank::WaitingForFindChar(motion) ==> asks(
            r,
            r.yank_key(pressed(KeyCode::Esc), f),
            seq![Effect::ClearCount, Effect::ClearPendingYank],
        ),
        f.pending_yank == PendingYank::Idle ==> asks(r, r.yank_key(typed(c), f), Seq::empty()),
{
    reveal(RunView::emit);
}

/// Whether a character names a text object.
pub open spec fn names(r: RunView, f: Facts, c: char, object: YankObject, count: usize) -> bool {
    asks(
        r,
        r.yank_key(typed(c), f),
        seq![Effect::TakeCount, Effect::Yank { object, count }, Effect::ClearPendingYank],
    )
}

/// The text objects without what surrounds them: words, paragraphs, what stands between quotes, and what stands between
/// brackets, by either of the pair.
pub proof fn law_inner_objects(r: RunView, f: Facts)
    requires
        f.pending_yank == PendingYank::WaitingForInnerObject,
    ensures
        names(r, f, 'w', YankObject::InnerWord, 1),
        names(r, f, 'W', YankObject::InnerBigWord, 1),
        names(r, f, 'p', YankObject::InnerParagraph, f.count),
        names(r, f, '"', YankObject::InnerQuotes('"'), 1),
        names(r, f, '\'', YankObject::InnerQuotes('\''), 1),
        names(r, f, '`', YankObject::InnerQuotes('`'), 1),
        names(r, f, '(', YankObject::InnerBrackets('(', ')'), 1),
        names(r, f, ')', YankObject::InnerBrackets('(', ')'), 1),
        names(r, f, '[', YankObject::InnerBrackets('[', ']'), 1),
        names(r, f, ']', YankObject::InnerBrackets('[', ']'), 1),
        names(r, f, '{', YankObject::InnerBrackets('{', '}'), 1),
        names(r, f, '}', YankObject::InnerBrackets('{', '}'), 1),
        names(r, f, '<', YankObject::InnerBrackets('<', '>'), 1),
        names(r, f, '>', YankObject::InnerBrackets('<', '>'), 1),
{
    reveal(RunView::emit);
}

/// The text objects with what surrounds them: words, paragraphs, what stands between quotes, and what stands between
/// brackets, by either of the pair.
pub proof fn law_around_objects(r: RunView, f: Facts)
    requires
        f.pending_yank == PendingYank::WaitingForAroundObject,
    ensures
        names(r, f, 'w', YankObject::AroundWord, 1),
        names(r, f, 'W', YankObject::AroundBigWord, 1),
        names(r, f, 'p', YankObject::AroundParagraph, f.count),
        names(r, f, '"', YankObject::AroundQuotes('"'), 1),
        names(r, f, '\'', YankObject::AroundQuotes('\''), 1),
        names(r, f, '`', YankObject::AroundQuotes('`'), 1),
        names(r, f, '(', YankObject::AroundBrackets('(', ')'), 1),
        names(r, f, ')', YankObject::AroundBrackets('(', ')'), 1),
        names(r, f, '[', YankObject::AroundBrackets('[', ']'), 1),
        names(r, f, ']', YankObject::AroundBrackets('[', ']'), 1),
        names(r, f, '{', YankObject::AroundBrackets('{', '}'), 1),
        names(r, f, '}', YankObject::AroundBrackets('{', '}'), 1),
        names(r, f, '<', YankObject::AroundBrackets('<', '>'), 1),
        names(r, f, '>', YankObject::AroundBrackets('<', '>'), 1),
{
    reveal(RunView::emit);
}

/// The palette: a new colour is added, the own colour of a highlight takes it away, another one recolours it
/// or, under a selection, takes its place; the palette is closed by each of these.
pub proof fn law_palette_colours(
    r: RunView,
    f: Facts,
    target: HighlightTarget,
    color: HighlightColor,
)
    requires
        f.palette_key == PaletteKey::Apply(color),
    ensures
        ({
            let shut = App {
                pending_highlight_palette: false,
                highlight_palette_target: None,
                ..r.app
            };
            let at = r.app.highlight_palette_target;
            &&& at is None ==> leads(
                r,
                r.palette_key(f),
                shut,
                seq![Effect::AddHighlight(color), Effect::ClearCount],
            )
            &&& at == Some(target) && target.color == color ==> leads(
                r,
                r.palette_key(f),
                shut,
                seq![Effect::RemoveHighlight(target.highlight), Effect::ClearCount],
            )
            &&& at == Some(target) && target.color != color && f.visual_mode is None ==> leads(
                r,
                r.palette_key(f),
                shut,
                seq![Effect::RecolorHighlight(target.highlight, color), Effect::ClearCount],
            )
            &&& at == Some(target) && target.color != color && f.visual_mode is Some ==> leads(
                r,
                r.palette_key(f),
                shut,
                seq![
                    Effect::DeleteHighlight(target.highlight),
                    Effect::AddHighlight(color),
                    Effect::ClearCount,
                ],
            )
        }),
{
    reveal(RunView::emit);
    reveal(RunView::to);
    reveal(RunView::close_palette);
}

/// The other keys of the palette: its help leaves it open, the rest close it; a highlight is removed where
/// there is one, and an unknown key changes nothing.
pub proof fn law_palette_keys(r: RunView, f: Facts, target: HighlightTarget)
    ensures
        ({
            let shut = App {
                pending_highlight_palette: false,
                highlight_palette_target: None,
                ..r.app
            };
            let at = r.app.highlight_palette_target;
            &&& f.palette_key == PaletteKey::ShowHelp && at is None ==> asks(
                r,
                r.palette_key(f),
                seq![Effect::ShowHud(Hud::Palette)],
            )
            &&& f.palette_key == PaletteKey::ShowHelp && at is Some ==> asks(
                r,
                r.palette_key(f),
                seq![Effect::ShowHud(Hud::PaletteEdit)],
            )
            &&& f.palette_key == PaletteKey::Cancel ==> leads(
                r,
                r.palette_key(f),
                shut,
                seq![Effect::ClearCount],
            )
            &&& f.palette_key == PaletteKey::Remove && at == Some(target) ==> leads(
                r,
                r.palette_key(f),
                shut,
                seq![Effect::RemoveHighlight(target.highlight), Effect::ClearCount],
            )
            &&& f.palette_key == PaletteKey::Remove && at is None ==> leads(
                r,
                r.palette_key(f),
                shut,
                seq![Effect::ShowHud(Hud::NoHighlightToRemove), Effect::ClearCount],
            )
            &&& f.palette_key == PaletteKey::UnknownKey ==> leads(
                r,
                r.palette_key(f),
                shut,
                seq![Effect::ShowHud(Hud::UnknownColor), Effect::ClearCount],
            )
        }),
{
    reveal(RunView::emit);
    reveal(RunView::to);
    reveal(RunView::close_palette);
}

/// The keys while the words of a search are typed: characters are added, Backspace takes one away, Enter
/// confirms and Esc gives up.
pub proof fn law_typing_a_search(r: RunView, f: Facts, c: char)
    requires
        f.navigation_search is None,
        f.text_search == Some(SearchMode::InputMode),
    ensures
        asks(r, r.search_key(typed(c), f), seq![Effect::SearchType(SearchIn::Text, c)]),
        asks(r, r.search_key(pressed(KeyCode::Backspace), f), seq![Effect::SearchErase(SearchIn::Text)]),
        asks(r, r.search_key(pressed(KeyCode::Enter), f), seq![Effect::ConfirmSearch(SearchIn::Text)]),
        asks(r, r.search_key(pressed(KeyCode::Esc), f), seq![Effect::CancelSearch(SearchIn::Text)]),
        asks(r, r.search_key(pressed(KeyCode::Left), f), Seq::empty()),
{
    reveal(RunView::emit);
    reveal(RunView::type_search);
    reveal(RunView::cancel_search);
}

/// The same in the navigation panel.
pub proof fn law_typing_a_search_of_the_panel(r: RunView, f: Facts, c: char)
    requires
        f.navigation_search == Some(SearchMode::InputMode),
    ensures
        asks(r, r.search_key(typed(c), f), seq![Effect::SearchType(SearchIn::Navigation, c)]),
        asks(
            r,
            r.search_key(pressed(KeyCode::Backspace), f),
            seq![Effect::SearchErase(SearchIn::Navigation)],
        ),
        asks(
            r,
            r.search_key(pressed(KeyCode::Enter), f),
            seq![Effect::ConfirmSearch(SearchIn::Navigation)],
        ),
        asks(
            r,
            r.search_key(pressed(KeyCode::Esc), f),
            seq![Effect::CancelSearch(SearchIn::Navigation)],
        ),
{
    reveal(RunView::emit);
    reveal(RunView::type_search);
    reveal(RunView::cancel_search);
}

/// The matches of a search: `n` goes to the next and `N` to the previous one; while words are typed both
/// are letters.
pub proof fn law_keys_of_matches(r: RunView, f: Facts, c: char)
    ensures
        f.navigation_search is None && f.text_search == Some(SearchMode::NavigationMode) ==> (
        r.match_key(typed('n'), f) matches Some(a) && asks(r, a, seq![Effect::NextMatch])) && (
        r.match_key(typed('N'), f) matches Some(b) && asks(r, b, seq![Effect::PreviousMatch])),
        f.navigation_search is None && f.text_search == Some(SearchMode::InputMode) ==> (r.match_key(
            typed('n'),
            f,
        ) matches Some(a) && asks(r, a, seq![Effect::SearchType(SearchIn::Text, 'n')])) && (
        r.match_key(typed('N'), f) matches Some(b) && asks(
            r,
            b,
            seq![Effect::SearchType(SearchIn::Text, 'N')],
        )),
        f.navigation_search is None && f.text_search is None ==> r.match_key(typed('n'), f) is None,
        c != 'n' && c != 'N' ==> r.match_key(typed(c), f) is None,
{
    reveal(RunView::emit);
    reveal(RunView::type_search);
}

/// The letter behind a mark command names the mark that is set or gone to; the command doubled opens the
/// list of marks; anything else gives the command up, and without one no key is taken.
pub proof fn law_letters_of_marks(r: RunView, c: char)
    ensures
        ({
            let free = App { pending_mark_op: None, ..r.app };
            let letter = 'a' <= c <= 'z' || 'A' <= c <= 'Z';
            let (after, taken) = r.pending_mark(typed(c));
            &&& r.app.pending_mark_op is None ==> !taken && after == r
            &&& r.app.pending_mark_op is Some ==> taken
            &&& r.app.pending_mark_op == Some(PendingMarkOp::Assign) && letter ==> leads(
                r,
                after,
                free,
                seq![Effect::Perform(Task::SetMark(c))],
            )
            &&& r.app.pending_mark_op == Some(PendingMarkOp::Goto) && letter ==> leads(
                r,
                after,
                free,
                seq![Effect::Perform(Task::GotoMark(c))],
            )
            &&& r.app.pending_mark_op == Some(PendingMarkOp::Assign) && !letter ==> leads(
                r,
                after,
                free,
                Seq::empty(),
            )
            &&& r.app.pending_mark_op == Some(PendingMarkOp::Goto) && !letter && c != '`' && c
                != '\'' ==> leads(r, after, free, Seq::empty())
            &&& r.app.pending_mark_op == Some(PendingMarkOp::Goto) && (c == '`' || c == '\'')
                ==> after.app.focused_panel == FocusedPanel::Popup(PopupWindow::MarksList)
                && after.app.pending_mark_op is None && after.app.windows.has(PopupWindow::MarksList)
        }),
{
    reveal(RunView::emit);
    reveal(RunView::to);
    reveal(RunView::drop_mark);
    reveal(RunView::focus_window);
    reveal(RunView::remember_panel);
}

/// The character that a search for one waits for; any other key gives it up.
pub proof fn law_found_characters(r: RunView, f: Facts, c: char)
    ensures
        asks(
            r,
            r.find_key(typed(c), f),
            seq![Effect::TakeCount, Effect::ExecutePendingFind { ch: c, times: f.count }],
        ),
        asks(
            r,
            r.find_key(pressed(KeyCode::Esc), f),
            seq![Effect::ClearPendingMotion, Effect::ClearCount],
        ),
{
    reveal(RunView::emit);
}

/// The keys of a selection: `y` takes it, `a` comments on it, `i` waits for a word, `v` and `V` change how
/// it extends or end it, and Esc ends it.
pub proof fn law_keys_of_a_selection(r: RunView, mode: VisualMode, f: Facts)
    ensures
        ({
            let shut = App {
                pending_highlight_palette: false,
                highlight_palette_target: None,
                ..r.app
            };
            let ends = seq![Effect::ExitVisualMode, Effect::ClearCount];
            let chars = VisualMode::CharacterWise;
            let lines = VisualMode::LineWise;
            &&& asks(
                r,
                r.visual_command(typed('y'), mode, f),
                seq![
                    Effect::Yank { object: YankObject::Selection, count: 1 },
                    Effect::ClearCount,
                ],
            )
            &&& asks(
                r,
                r.visual_command(typed('a'), mode, f),
                seq![Effect::StartCommentInput, Effect::ClearCount],
            )
            &&& leads(
                r,
                r.visual_command(typed('i'), mode, f),
                App { pending_visual_inner: true, ..r.app },
                Seq::empty(),
            )
            &&& f.text_search is None ==> leads(
                r,
                r.visual_command(pressed(KeyCode::Esc), mode, f),
                shut,
                ends,
            )
            &&& leads(r, r.visual_command(typed('v'), chars, f), shut, ends)
            &&& leads(r, r.visual_command(typed('V'), lines, f), shut, ends)
            &&& asks(
                r,
                r.visual_command(typed('v'), lines, f),
                seq![Effect::EnterVisualMode(chars), Effect::ClearCount],
            )
            &&& asks(
                r,
                r.visual_command(typed('V'), chars, f),
                seq![Effect::EnterVisualMode(lines), Effect::ClearCount],
            )
        }),
{
    reveal(RunView::emit);
    reveal(RunView::to);
    reveal(RunView::close_palette);
    reveal(RunView::expect_inner);
}

/// The word that a selection waits for behind `i`.
pub proof fn law_selected_words(r: RunView, mode: VisualMode, f: Facts)
    requires
        r.app.pending_visual_inner,
        !r.app.pending_highlight_palette,
    ensures
        leads(
            r,
            r.visual_key(typed('w'), mode, f),
            App { pending_visual_inner: false, ..r.app },
            seq![Effect::SelectInnerWord],
        ),
        leads(
            r,
            r.visual_key(typed('W'), mode, f),
            App { pending_visual_inner: false, ..r.app },
            seq![Effect::SelectInnerBigWord],
        ),
{
    reveal(RunView::emit);
    reveal(RunView::to);
    reveal(RunView::expect_inner);
}

/// The keys of the cursor that no binding takes: Enter follows a link, `v` and `V` begin a selection, `y`
/// a yank, and Esc leaves the cursor.
pub proof fn law_keys_of_the_cursor(r: RunView, f: Facts)
    requires
        f.normal.single == Lookup::NoMatch,
        f.key_sequence_empty,
    ensures
        ({
            let done = Next::Done(None);
            let does = |key: KeyEvent, effects: Seq<Effect>|
                asks(r, r.normal_command(key, f).0, effects) && r.normal_command(key, f).1 == done;
            &&& does(pressed(KeyCode::Enter), seq![Effect::ClearCount, Effect::FollowLink])
            &&& does(
                typed('v'),
                seq![Effect::EnterVisualMode(VisualMode::CharacterWise), Effect::ClearCount],
            )
            &&& does(
                typed('V'),
                seq![Effect::EnterVisualMode(VisualMode::LineWise), Effect::ClearCount],
            )
            &&& does(typed('y'), seq![Effect::StartYank])
            &&& f.text_search == Some(SearchMode::NavigationMode) ==> does(
                typed('n'),
                seq![Effect::NextMatch],
            )
            &&& f.text_search is None ==> does(
                typed('n'),
                seq![Effect::ClearCount, Effect::ToggleNormalMode],
            )
            &&& f.text_search is None ==> does(
                pressed(KeyCode::Esc),
                seq![Effect::ClearCount, Effect::ToggleNormalMode],
            )
        }),
{
    reveal(RunView::emit);
}

/// Who gets a key of normal mode: the application, a motion that waits for its character, a yank that waits
/// for its text, the selection, the palette, and then the count and the commands. All but the application
/// first clear a highlight whose time is over. A digit belongs to the count, a zero only behind another.
pub proof fn law_who_gets_a_key_of_normal_mode(r: RunView, key: KeyEvent, f: Facts, c: char)
    ensures
        ({
            let (global, taken) = r.global_hotkeys(key, f);
            let own = RunView { out: global.out.push(Effect::ClearExpiredYankHighlight), ..global };
            let done = r.normal_key(key, f);
            let nothing = Next::Done(None);
            let free = !taken && !f.pending_motion;
            let idle = free && f.pending_yank == PendingYank::Idle;
            let reading = idle && f.visual_mode is None;
            let digit = 49 <= c as int <= 57 || (c == '0' && f.pending_count);
            &&& taken ==> done == (global, nothing)
            &&& !taken && f.pending_motion ==> done == (own.find_key(key, f), nothing)
            &&& free && f.pending_yank != PendingYank::Idle ==> done == (own.yank_key(key, f), nothing)
            &&& idle && f.visual_mode is Some ==> done == (
                own.visual_key(key, f.visual_mode->0, f),
                nothing,
            )
            &&& reading && global.app.pending_highlight_palette ==> done == (own.palette_key(f), nothing)
            &&& reading && !global.app.pending_highlight_palette && key.code == KeyCode::Char(c) && digit
                ==> done == (own, Next::Ask(Question::CountDigit(c)))
            &&& reading && !global.app.pending_highlight_palette && key.code == KeyCode::Char(c)
                && !digit ==> done == own.normal_command(key, f)
            &&& reading && !global.app.pending_highlight_palette && !(key.code is Char) ==> done
                == own.normal_command(key, f)
        }),
{
    reveal(RunView::emit);
}

/// The motions of normal mode are bound like other keys: a sequence counts as a whole first, and where it
/// leads nowhere its last key counts alone.
pub proof fn law_bound_motions(r: RunView, key: KeyEvent, f: Facts, action: Action)
    requires
        !r.cleared,
        !f.key_sequence_empty,
    ensures
        ({
            let done = r.common_motion(key, f);
            let lost = f.normal.sequence == Lookup::NoMatch;
            &&& f.normal.sequence == Lookup::Found(action) ==> done == r.clear_keys().normal_action(
                action,
                f,
            )
            &&& f.normal.sequence == Lookup::Prefix ==> done.1 && asks(
                r,
                done.0,
                seq![Effect::PushKey(key)],
            )
            &&& lost && f.normal.single == Lookup::Found(action) ==> done
                == r.clear_keys().normal_action(action, f)
            &&& lost && f.normal.single == Lookup::Prefix ==> done.1 && asks(
                r,
                done.0,
                seq![Effect::ClearKeySequence, Effect::PushKey(key)],
            )
            &&& lost && f.normal.single == Lookup::NoMatch ==> !done.1 && asks(
                r,
                done.0,
                seq![Effect::ClearKeySequence],
            )
        }),
{
    reveal(RunView::emit);
    reveal(RunView::clear_keys);
}

/// A key that is bound does what it is bound to; one that begins a binding waits for the next; a sequence
/// that leads nowhere is dropped, and its last key counts alone.
pub proof fn law_bound_keys(r: RunView, key: KeyEvent, f: Facts, action: Action)
    requires
        !r.cleared,
    ensures
        f.key_sequence_empty && f.content.single == Lookup::Found(action) ==> r.bound_key(key, f) == (
            r.clear_keys().content_action(action, f).0,
            Next::Done(r.clear_keys().content_action(action, f).1),
        ),
        !f.key_sequence_empty && f.content.sequence == Lookup::Found(action) ==> r.bound_key(key, f)
            == (
            r.clear_keys().content_action(action, f).0,
            Next::Done(r.clear_keys().content_action(action, f).1),
        ),
        f.key_sequence_empty && f.content.single == Lookup::Prefix ==> asks(
            r,
            r.bound_key(key, f).0,
            seq![Effect::PushKey(key)],
        ),
        !f.key_sequence_empty && f.content.sequence == Lookup::Prefix ==> asks(
            r,
            r.bound_key(key, f).0,
            seq![Effect::PushKey(key)],
        ),
        !f.key_sequence_empty && f.content.sequence == Lookup::NoMatch && f.content.single
            == Lookup::Found(action) ==> r.bound_key(key, f).0 == r.clear_keys().content_action(
            action,
            f,
        ).0,
        !f.key_sequence_empty && f.content.sequence == Lookup::NoMatch && f.content.single
            == Lookup::Prefix ==> asks(
            r,
            r.bound_key(key, f).0,
            seq![Effect::ClearKeySequence, Effect::PushKey(key)],
        ),
        f.key_sequence_empty && f.content.single == Lookup::NoMatch ==> r.bound_key(key, f) == (
            r,
            Next::Done(None),
        ),
        f.key_sequence_empty && f.normal.single == Lookup::Found(action) ==> r.common_motion(key, f)
            == r.clear_keys().normal_action(action, f),
        f.key_sequence_empty && f.normal.single == Lookup::Prefix ==> asks(
            r,
            r.common_motion(key, f).0,
            seq![Effect::PushKey(key)],
        ) && r.common_motion(key, f).1,
        f.key_sequence_empty && f.normal.single == Lookup::NoMatch ==> r.common_motion(key, f) == (
            r,
            false,
        ),
{
    reveal(RunView::emit);
    reveal(RunView::clear_keys);
}

/// Behind the navigation panel `q` quits once the place is saved, and Esc takes away a message; a key that
/// the panel took goes no further.
pub proof fn law_keys_behind_the_panel(r: RunView, bypass: bool, f: Facts, c: char)
    ensures
        asks(
            r,
            r.key_behind_navigation(typed('q'), bypass, f).0,
            seq![Effect::SaveBookmark { force: true }],
        ),
        r.key_behind_navigation(typed('q'), bypass, f).1 == Next::Done(Some(AppAction::Quit)),
        f.has_notification ==> asks(
            r,
            r.key_behind_navigation(pressed(KeyCode::Esc), bypass, f).0,
            seq![Effect::DismissNotification],
        ),
        c != 'q' && !bypass ==> r.key_behind_navigation(typed(c), bypass, f) == (
            r,
            Next::Done(None),
        ),
{
    reveal(RunView::emit);
}

/// Who gets a key: the writer of a comment, then a mark command, then the window in focus, then a search
/// that is typed, then the panel with the focus.
pub proof fn law_who_gets_a_key(r: RunView, key: KeyEvent, f: Facts, w: PopupWindow)
    ensures
        ({
            let told = r.emit(Effect::DismissErrorHud);
            let (after, next) = r.key_event(key, f);
            &&& f.comment_input_active ==> next == Next::Ask(Question::CommentInput) && asks(
                r,
                after,
                seq![Effect::DismissErrorHud],
            )
            &&& !f.comment_input_active && r.app.pending_mark_op is None && r.app.focused_panel
                == FocusedPanel::Popup(w) && w != PopupWindow::ImagePopup && w
                != PopupWindow::KeybindingErrors ==> next == Next::Ask(Question::PopupKey(w)) && asks(
                r,
                after,
                seq![Effect::DismissErrorHud],
            )
            &&& !f.comment_input_active && r.app.pending_mark_op is None && r.app.focused_panel
                == FocusedPanel::Main(MainPanel::Content) && !f.typing_search() && f.normal_mode
                ==> (after, next) == told.normal_key(key, f)
            &&& !f.comment_input_active && r.app.pending_mark_op is None && r.app.focused_panel
                == FocusedPanel::Main(MainPanel::Content) && !f.typing_search() && !f.normal_mode
                ==> (after, next) == told.content_key(key, f)
            &&& !f.comment_input_active && r.app.pending_mark_op is None && r.app.focused_panel
                is Main && f.typing_search() ==> after == told.search_key(key, f) && next
                == Next::Done(None)
        }),
{
    reveal(RunView::emit);
}

/// The window of errors in the bindings: `j` and `k` scroll it, with Control `d` and `u` by twenty lines,
/// and `q` and Esc leave it.
pub proof fn law_keys_of_the_error_window(r: RunView)
    requires
        r.app.windows.keybinding_errors_popup,
    ensures
        ({
            let control = KeyModifiers { shift: false, alt: false, control: true };
            let down = KeyEvent { modifiers: control, ..typed('d') };
            let up = KeyEvent { modifiers: control, ..typed('u') };
            let does = |key: KeyEvent, e: Effect| asks(r, r.keybinding_errors_key(key), seq![e]);
            &&& does(typed('j'), Effect::ScrollKeybindingErrors { down: true })
            &&& does(pressed(KeyCode::Down), Effect::ScrollKeybindingErrors { down: true })
            &&& does(typed('k'), Effect::ScrollKeybindingErrors { down: false })
            &&& does(pressed(KeyCode::Up), Effect::ScrollKeybindingErrors { down: false })
            &&& does(down, Effect::PageKeybindingErrors { down: true, lines: 20 })
            &&& does(up, Effect::PageKeybindingErrors { down: false, lines: 20 })
            &&& !r.keybinding_errors_key(typed('q')).app.windows.keybinding_errors_popup
            &&& !r.keybinding_errors_key(pressed(KeyCode::Esc)).app.windows.keybinding_errors_popup
            &&& r.keybinding_errors_key(typed('q')).app.focused_panel is Main
        }),
{
    reveal(RunView::emit);
    reveal(RunView::to);
    reveal(RunView::drop_window);
    reveal(RunView::close_popup);
}

} // verus!
