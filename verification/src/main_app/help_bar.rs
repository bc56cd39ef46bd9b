//! The bar below the view: what the keys do, and buttons that can be clicked.
use vstd::prelude::*;
use vstd::string::*;
use vstd::utf8::encode_utf8;

use crate::main_app::state::{
    Action, App, FocusedPanel, KeyContext, MainPanel, NotificationLevel, PopupWindow, Rect,
    SearchMode,
};
use crate::text;
use crate::text::{begins, decimal};

verus! {

// ---------------------------------------------------------------------------------------------
// Keys
// ---------------------------------------------------------------------------------------------
/// How the key of an action is shown, in the context that it is bound in.
pub struct KeyLabel {
    pub context: KeyContext,
    pub action: Action,
    pub label: String,
}

/// The label of an action from the `i`-th on; `?` where no key is bound to it.
pub open spec fn label_from(
    labels: Seq<KeyLabel>,
    context: KeyContext,
    action: Action,
    i: int,
) -> Seq<char>
    decreases labels.len() - i,
{
    if i < 0 || i >= labels.len() {
        "?"@
    } else if labels[i].context == context && labels[i].action == action {
        labels[i].label@
    } else {
        label_from(labels, context, action, i + 1)
    }
}

/// The label of an action.
pub open spec fn key_label(labels: Seq<KeyLabel>, context: KeyContext, action: Action) -> Seq<char> {
    label_from(labels, context, action, 0)
}

/// Two labels with a slash between them; what both start with, up to the last plus sign of the
/// first, is said once.
pub open spec fn paired(k1: Seq<char>, k2: Seq<char>) -> Seq<char> {
    let plus = text::last_index_before(k1, '+', k1.len() as int);
    if plus >= 0 && begins(k2, k1.take(plus + 1)) {
        k1 + "/"@ + k2.skip(plus + 1)
    } else {
        k1 + "/"@ + k2
    }
}

/// The labels of two actions.
pub open spec fn pair_label(
    labels: Seq<KeyLabel>,
    context: KeyContext,
    a1: Action,
    a2: Action,
) -> Seq<char> {
    paired(key_label(labels, context, a1), key_label(labels, context, a2))
}

/// The label of an action; `?` where no key is bound to it.
pub fn key_for(labels: &Vec<KeyLabel>, context: KeyContext, action: Action) -> (r: String)
    ensures
        r@ == key_label(labels@, context, action),
{
    let mut i: usize = 0;
    while i < labels.len()
        invariant
            i <= labels@.len(),
            key_label(labels@, context, action) == label_from(labels@, context, action, i as int),
        decreases labels@.len() - i,
    {
        if labels[i].context == context && labels[i].action == action {
            return text::copy(labels[i].label.as_str());
        }
        i += 1;
    }
    text::copy("?")
}

fn pair_texts(k1: &str, k2: &str) -> (r: String)
    ensures
        r@ == paired(k1@, k2@),
{
    let a = text::chars_of(k1);
    let b = text::chars_of(k2);
    let mut r = text::copy(k1);
    r.append("/");
    proof {
        text::lemma_last_index_before(a@, '+', a@.len() as int);
    }
    if let Some(plus) = text::last_index_of(&a, '+') {
        assert(plus < a.len());
        let prefix = text::slice(&a, 0, plus + 1);
        assert(prefix@ =~= a@.take(plus + 1));
        let p = text::string_of(&prefix);
        if text::starts_with(k2, p.as_str()) {
            let n: usize = b.len();
            let rest = text::slice(&b, plus + 1, n);
            assert(rest@ =~= b@.skip(plus + 1));
            let s = text::string_of(&rest);
            r.append(s.as_str());
            return r;
        }
    }
    r.append(k2);
    r
}

/// The labels of two actions, what both start with said once.
pub fn key_pair(labels: &Vec<KeyLabel>, context: KeyContext, a1: Action, a2: Action) -> (r: String)
    ensures
        r@ == pair_label(labels@, context, a1, a2),
{
    let k1 = key_for(labels, context, a1);
    let k2 = key_for(labels, context, a2);
    pair_texts(k1.as_str(), k2.as_str())
}

// ---------------------------------------------------------------------------------------------
// What the keys do
// ---------------------------------------------------------------------------------------------
/// A piece of what the bar says.
pub enum HelpPiece {
    Words(&'static str),
    Key(KeyContext, Action),
    Keys(KeyContext, Action, Action),
}

/// A piece with the keys filled in.
pub open spec fn piece_text(piece: HelpPiece, labels: Seq<KeyLabel>) -> Seq<char> {
    match piece {
        HelpPiece::Words(s) => s@,
        HelpPiece::Key(context, action) => key_label(labels, context, action),
        HelpPiece::Keys(context, a1, a2) => pair_label(labels, context, a1, a2),
    }
}

/// The first `n` pieces with the keys filled in.
pub open spec fn filled_in(pieces: Seq<HelpPiece>, n: nat, labels: Seq<KeyLabel>) -> Seq<char>
    decreases n,
{
    if n == 0 || n > pieces.len() {
        Seq::empty()
    } else {
        filled_in(pieces, (n - 1) as nat, labels) + piece_text(pieces[n - 1], labels)
    }
}

/// What the help bar says of the panel or window in focus.
pub open spec fn panel_pieces(panel: FocusedPanel) -> Seq<HelpPiece> {
    match panel {
        FocusedPanel::Main(MainPanel::NavigationList) => seq![
            HelpPiece::Key(KeyContext::Navigation, Action::MoveDown),
            HelpPiece::Words("/"),
            HelpPiece::Key(KeyContext::Navigation, Action::MoveUp),
            HelpPiece::Words(": Navigate | "),
            HelpPiece::Key(KeyContext::Navigation, Action::Select),
            HelpPiece::Words(": Select | "),
            HelpPiece::Key(KeyContext::Navigation, Action::Collapse),
            HelpPiece::Words("/"),
            HelpPiece::Key(KeyContext::Navigation, Action::Expand),
            HelpPiece::Words(": Fold/Unfold | "),
            HelpPiece::Key(KeyContext::Navigation, Action::CollapseAll),
            HelpPiece::Words("/"),
            HelpPiece::Key(KeyContext::Navigation, Action::ExpandAll),
            HelpPiece::Words(": Fold/Unfold All | "),
            HelpPiece::Key(KeyContext::Navigation, Action::SwitchFocus),
            HelpPiece::Words(": Switch | q: Quit"),
        ],
        FocusedPanel::Main(MainPanel::Content) => seq![
            HelpPiece::Keys(KeyContext::EpubContent, Action::ScrollDown, Action::ScrollUp),
            HelpPiece::Words(": Scroll | "),
            HelpPiece::Keys(KeyContext::EpubContent, Action::PrevChapter, Action::NextChapter),
            HelpPiece::Words(": Chapter | "),
            HelpPiece::Keys(KeyContext::EpubContent, Action::ScrollHalfDown, Action::ScrollHalfUp),
            HelpPiece::Words(": Half-screen | "),
            HelpPiece::Key(KeyContext::EpubContent, Action::SwitchFocus),
            HelpPiece::Words(": Switch | "),
            HelpPiece::Key(KeyContext::Global, Action::OpenExternalViewer),
            HelpPiece::Words(": Open | "),
            HelpPiece::Key(KeyContext::EpubContent, Action::Quit),
            HelpPiece::Words(": Quit"),
        ],
        FocusedPanel::Popup(PopupWindow::ReadingHistory) => seq![
            HelpPiece::Key(KeyContext::PopupHistory, Action::MoveDown),
            HelpPiece::Words("/"),
            HelpPiece::Key(KeyContext::PopupHistory, Action::MoveUp),
            HelpPiece::Words("/Scroll: Navigate | "),
            HelpPiece::Key(KeyContext::PopupHistory, Action::NextTab),
            HelpPiece::Words(": Switch Tab | "),
            HelpPiece::Key(KeyContext::PopupHistory, Action::Select),
            HelpPiece::Words("/DblClick: Open | "),
            HelpPiece::Key(KeyContext::Navigation, Action::Cancel),
            HelpPiece::Words(": Close"),
        ],
        FocusedPanel::Popup(PopupWindow::BookStats) => seq![
            HelpPiece::Keys(KeyContext::PopupStats, Action::MoveDown, Action::MoveUp),
            HelpPiece::Words("/"),
            HelpPiece::Keys(KeyContext::PopupStats, Action::ScrollHalfDown, Action::ScrollHalfUp),
            HelpPiece::Words("/Scroll: Scroll | "),
            HelpPiece::Key(KeyContext::PopupStats, Action::Select),
            HelpPiece::Words("/DblClick: Jump | "),
            HelpPiece::Key(KeyContext::Navigation, Action::Cancel),
            HelpPiece::Words(": Close"),
        ],
        FocusedPanel::Popup(PopupWindow::ImagePopup) => seq![
            HelpPiece::Key(KeyContext::Navigation, Action::Cancel),
            HelpPiece::Words("/Any key: Close"),
        ],
        FocusedPanel::Popup(PopupWindow::BookSearch) => seq![
            HelpPiece::Key(KeyContext::Global, Action::OpenBookSearch),
            HelpPiece::Words(": Reopen | "),
            HelpPiece::Key(KeyContext::Global, Action::OpenBookSearchFresh),
            HelpPiece::Words(": New Search"),
        ],
        FocusedPanel::Popup(PopupWindow::Help) => seq![
            HelpPiece::Keys(KeyContext::PopupHelp, Action::MoveDown, Action::MoveUp),
            HelpPiece::Words("/"),
            HelpPiece::Keys(KeyContext::PopupHelp, Action::ScrollHalfDown, Action::ScrollHalfUp),
            HelpPiece::Words(": Scroll | "),
            HelpPiece::Keys(KeyContext::PopupHelp, Action::GoTop, Action::GoBottom),
            HelpPiece::Words(": Top/Bottom | "),
            HelpPiece::Key(KeyContext::Navigation, Action::Cancel),
            HelpPiece::Words(": Close"),
        ],
        FocusedPanel::Popup(PopupWindow::CommentsViewer) => seq![
            HelpPiece::Keys(KeyContext::PopupComments, Action::MoveDown, Action::MoveUp),
            HelpPiece::Words("/"),
            HelpPiece::Keys(KeyContext::PopupComments, Action::ScrollHalfDown, Action::ScrollHalfUp),
            HelpPiece::Words(": Scroll | "),
            HelpPiece::Key(KeyContext::PopupComments, Action::StartSearch),
            HelpPiece::Words(": Search | "),
            HelpPiece::Key(KeyContext::PopupComments, Action::Select),
            HelpPiece::Words("/DblClick: Jump | "),
            HelpPiece::Key(KeyContext::Navigation, Action::Cancel),
            HelpPiece::Words(": Close"),
        ],
        FocusedPanel::Popup(PopupWindow::Settings) => seq![
            HelpPiece::Key(KeyContext::PopupSettings, Action::NextTab),
            HelpPiece::Words("/"),
            HelpPiece::Keys(KeyContext::PopupSettings, Action::MoveLeft, Action::MoveRight),
            HelpPiece::Words(": Tabs | "),
            HelpPiece::Keys(KeyContext::PopupSettings, Action::MoveDown, Action::MoveUp),
            HelpPiece::Words(": Navigate | "),
            HelpPiece::Key(KeyContext::PopupSettings, Action::Select),
            HelpPiece::Words(": Apply | "),
            HelpPiece::Key(KeyContext::Navigation, Action::Cancel),
            HelpPiece::Words(": Close"),
        ],
        FocusedPanel::Popup(PopupWindow::Lookup) => seq![
            HelpPiece::Keys(KeyContext::PopupHelp, Action::MoveDown, Action::MoveUp),
            HelpPiece::Words(": Scroll | "),
            HelpPiece::Keys(KeyContext::PopupHelp, Action::ScrollHalfDown, Action::ScrollHalfUp),
            HelpPiece::Words(": Half-page | "),
            HelpPiece::Keys(KeyContext::PopupHelp, Action::GoTop, Action::GoBottom),
            HelpPiece::Words(": Top/Bottom | "),
            HelpPiece::Key(KeyContext::Navigation, Action::Cancel),
            HelpPiece::Words(": Close"),
        ],
        FocusedPanel::Popup(PopupWindow::KeybindingErrors) => seq![
            HelpPiece::Key(KeyContext::Global, Action::ReloadKeybindings),
            HelpPiece::Words(": Reload | "),
            HelpPiece::Key(KeyContext::Navigation, Action::Cancel),
            HelpPiece::Words(": Close"),
        ],
        FocusedPanel::Popup(PopupWindow::MarksList) => seq![
            HelpPiece::Keys(KeyContext::PopupMarks, Action::MoveDown, Action::MoveUp),
            HelpPiece::Words(": Navigate | "),
            HelpPiece::Key(KeyContext::PopupMarks, Action::Select),
            HelpPiece::Words(": Jump | "),
            HelpPiece::Key(KeyContext::PopupMarks, Action::DeleteEntry),
            HelpPiece::Words(": Delete | "),
            HelpPiece::Key(KeyContext::Navigation, Action::Cancel),
            HelpPiece::Words("/'/`: Close"),
        ],
    }
}

/// What the help bar says of a selection.
pub open spec fn selection_pieces() -> Seq<HelpPiece> {
    seq![
        HelpPiece::Key(KeyContext::EpubContent, Action::AddComment),
        HelpPiece::Words(": Add comment | "),
        HelpPiece::Key(KeyContext::EpubContent, Action::CopySelection),
        HelpPiece::Words(": Copy to clipboard | "),
        HelpPiece::Key(KeyContext::Navigation, Action::Cancel),
        HelpPiece::Words(": Clear selection"),
    ]
}

fn pieces_of_panel(panel: FocusedPanel) -> (r: Vec<HelpPiece>)
    ensures
        r@ == panel_pieces(panel),
{
    let r = match panel {
        FocusedPanel::Main(MainPanel::NavigationList) => vec![
            HelpPiece::Key(KeyContext::Navigation, Action::MoveDown),
            HelpPiece::Words("/"),
            HelpPiece::Key(KeyContext::Navigation, Action::MoveUp),
            HelpPiece::Words(": Navigate | "),
            HelpPiece::Key(KeyContext::Navigation, Action::Select),
            HelpPiece::Words(": Select | "),
            HelpPiece::Key(KeyContext::Navigation, Action::Collapse),
            HelpPiece::Words("/"),
            HelpPiece::Key(KeyContext::Navigation, Action::Expand),
            HelpPiece::Words(": Fold/Unfold | "),
            HelpPiece::Key(KeyContext::Navigation, Action::CollapseAll),
            HelpPiece::Words("/"),
            HelpPiece::Key(KeyContext::Navigation, Action::ExpandAll),
            HelpPiece::Words(": Fold/Unfold All | "),
            HelpPiece::Key(KeyContext::Navigation, Action::SwitchFocus),
            HelpPiece::Words(": Switch | q: Quit"),
        ],
        FocusedPanel::Main(MainPanel::Content) => vec![
            HelpPiece::Keys(KeyContext::EpubContent, Action::ScrollDown, Action::ScrollUp),
            HelpPiece::Words(": Scroll | "),
            HelpPiece::Keys(KeyContext::EpubContent, Action::PrevChapter, Action::NextChapter),
            HelpPiece::Words(": Chapter | "),
            HelpPiece::Keys(KeyContext::EpubContent, Action::ScrollHalfDown, Action::ScrollHalfUp),
            HelpPiece::Words(": Half-screen | "),
            HelpPiece::Key(KeyContext::EpubContent, Action::SwitchFocus),
            HelpPiece::Words(": Switch | "),
            HelpPiece::Key(KeyContext::Global, Action::OpenExternalViewer),
            HelpPiece::Words(": Open | "),
            HelpPiece::Key(KeyContext::EpubContent, Action::Quit),
            HelpPiece::Words(": Quit"),
        ],
        FocusedPanel::Popup(PopupWindow::ReadingHistory) => vec![
            HelpPiece::Key(KeyContext::PopupHistory, Action::MoveDown),
            HelpPiece::Words("/"),
            HelpPiece::Key(KeyContext::PopupHistory, Action::MoveUp),
            HelpPiece::Words("/Scroll: Navigate | "),
            HelpPiece::Key(KeyContext::PopupHistory, Action::NextTab),
            HelpPiece::Words(": Switch Tab | "),
            HelpPiece::Key(KeyContext::PopupHistory, Action::Select),
            HelpPiece::Words("/DblClick: Open | "),
            HelpPiece::Key(KeyContext::Navigation, Action::Cancel),
            HelpPiece::Words(": Close"),
        ],
        FocusedPanel::Popup(PopupWindow::BookStats) => vec![
            HelpPiece::Keys(KeyContext::PopupStats, Action::MoveDown, Action::MoveUp),
            HelpPiece::Words("/"),
            HelpPiece::Keys(KeyContext::PopupStats, Action::ScrollHalfDown, Action::ScrollHalfUp),
            HelpPiece::Words("/Scroll: Scroll | "),
            HelpPiece::Key(KeyContext::PopupStats, Action::Select),
            HelpPiece::Words("/DblClick: Jump | "),
            HelpPiece::Key(KeyContext::Navigation, Action::Cancel),
            HelpPiece::Words(": Close"),
        ],
        FocusedPanel::Popup(PopupWindow::ImagePopup) => vec![
            HelpPiece::Key(KeyContext::Navigation, Action::Cancel),
            HelpPiece::Words("/Any key: Close"),
        ],
        FocusedPanel::Popup(PopupWindow::BookSearch) => vec![
            HelpPiece::Key(KeyContext::Global, Action::OpenBookSearch),
            HelpPiece::Words(": Reopen | "),
            HelpPiece::Key(KeyContext::Global, Action::OpenBookSearchFresh),
            HelpPiece::Words(": New Search"),
        ],
        FocusedPanel::Popup(PopupWindow::Help) => vec![
            HelpPiece::Keys(KeyContext::PopupHelp, Action::MoveDown, Action::MoveUp),
            HelpPiece::Words("/"),
            HelpPiece::Keys(KeyContext::PopupHelp, Action::ScrollHalfDown, Action::ScrollHalfUp),
            HelpPiece::Words(": Scroll | "),
            HelpPiece::Keys(KeyContext::PopupHelp, Action::GoTop, Action::GoBottom),
            HelpPiece::Words(": Top/Bottom | "),
            HelpPiece::Key(KeyContext::Navigation, Action::Cancel),
            HelpPiece::Words(": Close"),
        ],
        FocusedPanel::Popup(PopupWindow::CommentsViewer) => vec![
            HelpPiece::Keys(KeyContext::PopupComments, Action::MoveDown, Action::MoveUp),
            HelpPiece::Words("/"),
            HelpPiece::Keys(KeyContext::PopupComments, Action::ScrollHalfDown, Action::ScrollHalfUp),
            HelpPiece::Words(": Scroll | "),
            HelpPiece::Key(KeyContext::PopupComments, Action::StartSearch),
            HelpPiece::Words(": Search | "),
            HelpPiece::Key(KeyContext::PopupComments, Action::Select),
            HelpPiece::Words("/DblClick: Jump | "),
            HelpPiece::Key(KeyContext::Navigation, Action::Cancel),
            HelpPiece::Words(": Close"),
        ],
        FocusedPanel::Popup(PopupWindow::Settings) => vec![
            HelpPiece::Key(KeyContext::PopupSettings, Action::NextTab),
            HelpPiece::Words("/"),
            HelpPiece::Keys(KeyContext::PopupSettings, Action::MoveLeft, Action::MoveRight),
            HelpPiece::Words(": Tabs | "),
            HelpPiece::Keys(KeyContext::PopupSettings, Action::MoveDown, Action::MoveUp),
            HelpPiece::Words(": Navigate | "),
            HelpPiece::Key(KeyContext::PopupSettings, Action::Select),
            HelpPiece::Words(": Apply | "),
            HelpPiece::Key(KeyContext::Navigation, Action::Cancel),
            HelpPiece::Words(": Close"),
        ],
        FocusedPanel::Popup(PopupWindow::Lookup) => vec![
            HelpPiece::Keys(KeyContext::PopupHelp, Action::MoveDown, Action::MoveUp),
            HelpPiece::Words(": Scroll | "),
            HelpPiece::Keys(KeyContext::PopupHelp, Action::ScrollHalfDown, Action::ScrollHalfUp),
            HelpPiece::Words(": Half-page | "),
            HelpPiece::Keys(KeyContext::PopupHelp, Action::GoTop, Action::GoBottom),
            HelpPiece::Words(": Top/Bottom | "),
            HelpPiece::Key(KeyContext::Navigation, Action::Cancel),
            HelpPiece::Words(": Close"),
        ],
        FocusedPanel::Popup(PopupWindow::KeybindingErrors) => vec![
            HelpPiece::Key(KeyContext::Global, Action::ReloadKeybindings),
            HelpPiece::Words(": Reload | "),
            HelpPiece::Key(KeyContext::Navigation, Action::Cancel),
            HelpPiece::Words(": Close"),
        ],
        FocusedPanel::Popup(PopupWindow::MarksList) => vec![
            HelpPiece::Keys(KeyContext::PopupMarks, Action::MoveDown, Action::MoveUp),
            HelpPiece::Words(": Navigate | "),
            HelpPiece::Key(KeyContext::PopupMarks, Action::Select),
            HelpPiece::Words(": Jump | "),
            HelpPiece::Key(KeyContext::PopupMarks, Action::DeleteEntry),
            HelpPiece::Words(": Delete | "),
            HelpPiece::Key(KeyContext::Navigation, Action::Cancel),
            HelpPiece::Words("/'/`: Close"),
        ],
    };
    assert(r@ =~= panel_pieces(panel));
    r
}

fn pieces_of_selection() -> (r: Vec<HelpPiece>)
    ensures
        r@ == selection_pieces(),
{
    let r = vec![
        HelpPiece::Key(KeyContext::EpubContent, Action::AddComment),
        HelpPiece::Words(": Add comment | "),
        HelpPiece::Key(KeyContext::EpubContent, Action::CopySelection),
        HelpPiece::Words(": Copy to clipboard | "),
        HelpPiece::Key(KeyContext::Navigation, Action::Cancel),
        HelpPiece::Words(": Clear selection"),
    ];
    assert(r@ =~= selection_pieces());
    r
}

fn fill_in(pieces: &Vec<HelpPiece>, labels: &Vec<KeyLabel>) -> (r: String)
    ensures
        r@ == filled_in(pieces@, pieces@.len(), labels@),
{
    let mut s = String::new();
    let mut i: usize = 0;
    assert(s@ =~= filled_in(pieces@, 0, labels@));
    while i < pieces.len()
        invariant
            i <= pieces@.len(),
            s@ == filled_in(pieces@, i as nat, labels@),
        decreases pieces@.len() - i,
    {
        match &pieces[i] {
            HelpPiece::Words(words) => {
                s.append(words);
            },
            HelpPiece::Key(context, action) => {
                let key = key_for(labels, *context, *action);
                s.append(key.as_str());
            },
            HelpPiece::Keys(context, a1, a2) => {
                let keys = key_pair(labels, *context, *a1, *a2);
                s.append(keys.as_str());
            },
        }
        i += 1;
    }
    s
}

/// A message that is shown in the bar.
pub struct ShownNotice {
    pub level: NotificationLevel,
    pub message: String,
}

/// A search under way.
pub struct SearchShown {
    pub mode: SearchMode,
    pub query: String,
    pub matches: usize,
    /// Which of the matches is shown.
    pub match_info: String,
}

/// What the bar has to show.
pub struct HelpFacts {
    pub notice: Option<ShownNotice>,
    pub search: Option<SearchShown>,
    pub has_selection: bool,
    /// Frames per second, where they are measured.
    pub fps: Option<u16>,
}

/// The name of a level.
pub open spec fn level_name(level: NotificationLevel) -> Seq<char> {
    match level {
        NotificationLevel::Info => "INFO"@,
        NotificationLevel::Warning => "WARNING"@,
        NotificationLevel::Error => "ERROR"@,
    }
}

/// What is said of the matches while a query is typed.
pub open spec fn typed_matches(query: Seq<char>, matches: usize) -> Seq<char> {
    if matches == 0 && query.len() > 0 {
        "No matches"@
    } else if matches > 0 {
        decimal(matches as nat) + " matches"@
    } else {
        ""@
    }
}

/// The key that leaves what is open.
pub open spec fn escape_key(labels: Seq<KeyLabel>) -> Seq<char> {
    key_label(labels, KeyContext::Navigation, Action::Cancel)
}

/// What is said of a search.
pub open spec fn search_line(search: SearchShown, labels: Seq<KeyLabel>) -> Seq<char> {
    match search.mode {
        SearchMode::InputMode => "/ "@ + search.query@ + "█  "@ + typed_matches(
            search.query@,
            search.matches,
        ) + "  "@ + escape_key(labels) + ": Cancel | Enter: Search"@,
        SearchMode::NavigationMode => "/"@ + search.query@ + "  "@ + search.match_info@ + "  "@
            + key_label(labels, KeyContext::PopupHelp, Action::NextSearchMatch) + "/"@ + key_label(
            labels,
            KeyContext::PopupHelp,
            Action::PrevSearchMatch,
        ) + ": Navigate | "@ + escape_key(labels) + ": Exit"@,
        SearchMode::Inactive => "Search mode active"@,
    }
}

/// What the left side of the bar says: a message first, then a search, then a selection, then the
/// keys of what has the focus.
pub open spec fn help_line(panel: FocusedPanel, facts: HelpFacts, labels: Seq<KeyLabel>) -> Seq<
    char,
> {
    match facts.notice {
        Some(n) => "["@ + level_name(n.level) + "] "@ + n.message@ + " | "@ + escape_key(labels)
            + ": Dismiss"@,
        None => match facts.search {
            Some(search) => search_line(search, labels),
            None => if facts.has_selection {
                filled_in(selection_pieces(), selection_pieces().len(), labels)
            } else {
                filled_in(panel_pieces(panel), panel_pieces(panel).len(), labels)
            },
        },
    }
}

/// The left side of the bar, with the frames per second where they are measured.
pub open spec fn left_side(panel: FocusedPanel, facts: HelpFacts, labels: Seq<KeyLabel>) -> Seq<
    char,
> {
    let line = help_line(panel, facts, labels);
    match facts.fps {
        Some(fps) => line + " | FPS: "@ + decimal(fps as nat),
        None => line,
    }
}

fn notice_line(n: &ShownNotice, labels: &Vec<KeyLabel>) -> (r: String)
    ensures
        r@ == "["@ + level_name(n.level) + "] "@ + n.message@ + " | "@ + escape_key(labels@)
            + ": Dismiss"@,
{
    let esc = key_for(labels, KeyContext::Navigation, Action::Cancel);
    let mut s = text::copy("[");
    match n.level {
        NotificationLevel::Info => {
            s.append("INFO");
        },
        NotificationLevel::Warning => {
            s.append("WARNING");
        },
        NotificationLevel::Error => {
            s.append("ERROR");
        },
    }
    s.append("] ");
    s.append(n.message.as_str());
    s.append(" | ");
    s.append(esc.as_str());
    s.append(": Dismiss");
    s
}

fn matches_text(query: &str, matches: usize) -> (r: String)
    ensures
        r@ == typed_matches(query@, matches),
{
    let cs = text::chars_of(query);
    if matches == 0 && cs.len() > 0 {
        text::copy("No matches")
    } else if matches > 0 {
        let mut s = text::decimal_of(matches as u64);
        s.append(" matches");
        s
    } else {
        text::copy("")
    }
}

fn search_text(search: &SearchShown, labels: &Vec<KeyLabel>) -> (r: String)
    ensures
        r@ == search_line(*search, labels@),
{
    let esc = key_for(labels, KeyContext::Navigation, Action::Cancel);
    match search.mode {
        SearchMode::InputMode => {
            let info = matches_text(search.query.as_str(), search.matches);
            let mut s = text::copy("/ ");
            s.append(search.query.as_str());
            s.append("█  ");
            s.append(info.as_str());
            s.append("  ");
            s.append(esc.as_str());
            s.append(": Cancel | Enter: Search");
            s
        },
        SearchMode::NavigationMode => {
            let next = key_for(labels, KeyContext::PopupHelp, Action::NextSearchMatch);
            let previous = key_for(labels, KeyContext::PopupHelp, Action::PrevSearchMatch);
            let mut s = text::copy("/");
            s.append(search.query.as_str());
            s.append("  ");
            s.append(search.match_info.as_str());
            s.append("  ");
            s.append(next.as_str());
            s.append("/");
            s.append(previous.as_str());
            s.append(": Navigate | ");
            s.append(esc.as_str());
            s.append(": Exit");
            s
        },
        SearchMode::Inactive => text::copy("Search mode active"),
    }
}

fn help_text(panel: FocusedPanel, facts: &HelpFacts, labels: &Vec<KeyLabel>) -> (r: String)
    ensures
        r@ == help_line(panel, *facts, labels@),
{
    if let Some(n) = &facts.notice {
        return notice_line(n, labels);
    }
    if let Some(search) = &facts.search {
        return search_text(search, labels);
    }
    if facts.has_selection {
        let pieces = pieces_of_selection();
        return fill_in(&pieces, labels);
    }
    let pieces = pieces_of_panel(panel);
    fill_in(&pieces, labels)
}

// ---------------------------------------------------------------------------------------------
// Buttons
// ---------------------------------------------------------------------------------------------
/// The actions of the buttons, from left to right.
pub open spec fn button_action(i: int) -> Action {
    if i == 0 {
        Action::ToggleCommentsViewer
    } else if i == 1 {
        Action::ToggleReadingHistory
    } else if i == 2 {
        Action::ToggleBookStats
    } else if i == 3 {
        Action::OpenThemeSelector
    } else {
        Action::ToggleHelp
    }
}

/// The names of the buttons.
pub open spec fn button_name(i: int) -> Seq<char> {
    if i == 0 {
        ": Comments"@
    } else if i == 1 {
        ": History"@
    } else if i == 2 {
        ": Stats"@
    } else if i == 3 {
        ": Theme"@
    } else {
        ": Help"@
    }
}

/// The label of a button: the key of its action and its name.
pub open spec fn button_label(labels: Seq<KeyLabel>, i: int) -> Seq<char> {
    key_label(labels, KeyContext::Global, button_action(i)) + button_name(i)
}

/// A button: its label and its action.
pub struct HelpButton {
    pub label: String,
    pub action: Action,
}

/// The labels and actions of buttons.
pub open spec fn button_views(v: Seq<HelpButton>) -> Seq<(Seq<char>, Action)> {
    v.map_values(|b: HelpButton| (b.label@, b.action))
}

/// The buttons of the bar.
pub open spec fn all_buttons(labels: Seq<KeyLabel>) -> Seq<(Seq<char>, Action)> {
    Seq::new(5, |i: int| (button_label(labels, i), button_action(i)))
}

fn button(labels: &Vec<KeyLabel>, action: Action, name: &str) -> (r: HelpButton)
    ensures
        r.label@ == key_label(labels@, KeyContext::Global, action) + name@,
        r.action == action,
{
    let mut label = key_for(labels, KeyContext::Global, action);
    label.append(name);
    HelpButton { label, action }
}

/// The buttons of the bar, from left to right.
pub fn help_bar_buttons(labels: &Vec<KeyLabel>) -> (r: Vec<HelpButton>)
    ensures
        button_views(r@) == all_buttons(labels@),
{
    let mut r: Vec<HelpButton> = Vec::new();
    r.push(button(labels, Action::ToggleCommentsViewer, ": Comments"));
    r.push(button(labels, Action::ToggleReadingHistory, ": History"));
    r.push(button(labels, Action::ToggleBookStats, ": Stats"));
    r.push(button(labels, Action::OpenThemeSelector, ": Theme"));
    r.push(button(labels, Action::ToggleHelp, ": Help"));
    assert(button_views(r@) =~= all_buttons(labels@));
    r
}

/// How wide the label of a button is taken to be: as many cells as it has bytes in UTF-8.
pub open spec fn width_of(b: (Seq<char>, Action)) -> nat {
    encode_utf8(b.0).len() as usize as nat
}

/// How many cells the first `n` buttons take, each in brackets with a space behind it.
pub open spec fn span_of(buttons: Seq<(Seq<char>, Action)>, n: nat) -> nat
    decreases n,
{
    if n == 0 || n > buttons.len() {
        0
    } else {
        span_of(buttons, (n - 1) as nat) + width_of(buttons[n - 1]) + 3
    }
}

/// How many cells all buttons take; no space stands behind the last.
pub open spec fn total_span(buttons: Seq<(Seq<char>, Action)>) -> int {
    if buttons.len() == 0 {
        0
    } else {
        span_of(buttons, buttons.len()) - 1
    }
}

/// Where the buttons start within a bar of the given inner width: they stand at its right.
pub open spec fn buttons_start(buttons: Seq<(Seq<char>, Action)>, width: int) -> int {
    if width > total_span(buttons) {
        width - total_span(buttons)
    } else {
        0
    }
}

/// Whether a cell of the bar is on the label of the `i`-th button.
pub open spec fn on_button(buttons: Seq<(Seq<char>, Action)>, i: int, width: int, cell: int) -> bool {
    let from = buttons_start(buttons, width) + span_of(buttons, i as nat) + 1;
    from <= cell < from + width_of(buttons[i])
}

/// The first button from `i` on whose label a cell is on.
pub open spec fn button_from(
    buttons: Seq<(Seq<char>, Action)>,
    i: int,
    width: int,
    cell: int,
) -> Option<Action>
    decreases buttons.len() - i,
{
    if i < 0 || i >= buttons.len() {
        None
    } else if on_button(buttons, i, width, cell) {
        Some(buttons[i].1)
    } else {
        button_from(buttons, i + 1, width, cell)
    }
}

/// The button under a place of the screen: only the first line within the bar has any.
pub open spec fn button_under(
    area: Rect,
    buttons: Seq<(Seq<char>, Action)>,
    x: u16,
    y: u16,
) -> Option<Action> {
    if area.y <= y && y < area.y + area.height && area.x <= x && x < area.x + area.width && y
        <= area.y + 1 {
        let cell = if x > area.x {
            x - area.x - 1
        } else {
            0
        };
        let width = if area.width >= 2 {
            area.width - 2
        } else {
            0
        };
        button_from(buttons, 0, width, cell)
    } else {
        None
    }
}

/// The button of the given ones that is under a place of the screen.
pub fn button_at(area: Rect, buttons: &Vec<HelpButton>, click_x: u16, click_y: u16) -> (r: Option<
    Action,
>)
    ensures
        r == button_under(area, button_views(buttons@), click_x, click_y),
{
    let ghost bs = button_views(buttons@);
    let (ax, ay): (u32, u32) = (area.x as u32, area.y as u32);
    let (x, y): (u32, u32) = (click_x as u32, click_y as u32);
    if !(ay <= y && y < ay + area.height as u32 && ax <= x && x < ax + area.width as u32 && y <= ay
        + 1) {
        return None;
    }
    let cell: u128 = if x > ax {
        (x - ax - 1) as u128
    } else {
        0
    };
    let width: u128 = if area.width >= 2 {
        (area.width - 2) as u128
    } else {
        0
    };
    let n: usize = buttons.len();
    let mut span: u128 = 0;
    let mut i: usize = 0;
    while i < n && span <= 0x2_0000
        invariant
            i <= n,
            n == buttons@.len(),
            bs == button_views(buttons@),
            bs.len() == n,
            span == span_of(bs, i as nat),
            i > 0 ==> span >= 3,
            span <= 0x1_0000_0000_0003_0000,
        decreases n - i,
    {
        assert(bs[i as int] == (buttons@[i as int].label@, buttons@[i as int].action));
        let w: usize = buttons[i].label.as_str().len();
        span = span + w as u128 + 3;
        i += 1;
    }
    proof {
        if i < n {
            lemma_span_grows(bs, i as nat, n as nat);
        }
    }
    let total: u128 = if n == 0 {
        0
    } else {
        span - 1
    };
    let start: u128 = if width > total {
        width - total
    } else {
        0
    };
    let mut offset: u128 = start;
    let mut j: usize = 0;
    while j < n && offset <= 0x2_0000
        invariant
            j <= n,
            n == buttons@.len(),
            bs == button_views(buttons@),
            bs.len() == n,
            cell <= 0x1_0000,
            start == buttons_start(bs, width as int),
            offset == start + span_of(bs, j as nat),
            offset <= 0x1_0000_0000_0003_0000,
            button_under(area, bs, click_x, click_y) == button_from(
                bs,
                0,
                width as int,
                cell as int,
            ),
            button_from(bs, 0, width as int, cell as int) == button_from(
                bs,
                j as int,
                width as int,
                cell as int,
            ),
        decreases n - j,
    {
        assert(bs[j as int] == (buttons@[j as int].label@, buttons@[j as int].action));
        let w: usize = buttons[j].label.as_str().len();
        let from = offset + 1;
        if cell >= from && cell < from + w as u128 {
            return Some(buttons[j].action);
        }
        offset = offset + w as u128 + 3;
        j += 1;
    }
    proof {
        if offset > 0x2_0000 {
            lemma_no_button_behind(bs, j as int, width as int, cell as int);
        }
    }
    None
}

proof fn lemma_no_button_behind(buttons: Seq<(Seq<char>, Action)>, i: int, width: int, cell: int)
    requires
        0 <= i <= buttons.len(),
        buttons_start(buttons, width) + span_of(buttons, i as nat) >= cell,
    ensures
        button_from(buttons, i, width, cell) is None,
    decreases buttons.len() - i,
{
    if i < buttons.len() {
        lemma_span_grows(buttons, i as nat, (i + 1) as nat);
        lemma_no_button_behind(buttons, i + 1, width, cell);
    }
}

/// A piece of the right side of the bar, and whether it is underlined.
pub struct BarSpan {
    pub text: String,
    pub underlined: bool,
}

/// The pieces that a vector of them holds.
pub open spec fn span_views(v: Seq<BarSpan>) -> Seq<(Seq<char>, bool)> {
    v.map_values(|s: BarSpan| (s.text@, s.underlined))
}

/// The first `n` buttons as they are drawn: underlined, in brackets, with spaces between them.
pub open spec fn drawn_buttons(buttons: Seq<(Seq<char>, Action)>, n: nat) -> Seq<(Seq<char>, bool)>
    decreases n,
{
    if n == 0 || n > buttons.len() {
        Seq::empty()
    } else {
        drawn_buttons(buttons, (n - 1) as nat) + seq![
            ("["@, false),
            (buttons[n - 1].0, true),
            (
                if n < buttons.len() {
                    "] "@
                } else {
                    "]"@
                },
                false,
            ),
        ]
    }
}

fn draw_buttons(buttons: &Vec<HelpButton>) -> (r: Vec<BarSpan>)
    ensures
        span_views(r@) == drawn_buttons(button_views(buttons@), buttons@.len()),
{
    let ghost bs = button_views(buttons@);
    let mut r: Vec<BarSpan> = Vec::new();
    let n: usize = buttons.len();
    let mut i: usize = 0;
    assert(span_views(r@) =~= drawn_buttons(bs, 0));
    while i < n
        invariant
            i <= n,
            n == buttons@.len(),
            bs == button_views(buttons@),
            bs.len() == n,
            span_views(r@) == drawn_buttons(bs, i as nat),
        decreases n - i,
    {
        assert(bs[i as int] == (buttons@[i as int].label@, buttons@[i as int].action));
        let ghost before = r@;
        let open = BarSpan { text: text::copy("["), underlined: false };
        let label = BarSpan { text: text::copy(buttons[i].label.as_str()), underlined: true };
        let close = BarSpan {
            text: if i < n - 1 {
                text::copy("] ")
            } else {
                text::copy("]")
            },
            underlined: false,
        };
        r.push(open);
        r.push(label);
        r.push(close);
        assert(span_views(r@) =~= span_views(before) + seq![
            (open.text@, false),
            (label.text@, true),
            (close.text@, false),
        ]);
        i += 1;
    }
    r
}

/// The bar as it is drawn.
pub struct HelpBar {
    pub left: String,
    pub right: Vec<BarSpan>,
}

impl App {
    /// The bar as it is drawn.
    pub fn render_help_bar(&self, facts: &HelpFacts, labels: &Vec<KeyLabel>) -> (r: HelpBar)
        ensures
            r.left@ == left_side(self.focused_panel, *facts, labels@),
            span_views(r.right@) == drawn_buttons(all_buttons(labels@), 5),
    {
        let mut left = help_text(self.focused_panel, facts, labels);
        if let Some(fps) = facts.fps {
            let n = text::decimal_of(fps as u64);
            left.append(" | FPS: ");
            left.append(n.as_str());
        }
        let buttons = help_bar_buttons(labels);
        assert(button_views(buttons@).len() == buttons@.len());
        let right = draw_buttons(&buttons);
        HelpBar { left, right }
    }

    /// The action of the button under a place of the screen.
    pub fn handle_help_bar_click(&self, labels: &Vec<KeyLabel>, click_x: u16, click_y: u16) -> (r:
        Option<Action>)
        ensures
            r == button_under(self.help_bar_area, all_buttons(labels@), click_x, click_y),
    {
        let buttons = help_bar_buttons(labels);
        assert(button_views(buttons@).len() == buttons@.len());
        button_at(self.help_bar_area, &buttons, click_x, click_y)
    }
}

// ---------------------------------------------------------------------------------------------
// Laws
// ---------------------------------------------------------------------------------------------
proof fn lemma_span_grows(buttons: Seq<(Seq<char>, Action)>, i: nat, j: nat)
    requires
        i < j <= buttons.len(),
    ensures
        span_of(buttons, i) + width_of(buttons[i as int]) + 3 <= span_of(buttons, j),
    decreases j,
{
    if i + 1 < j {
        lemma_span_grows(buttons, i, (j - 1) as nat);
    }
}

proof fn lemma_skips_to(
    buttons: Seq<(Seq<char>, Action)>,
    i: int,
    k: int,
    width: int,
    cell: int,
)
    requires
        0 <= i <= k < buttons.len(),
        on_button(buttons, k, width, cell),
    ensures
        button_from(buttons, i, width, cell) == Some(buttons[k].1),
    decreases k - i,
{
    if i < k {
        lemma_span_grows(buttons, i as nat, k as nat);
        lemma_skips_to(buttons, i + 1, k, width, cell);
    }
}

/// A click on the label of a button, where the buttons are drawn at the right of the bar, does what
/// that button is for.
pub proof fn law_click_hits_the_button_it_is_on(
    area: Rect,
    buttons: Seq<(Seq<char>, Action)>,
    k: int,
    cell: int,
    x: u16,
    y: u16,
)
    requires
        0 <= k < buttons.len(),
        area.width >= 2,
        area.height >= 2,
        y == area.y + 1,
        x == area.x + 1 + cell,
        0 <= cell < area.width - 2,
        on_button(buttons, k, area.width - 2, cell),
    ensures
        button_under(area, buttons, x, y) == Some(buttons[k].1),
{
    lemma_skips_to(buttons, 0, k, area.width - 2, cell);
}

/// A click outside the bar hits no button.
pub proof fn law_click_elsewhere_hits_nothing(
    area: Rect,
    buttons: Seq<(Seq<char>, Action)>,
    x: u16,
    y: u16,
)
    requires
        y < area.y || y >= area.y + area.height || x < area.x || x >= area.x + area.width,
    ensures
        button_under(area, buttons, x, y) is None,
{
}

/// A message is shown before anything else, until it is dismissed.
pub proof fn law_message_comes_first(panel: FocusedPanel, facts: HelpFacts, labels: Seq<KeyLabel>)
    requires
        facts.notice is Some,
    ensures
        help_line(panel, facts, labels) == help_line(
            FocusedPanel::Main(MainPanel::Content),
            HelpFacts { search: None, has_selection: false, ..facts },
            labels,
        ),
{
}

} // verus!
