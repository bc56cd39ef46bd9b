//! The state of the reader application, what it knows of its surroundings, and what it asks to be done.
use vstd::prelude::*;

use crate::inputs::event::KeyEvent;

verus! {

/// Which way to turn the pages of chapters.
#[derive(Debug, Clone, Copy, PartialEq, Eq, Structural)]
pub enum ChapterDirection {
    Next,
    Previous,
}

/// Where to open a book.
#[derive(Debug, Clone, Copy, PartialEq, Eq, Structural)]
pub enum OpenPosition {
    Chapter(usize),
    Page(usize),
}

/// What the application asks of the program around it.
#[derive(Debug, Clone, Copy, PartialEq, Eq, Structural)]
pub enum AppAction {
    Quit,
}

/// The motions that a panel with vim navigation answers.
pub trait VimNavMotions {
    fn handle_h(&mut self);

    fn handle_j(&mut self);

    fn handle_k(&mut self);

    fn handle_l(&mut self);

    fn handle_ctrl_d(&mut self);

    fn handle_ctrl_u(&mut self);

    fn handle_ctrl_f(&mut self);

    fn handle_ctrl_b(&mut self);

    fn handle_gg(&mut self);

    fn handle_upper_g(&mut self);
}

/// What has the focus.
#[derive(Debug, Clone, Copy, PartialEq, Eq, Structural)]
pub enum FocusedPanel {
    Main(MainPanel),
    Popup(PopupWindow),
}

/// The two panels of the main view.
#[derive(Debug, Clone, Copy, PartialEq, Eq, Structural)]
pub enum MainPanel {
    NavigationList,
    Content,
}

/// The windows that open over the main view.
#[derive(Debug, Clone, Copy, PartialEq, Eq, Structural)]
pub enum PopupWindow {
    ReadingHistory,
    BookStats,
    MarksList,
    ImagePopup,
    BookSearch,
    Help,
    CommentsViewer,
    Settings,
    Lookup,
    KeybindingErrors,
}

/// A rectangle of terminal cells.
#[derive(Debug, Clone, Copy, PartialEq, Eq, Structural)]
pub struct Rect {
    pub x: u16,
    pub y: u16,
    pub width: u16,
    pub height: u16,
}

/// A colour of the highlight palette, by its place there.
#[derive(Debug, Clone, Copy, PartialEq, Eq, Structural)]
pub struct HighlightColor {
    pub index: u8,
}

/// A highlight that the palette acts on: the number under which it is known, and its colour.
#[derive(Debug, Clone, Copy, PartialEq, Eq, Structural)]
pub struct HighlightTarget {
    pub highlight: u64,
    pub color: HighlightColor,
}

/// What the next letter does with a mark.
#[derive(Debug, Clone, Copy, PartialEq, Eq, Structural)]
pub enum PendingMarkOp {
    Assign,
    Goto,
}

/// The stages of a search.
#[derive(Debug, Clone, Copy, PartialEq, Eq, Structural)]
pub enum SearchMode {
    Inactive,
    InputMode,
    NavigationMode,
}

/// How a visual selection extends.
#[derive(Debug, Clone, Copy, PartialEq, Eq, Structural)]
pub enum VisualMode {
    CharacterWise,
    LineWise,
}

/// Which character search a motion makes.
#[derive(Debug, Clone, Copy, PartialEq, Eq, Structural)]
pub enum PendingCharMotion {
    FindForward,
    FindBackward,
    TillForward,
    TillBackward,
}

/// What a yank that has begun waits for.
#[derive(Debug, Clone, Copy, PartialEq, Eq, Structural)]
pub enum PendingYank {
    Idle,
    WaitingForMotion,
    WaitingForG,
    WaitingForInnerObject,
    WaitingForAroundObject,
    WaitingForFindChar(PendingCharMotion),
}

/// What a key means to the highlight palette.
#[derive(Debug, Clone, Copy, PartialEq, Eq, Structural)]
pub enum PaletteKey {
    ShowHelp,
    Cancel,
    Apply(HighlightColor),
    Remove,
    UnknownKey,
}

/// The actions that keys are bound to.
#[derive(Debug, Clone, Copy, PartialEq, Eq, Structural)]
pub enum Action {
    AddComment,
    Cancel,
    Collapse,
    CollapseAll,
    CopyChapterText,
    CopySelection,
    CopyTocItem,
    DecreaseMargin,
    DeleteComment,
    DeleteEntry,
    EnterVisualLineMode,
    EnterVisualMode,
    Expand,
    ExpandAll,
    ExpandNavPanel,
    FindBackward,
    FindForward,
    FirstNonBlank,
    FollowLink,
    ForceRedraw,
    GoBottom,
    GoToPage,
    GoTop,
    GotoMark,
    IncreaseMargin,
    JumpBackward,
    JumpForward,
    LineEnd,
    LineStart,
    LookupSelection,
    MoveDown,
    MoveLeft,
    MoveRight,
    MoveUp,
    NextChapter,
    NextSearchMatch,
    NextTab,
    OpenBookSearch,
    OpenBookSearchFresh,
    OpenExternalViewer,
    OpenHighlightPalette,
    OpenSettings,
    OpenThemeSelector,
    ParagraphBackward,
    ParagraphForward,
    PrevChapter,
    PrevSearchMatch,
    Quit,
    ReloadKeybindings,
    RepeatFind,
    RepeatFindReverse,
    ResetNavPanelWidth,
    ScrollDown,
    ScrollHalfDown,
    ScrollHalfUp,
    ScrollPageDown,
    ScrollPageUp,
    ScrollUp,
    Select,
    SetMark,
    ShrinkNavPanel,
    StartSearch,
    StartYank,
    Suspend,
    SwitchFocus,
    TillBackward,
    TillForward,
    ToggleBookStats,
    ToggleCommentsViewer,
    ToggleHelp,
    ToggleJustifyText,
    ToggleMarksList,
    ToggleNormalMode,
    TogglePdfPageLayout,
    TogglePdfRenderMode,
    TogglePdfWatching,
    ToggleProfiling,
    ToggleRawHtml,
    ToggleReadingHistory,
    ToggleZenMode,
    WordBackward,
    WordEnd,
    WordForward,
    /// An action that only another context answers.
    Other,
}

/// The contexts in which keys are looked up.
#[derive(Debug, Clone, Copy, PartialEq, Eq, Structural)]
pub enum KeyContext {
    Global,
    Navigation,
    EpubContent,
    EpubNormal,
    PopupHelp,
    PopupHistory,
    PopupStats,
    PopupComments,
    PopupSettings,
    PopupMarks,
}

/// What a sequence of keys is bound to.
#[derive(Debug, Clone, Copy, PartialEq, Eq, Structural)]
pub enum Lookup {
    Found(Action),
    Prefix,
    NoMatch,
}

/// What the keymap says of the present key in one context: behind the keys typed before it, and alone.
#[derive(Debug, Clone, Copy, PartialEq, Eq, Structural)]
pub struct KeyLookup {
    pub sequence: Lookup,
    pub single: Lookup,
}

/// What is known of the panels, the readers and the settings when an event is handled.
#[derive(Debug, Clone, Copy, PartialEq, Eq, Structural)]
pub struct Facts {
    /// Whether no keys wait that only begin a binding.
    pub key_sequence_empty: bool,
    /// Whether those keys begin a global binding.
    pub sequence_is_global_prefix: bool,
    pub global: KeyLookup,
    pub normal: KeyLookup,
    pub content: KeyLookup,
    /// What the key means to the highlight palette.
    pub palette_key: PaletteKey,
    /// Whether an EPUB is open.
    pub book_open: bool,
    /// Whether a PDF is open.
    pub pdf_open: bool,
    /// Whether the navigation panel shows the table of contents.
    pub shows_toc: bool,
    pub has_notification: bool,
    /// The search of the navigation panel, where there is one.
    pub navigation_search: Option<SearchMode>,
    /// The search of the text, where there is one.
    pub text_search: Option<SearchMode>,
    pub comment_input_active: bool,
    pub has_text_selection: bool,
    pub normal_mode: bool,
    pub visual_mode: Option<VisualMode>,
    /// Whether a find motion waits for its character.
    pub pending_motion: bool,
    pub pending_yank: PendingYank,
    /// Whether digits of a count were typed.
    pub pending_count: bool,
    /// How often the next motion is made.
    pub count: usize,
    /// The highlight at the cursor or under the selection.
    pub highlight_here: Option<HighlightTarget>,
    /// The lines that the text reader shows.
    pub visible_height: usize,
    /// Whether scrolling is inverted.
    pub invert_scroll: bool,
    /// Whether the text is justified.
    pub justify_text: bool,
    /// Whether the open PDF keeps comments.
    pub pdf_has_comments: bool,
    /// Whether the selected text holds more than white space.
    pub selection_has_text: bool,
    /// Whether the terminal shows PDF pages by the Kitty protocol.
    pub pdf_kitty: bool,
    /// Whether PDF support is enabled in the settings.
    pub pdf_enabled: bool,
    /// Whether the books are listed by name (else by type).
    pub sorted_by_name: bool,
}

/// What a window asks for after a key.
#[derive(Debug, Clone, Copy, PartialEq, Eq, Structural)]
pub enum WindowReply {
    Nothing,
    Close,
    /// The search found a node of a chapter.
    SearchHit { chapter: usize, node: usize },
    /// The search found a line of a PDF page.
    PdfSearchHit { page: usize, line: usize },
    /// A chapter was picked from the statistics.
    ListedChapter(usize),
    JumpToMark,
    DeleteMark,
    /// A book of this library was picked from the history; whether it is still listed.
    OpenBook { listed: bool },
    /// A book of some library was picked from the history.
    OpenBookAbsolute,
    /// A bookmark is to be removed; whether its book is the open one.
    DeleteBookmark { open_now: bool },
    /// A comment was picked: the page of a PDF comment, the node of an EPUB one.
    JumpToComment { pdf_page: Option<usize>, text_node: Option<usize> },
    /// The comments of the selected entry are to be deleted, where one is selected.
    DeleteComment { selected: bool },
    ExportComments,
    Settings(SettingsAction),
}

/// What the settings window asks for.
#[derive(Debug, Clone, Copy, PartialEq, Eq, Structural)]
pub enum SettingsAction {
    Close,
    PageLayoutChanged,
    SettingsChanged,
    TestLookupCommand,
    TestSynctexEditor,
}

/// Where an entry of the table of contents leads.
#[derive(Debug, Clone, Copy, PartialEq, Eq, Structural)]
pub enum TocDestination {
    /// A PDF page, where the entry names one that exists.
    PdfPage(Option<usize>),
    /// A link that leaves the book.
    External,
    /// A chapter of the spine, where the entry names one.
    Chapter(Option<usize>),
}

/// What the navigation panel asks for.
#[derive(Debug, Clone, Copy, PartialEq, Eq, Structural)]
pub enum NavigationPanelAction {
    Bypass,
    SelectBook,
    SwitchToBookList,
    NavigateToChapter(TocDestination),
    ToggleSection,
    TocExpansionChanged,
    ToggleSortOrder,
}

/// How a work ended.
#[derive(Debug, Clone, Copy, PartialEq, Eq, Structural)]
pub enum Outcome {
    Done,
    Failed,
    /// What the work needs is not there.
    Missing,
    /// Whether something was removed.
    Removed(bool),
    /// The number of errors that the keymap has.
    Keymap(usize),
    /// The comments of an entry, and whether deleting one of them failed.
    Deleted { comments: usize, failed: bool },
    /// The bookmarks of the other library could not be read.
    SourceFailed,
    /// A mark of this book was set (or refused), or a mark of all books was set.
    LocalMark(bool),
    GlobalMark,
    /// No mark of this book, or of all books, has the letter.
    NoLocalMark,
    NoGlobalMark,
    /// Whether the text scrolled.
    Moved(bool),
}

/// The panel that a search runs in.
#[derive(Debug, Clone, Copy, PartialEq, Eq, Structural)]
pub enum SearchIn {
    Navigation,
    Text,
}

/// A motion of the cursor in normal mode.
#[derive(Debug, Clone, Copy, PartialEq, Eq, Structural)]
pub enum Motion {
    Left,
    Down,
    Up,
    Right,
    WordForward,
    WordBackward,
    WordEnd,
    LineStart,
    FirstNonBlank,
    LineEnd,
    ParagraphUp,
    ParagraphDown,
    DocumentTop,
    DocumentBottom,
    RepeatFind,
    RepeatFindReverse,
}

/// A motion by the height of the view.
#[derive(Debug, Clone, Copy, PartialEq, Eq, Structural)]
pub enum PageMotion {
    HalfDown,
    HalfUp,
    FullDown,
    FullUp,
}

/// A text that a yank takes.
#[derive(Debug, Clone, Copy, PartialEq, Eq, Structural)]
pub enum YankObject {
    Line,
    WordForward,
    BigWordForward,
    WordEnd,
    WordBackward,
    ToLineEnd,
    ToLineStart,
    ToFirstNonBlank,
    ParagraphUp,
    ParagraphDown,
    ToDocumentBottom,
    ToDocumentTop,
    InnerWord,
    InnerBigWord,
    InnerParagraph,
    InnerQuotes(char),
    InnerBrackets(char, char),
    AroundWord,
    AroundBigWord,
    AroundParagraph,
    AroundQuotes(char),
    AroundBrackets(char, char),
    FindChar(PendingCharMotion, char),
    Selection,
}

/// A way to scroll the text.
#[derive(Debug, Clone, Copy, PartialEq, Eq, Structural)]
pub enum Scroll {
    Down,
    Up,
    HalfScreenDown(usize),
    HalfScreenUp(usize),
    FullScreenDown(usize),
    FullScreenUp(usize),
}

/// A tab of the settings window.
#[derive(Debug, Clone, Copy, PartialEq, Eq, Structural)]
pub enum SettingsTab {
    General,
    Themes,
}

/// A message shown to the user.
#[derive(Debug, Clone, Copy, PartialEq, Eq, Structural)]
pub enum Notice {
    AnnotationRemoved,
    AnnotationDeleted,
    AnnotationsDeleted,
    DeleteAnnotationFailed,
    DeleteCommentFailed,
    NavigateToChapterFailed,
    NavigateToCommentFailed,
    StatisticsFailed,
    OpenBookFailed,
    OpenPathFailed,
    SourceBookmarksFailed,
    AutoLoadFailed,
    LoadEpubFailed,
    JumpToMarkFailed,
    JumpBackFailed,
    JumpForwardFailed,
    BookGone,
    ChapterNotFound,
    CannotDeleteOpenBook,
    KeybindingsReloaded,
    ExportedComments,
    ExportFailed,
    ExtractingPage,
    TocFirst,
    JustifyOn,
    JustifyOff,
    WatchingPdfOnly,
    ColumnLayout,
    PageLayout,
    RenderMode,
    ScrollModeUnsupported,
    NoTextSelected,
    Theme,
    SortedByName,
    SortedByType,
    SetLocalMark(char),
    LocalMarkRefused(char),
    SetGlobalMark(char),
    NoBookForMark,
    NoBookOpen,
    NoLocalMark(char),
    NoGlobalMark(char),
    OpenedExternally,
    OpenExternallyFailed,
    NoPdfLoaded,
    NoEpubLoaded,
    PdfBlocked,
    NoLookupCommand,
    NoLookupText,
    LookupLaunched,
    LookupNotLaunched,
    NoTocItem,
    NoTocPages,
}

/// How a message is shown.
#[derive(Debug, Clone, Copy, PartialEq, Eq, Structural)]
pub enum NotificationLevel {
    Info,
    Warning,
    Error,
}

/// A message of the reader's own display.
#[derive(Debug, Clone, Copy, PartialEq, Eq, Structural)]
pub enum Hud {
    Palette,
    PaletteEdit,
    NoHighlightToRemove,
    UnknownColor,
    SelectTextFirst,
}

/// A work whose result decides what follows.
#[derive(Debug, Clone, Copy, PartialEq, Eq, Structural)]
pub enum Task {
    /// Reload the keymap; the result is whether it has errors.
    ReloadKeybindings,
    /// Compute the statistics of the open book.
    CalculateStats,
    /// Index the pages of the open PDF for search.
    IndexPdf { clear_input: bool },
    /// Delete the annotation at the cursor.
    DeleteCommentAtCursor,
    /// Delete the comments of the entry selected in the comments window.
    DeleteSelectedComment,
    /// Write the comments to the file named.
    ExportComments,
    /// Go to a chapter that the search found.
    GoToSearchHit { chapter: usize, node: usize },
    /// Go to a chapter that the statistics list.
    GoToListedChapter { chapter: usize },
    /// Go to the chapter of a comment.
    GoToComment,
    /// Open the book selected in the navigation panel.
    OpenSelectedBook,
    /// Open the selected book of the history by its place in the library.
    OpenHistoryBook,
    /// Open the selected book of the history with the bookmarks of its own library.
    OpenHistoryBookAbsolute,
    /// Remove the selected bookmark of the history.
    RemoveHistoryBookmark,
    /// Jump to the mark selected in the marks window.
    JumpToSelectedMark,
    /// Delete the mark selected in the marks window.
    DeleteSelectedMark,
    /// Set the mark of a letter.
    SetMark(char),
    /// Jump to the mark of a letter.
    GotoMark(char),
    /// Open the file with the system's viewer.
    OpenExternalViewer,
    /// Go back to the place before in the jump list.
    JumpBack,
    /// Go forward again in the jump list.
    JumpForward,
    /// Extend the selection of the text to the mouse; the result is whether that scrolled the text.
    DragText { column: u16, row: u16 },
}

/// What the application asks to be done.
#[derive(Debug, Clone, Copy, PartialEq, Eq, Structural)]
pub enum Effect {
    // keys
    ClearKeySequence,
    PushKey(KeyEvent),
    // windows
    CreateWindow(PopupWindow),
    DropWindow(PopupWindow),
    CreateSettings(SettingsTab),
    CreatePdfComments,
    OpenSearch { clear_input: bool },
    SaveCommentsPosition,
    RemoveSelectedComment,
    HideStats,
    ShowStats,
    RebuildMarks,
    ReloadHistory,
    ScrollKeybindingErrors { down: bool },
    PageKeybindingErrors { down: bool, lines: usize },
    // notifications
    Notify(NotificationLevel, Notice),
    DismissNotification,
    // text reader
    DismissErrorHud,
    RequestOverlayCleanup,
    InvalidateImageProtocols,
    TakeCount,
    ClearCount,
    AppendCountDigit(char),
    Move { motion: Motion, times: usize },
    MovePage { page_motion: PageMotion, height: usize },
    SetPendingFind(PendingCharMotion),
    ExecutePendingFind { ch: char, times: usize },
    ClearPendingMotion,
    SetPendingYank(PendingYank),
    ClearPendingYank,
    Yank { object: YankObject, count: usize },
    StartYank,
    ClearExpiredYankHighlight,
    StartCommentInput,
    EnterVisualMode(VisualMode),
    ExitVisualMode,
    SelectInnerWord,
    SelectInnerBigWord,
    ShowHud(Hud),
    RemoveHighlight(u64),
    DeleteHighlight(u64),
    RecolorHighlight(u64, HighlightColor),
    AddHighlight(HighlightColor),
    ToggleNormalMode,
    StartSearch,
    SearchType(SearchIn, char),
    SearchErase(SearchIn),
    CancelSearch(SearchIn),
    ExitSearch(SearchIn),
    ConfirmSearch(SearchIn),
    NextMatch,
    PreviousMatch,
    ScrollText(Scroll),
    ScrollParagraphUp,
    ScrollParagraphDown,
    GoTop,
    GoBottom,
    ClearSelection,
    CopySelection,
    CopyChapter,
    FollowLink,
    RememberPosition,
    RestorePosition,
    RestoreNode(usize),
    QueueSearchHit(usize),
    IncreaseMargin,
    DecreaseMargin,
    PersistMargin,
    ToggleJustify,
    ToggleColumns,
    SyncColumns,
    ToggleRawHtml,
    InvalidateRenderCache,
    /// The place that a link led to is no longer pointed out.
    ClearActiveAnchor,
    /// The text of the chapter is shown anew.
    RefreshContent,
    // navigation panel
    ClearManualNavigation,
    ToggleSelectedSection,
    PersistTocExpansion,
    SwitchToBookList,
    ShowBooks,
    SelectOpenBook,
    ToggleSortOrder,
    RefreshBooks,
    ForgetCurrentBook,
    UpdateTocState,
    OpenExternalLink,
    /// The size of the terminal changed.
    Resized,
    // books and positions
    SetBookPath,
    CloseEpub,
    /// Whether the library lists books that need graphics.
    SetLibraryGraphics(bool),
    SaveBookmark { force: bool },
    NavigateChapter(ChapterDirection),
    NavigateToHref { chapter: usize },
    /// Places of the book before are forgotten.
    ClearJumpList,
    PersistNavWidth,
    SyncTitle,
    ToggleProfiling,
    // PDF
    PdfViewportWidthChanged,
    PdfZenToggled,
    PdfGoToPage(usize),
    PdfSetPage(usize),
    PdfSettingsConfigured,
    PdfJumpToComment(usize),
    PdfJumpToSearchHit { page: usize, line: usize },
    PdfExtractPage,
    PdfCopyTocSelection,
    PdfToggleWatching,
    PdfTogglePageLayout,
    PdfToggleRenderMode,
    PdfStartGoToPage,
    PdfResetViewport,
    PdfHudError(Notice),
    PdfHud(Notice),
    PdfApplyTheme,
    PdfApplyAction,
    PdfOpenSource,
    PdfClearKeys,
    PdfForceRedraw,
    PdfClearGraphics,
    PdfClose,
    // mouse
    TextMouseDown { column: u16, row: u16 },
    TextMouseUp { column: u16, row: u16 },
    TextDoubleClick { column: u16, row: u16 },
    TextTripleClick { column: u16, row: u16 },
    OpenClickedImage,
    FollowClickedLink,
    NavigateTo { chapter: usize },
    ScrollWindow { window: PopupWindow, down: bool, steps: u32 },
    ScrollComments { column: u16, amount: i32, down: bool, steps: u32 },
    ScrollNavigation { down: bool, steps: u32, rows: u16 },
    // lookup
    LookUpSelection,
    TestLookupCommand,
    TestSynctexEditor,
    /// A work whose result is handed back.
    Perform(Task),
}

/// What a handler needs to know before it can go on.
#[derive(Debug, Clone, Copy, PartialEq, Eq, Structural)]
pub enum Question {
    /// Offer the key to the comment editor: does it take it?
    CommentInput,
    /// Hand the key to a window: what does it ask for?
    PopupKey(PopupWindow),
    /// Hand the key to the navigation panel and do what it asks for: is the key passed by?
    NavigationKey,
    /// Offer a digit to the count: does it take it?
    CountDigit(char),
}

/// How the handling of an event goes on.
#[derive(Debug, Clone, Copy, PartialEq, Eq, Structural)]
pub enum Next {
    Done(Option<AppAction>),
    Ask(Question),
}

/// The windows that exist, whether or not they have the focus.
#[derive(Debug, Clone, Copy, PartialEq, Eq, Structural)]
pub struct Windows {
    pub reading_history: bool,
    pub image_popup: bool,
    pub marks_popup: bool,
    pub book_search: bool,
    pub help_popup: bool,
    pub keybinding_errors_popup: bool,
    pub comments_viewer: bool,
    pub settings_popup: bool,
    pub lookup_popup: bool,
}

/// The state of the application that its decisions rest on.
#[derive(Debug, Clone, Copy, PartialEq, Eq, Structural)]
pub struct App {
    pub focused_panel: FocusedPanel,
    /// The main panel that focus returns to when a window closes.
    pub previous_main_panel: MainPanel,
    pub windows: Windows,
    pub terminal_size: Rect,
    pub help_bar_area: Rect,
    pub zen_mode: bool,
    pub test_mode: bool,
    pub nav_panel_width_override: Option<u16>,
    pub resizing_nav_panel: bool,
    pub pending_visual_inner: bool,
    pub pending_highlight_palette: bool,
    /// The highlight that the palette recolours or removes; none where it makes a new one.
    pub highlight_palette_target: Option<HighlightTarget>,
    pub pending_mark_op: Option<PendingMarkOp>,
    pub pending_force_redraw: bool,
    pub pending_suspend: bool,
    pub pdf_supports_graphics: bool,
    pub pdf_supports_scroll_mode: bool,
    /// The PDF page whose converted image is awaited.
    pub pdf_waiting_for_page: Option<usize>,
    pub pdf_waiting_for_viewport: bool,
}

impl Windows {
    /// Whether the window exists; the statistics have one at all times.
    pub open spec fn has(self, w: PopupWindow) -> bool {
        match w {
            PopupWindow::ReadingHistory => self.reading_history,
            PopupWindow::BookStats => true,
            PopupWindow::MarksList => self.marks_popup,
            PopupWindow::ImagePopup => self.image_popup,
            PopupWindow::BookSearch => self.book_search,
            PopupWindow::Help => self.help_popup,
            PopupWindow::CommentsViewer => self.comments_viewer,
            PopupWindow::Settings => self.settings_popup,
            PopupWindow::Lookup => self.lookup_popup,
            PopupWindow::KeybindingErrors => self.keybinding_errors_popup,
        }
    }

    /// The windows after one was made (`there`) or dropped.
    pub open spec fn with(self, w: PopupWindow, there: bool) -> Windows {
        match w {
            PopupWindow::ReadingHistory => Windows { reading_history: there, ..self },
            PopupWindow::BookStats => self,
            PopupWindow::MarksList => Windows { marks_popup: there, ..self },
            PopupWindow::ImagePopup => Windows { image_popup: there, ..self },
            PopupWindow::BookSearch => Windows { book_search: there, ..self },
            PopupWindow::Help => Windows { help_popup: there, ..self },
            PopupWindow::CommentsViewer => Windows { comments_viewer: there, ..self },
            PopupWindow::Settings => Windows { settings_popup: there, ..self },
            PopupWindow::Lookup => Windows { lookup_popup: there, ..self },
            PopupWindow::KeybindingErrors => Windows { keybinding_errors_popup: there, ..self },
        }
    }

    /// No window.
    pub open spec fn none() -> Windows {
        Windows {
            reading_history: false,
            image_popup: false,
            marks_popup: false,
            book_search: false,
            help_popup: false,
            keybinding_errors_popup: false,
            comments_viewer: false,
            settings_popup: false,
            lookup_popup: false,
        }
    }

    /// Whether the window exists.
    pub fn is_there(&self, w: PopupWindow) -> (r: bool)
        ensures
            r == self.has(w),
    {
        match w {
            PopupWindow::ReadingHistory => self.reading_history,
            PopupWindow::BookStats => true,
            PopupWindow::MarksList => self.marks_popup,
            PopupWindow::ImagePopup => self.image_popup,
            PopupWindow::BookSearch => self.book_search,
            PopupWindow::Help => self.help_popup,
            PopupWindow::CommentsViewer => self.comments_viewer,
            PopupWindow::Settings => self.settings_popup,
            PopupWindow::Lookup => self.lookup_popup,
            PopupWindow::KeybindingErrors => self.keybinding_errors_popup,
        }
    }

    /// Notes that a window was made (`there`) or dropped.
    pub fn set(&mut self, w: PopupWindow, there: bool)
        ensures
            *final(self) == old(self).with(w, there),
    {
        match w {
            PopupWindow::ReadingHistory => {
                self.reading_history = there;
            },
            PopupWindow::BookStats => {},
            PopupWindow::MarksList => {
                self.marks_popup = there;
            },
            PopupWindow::ImagePopup => {
                self.image_popup = there;
            },
            PopupWindow::BookSearch => {
                self.book_search = there;
            },
            PopupWindow::Help => {
                self.help_popup = there;
            },
            PopupWindow::CommentsViewer => {
                self.comments_viewer = there;
            },
            PopupWindow::Settings => {
                self.settings_popup = there;
            },
            PopupWindow::Lookup => {
                self.lookup_popup = there;
            },
            PopupWindow::KeybindingErrors => {
                self.keybinding_errors_popup = there;
            },
        }
    }
}

impl App {
    /// The invariant of the application: a window that has the focus exists.
    pub open spec fn wf(self) -> bool {
        match self.focused_panel {
            FocusedPanel::Main(_) => true,
            FocusedPanel::Popup(w) => self.windows.has(w),
        }
    }

    /// Whether a main panel has the focus.
    pub open spec fn main_panel_is(self, panel: MainPanel) -> bool {
        self.focused_panel == FocusedPanel::Main(panel)
    }

    /// Whether a window has the focus.
    pub open spec fn popup_active(self) -> bool {
        self.focused_panel is Popup
    }

    /// Whether focus is on the given main panel (not on a window).
    pub fn is_main_panel(&self, panel: MainPanel) -> (r: bool)
        ensures
            r == self.main_panel_is(panel),
    {
        match self.focused_panel {
            FocusedPanel::Main(p) => p == panel,
            FocusedPanel::Popup(_) => false,
        }
    }

    /// Whether a window has the focus.
    pub fn has_active_popup(&self) -> (r: bool)
        ensures
            r == self.popup_active(),
    {
        match self.focused_panel {
            FocusedPanel::Main(_) => false,
            FocusedPanel::Popup(_) => true,
        }
    }

    /// Whether zen mode is on.
    pub fn is_zen_mode(&self) -> (r: bool)
        ensures
            r == self.zen_mode,
    {
        self.zen_mode
    }

    /// Turns test mode on or off.
    pub fn set_test_mode(&mut self, enabled: bool)
        ensures
            *final(self) == (App { test_mode: enabled, ..*old(self) }),
    {
        self.test_mode = enabled;
    }
}

impl Facts {
    /// Whether a search is going on.
    pub open spec fn searching(self) -> bool {
        self.navigation_search is Some || self.text_search is Some
    }

    /// The panel that a search runs in: the navigation panel's comes first.
    pub open spec fn search_place(self) -> Option<SearchIn> {
        if self.navigation_search is Some {
            Some(SearchIn::Navigation)
        } else if self.text_search is Some {
            Some(SearchIn::Text)
        } else {
            None
        }
    }

    /// Whether a search query is being typed.
    pub open spec fn typing_search(self) -> bool {
        if self.navigation_search is Some {
            self.navigation_search == Some(SearchMode::InputMode)
        } else {
            self.text_search == Some(SearchMode::InputMode)
        }
    }

    /// Whether a search is going on.
    pub fn is_in_search_mode(&self) -> (r: bool)
        ensures
            r == self.searching(),
    {
        self.navigation_search.is_some() || self.text_search.is_some()
    }

    /// Whether a search query is being typed.
    pub fn is_search_input_mode(&self) -> (r: bool)
        ensures
            r == self.typing_search(),
    {
        match self.navigation_search {
            Some(mode) => mode == SearchMode::InputMode,
            None => match self.text_search {
                Some(mode) => mode == SearchMode::InputMode,
                None => false,
            },
        }
    }
}

// ---------------------------------------------------------------------------------------------
// A run: the state, what is to be done so far, and whether the key sequence was cleared
// ---------------------------------------------------------------------------------------------
/// A handler at work: the application's state and the effects asked for so far.
pub struct RunView {
    pub app: App,
    pub out: Seq<Effect>,
    /// Whether the keys typed before were dropped during this run.
    pub cleared: bool,
}

/// A handler at work.
pub struct Run {
    pub app: App,
    pub out: Vec<Effect>,
    pub cleared: bool,
}

impl View for Run {
    type V = RunView;

    open spec fn view(&self) -> RunView {
        RunView { app: self.app, out: self.out@, cleared: self.cleared }
    }
}

/// What a handler leaves: the effects in order, and how it goes on.
pub struct Turn {
    pub effects: Vec<Effect>,
    pub next: Next,
}

impl RunView {
    /// A run at its start.
    pub open spec fn start(app: App) -> RunView {
        RunView { app, out: Seq::empty(), cleared: false }
    }

    /// One more effect.
    #[verifier::opaque]
    pub open spec fn emit(self, e: Effect) -> RunView {
        RunView { out: self.out.push(e), ..self }
    }

    /// Another state.
    #[verifier::opaque]
    pub open spec fn to(self, app: App) -> RunView {
        RunView { app, ..self }
    }

    /// A message.
    pub open spec fn notify(self, level: NotificationLevel, notice: Notice) -> RunView {
        self.emit(Effect::Notify(level, notice))
    }

    /// The key sequence dropped.
    #[verifier::opaque]
    pub open spec fn clear_keys(self) -> RunView {
        RunView { out: self.out.push(Effect::ClearKeySequence), cleared: true, ..self }
    }

    /// The focus on a main panel, which a closing window will return to.
    #[verifier::opaque]
    pub open spec fn focus_main(self, panel: MainPanel) -> RunView {
        self.to(
            App { previous_main_panel: panel, focused_panel: FocusedPanel::Main(panel), ..self.app },
        )
    }

    /// The main panel in focus remembered as the one to return to.
    #[verifier::opaque]
    pub open spec fn remember_panel(self) -> RunView {
        match self.app.focused_panel {
            FocusedPanel::Main(panel) => self.to(App { previous_main_panel: panel, ..self.app }),
            FocusedPanel::Popup(_) => self,
        }
    }

    /// A window noted as made and given the focus.
    #[verifier::opaque]
    pub open spec fn focus_window(self, w: PopupWindow) -> RunView {
        self.to(
            App {
                windows: self.app.windows.with(w, true),
                focused_panel: FocusedPanel::Popup(w),
                ..self.app
            },
        )
    }

    /// A new window in focus.
    pub open spec fn open_window(self, w: PopupWindow) -> RunView {
        self.emit(Effect::CreateWindow(w)).focus_window(w)
    }

    /// A window dropped.
    #[verifier::opaque]
    pub open spec fn drop_window(self, w: PopupWindow) -> RunView {
        self.emit(Effect::DropWindow(w)).to(
            App { windows: self.app.windows.with(w, false), ..self.app },
        )
    }

    /// The window in focus left: focus goes back to the main panel, to the content in zen mode. An
    /// image window leaves its picture on the terminal, which is cleaned up.
    #[verifier::opaque]
    pub open spec fn close_popup(self) -> RunView {
        let panel = if self.app.zen_mode {
            MainPanel::Content
        } else {
            self.app.previous_main_panel
        };
        let r = if self.app.focused_panel == FocusedPanel::Popup(PopupWindow::ImagePopup) {
            self.emit(Effect::RequestOverlayCleanup).emit(Effect::InvalidateImageProtocols)
        } else {
            self
        };
        r.to(App { focused_panel: FocusedPanel::Main(panel), ..self.app })
    }

    /// The search under way given up: a query being typed is cancelled, a finished one is left.
    #[verifier::opaque]
    pub open spec fn cancel_search(self, f: Facts) -> RunView {
        if let Some(mode) = f.navigation_search {
            if mode == SearchMode::InputMode {
                self.emit(Effect::CancelSearch(SearchIn::Navigation))
            } else {
                self.emit(Effect::ExitSearch(SearchIn::Navigation))
            }
        } else if let Some(mode) = f.text_search {
            if mode == SearchMode::InputMode {
                self.emit(Effect::CancelSearch(SearchIn::Text))
            } else {
                self.emit(Effect::ExitSearch(SearchIn::Text))
            }
        } else {
            self
        }
    }

    /// A character typed into the search query.
    #[verifier::opaque]
    pub open spec fn type_search(self, f: Facts, c: char) -> RunView {
        match f.search_place() {
            Some(place) => self.emit(Effect::SearchType(place, c)),
            None => self,
        }
    }
}

impl Run {
    /// A run at its start.
    pub fn start(app: App) -> (r: Run)
        ensures
            r@ == RunView::start(app),
    {
        let r = Run { app, out: Vec::new(), cleared: false };
        assert(r@.out =~= Seq::empty());
        r
    }

    pub fn emit(&mut self, e: Effect)
        ensures
            final(self)@ == old(self)@.emit(e),
    {
        proof {
            reveal(RunView::emit);
        }
        self.out.push(e);
    }

    /// Takes on another state.
    pub fn set_app(&mut self, app: App)
        ensures
            final(self)@ == old(self)@.to(app),
    {
        proof {
            reveal(RunView::to);
        }
        self.app = app;
    }

    pub fn notify(&mut self, level: NotificationLevel, notice: Notice)
        ensures
            final(self)@ == old(self)@.notify(level, notice),
    {
        proof {
            reveal(RunView::emit);
        }
        self.out.push(Effect::Notify(level, notice));
    }

    pub fn clear_keys(&mut self)
        ensures
            final(self)@ == old(self)@.clear_keys(),
    {
        proof {
            reveal(RunView::clear_keys);
        }
        self.out.push(Effect::ClearKeySequence);
        self.cleared = true;
    }

    /// Gives the focus to a main panel and remembers it for when a window closes.
    pub fn set_main_panel_focus(&mut self, panel: MainPanel)
        ensures
            final(self)@ == old(self)@.focus_main(panel),
    {
        proof {
            reveal(RunView::to);
            reveal(RunView::focus_main);
        }
        self.app.previous_main_panel = panel;
        self.app.focused_panel = FocusedPanel::Main(panel);
    }

    pub fn remember_panel(&mut self)
        ensures
            final(self)@ == old(self)@.remember_panel(),
    {
        proof {
            reveal(RunView::to);
            reveal(RunView::remember_panel);
        }
        match self.app.focused_panel {
            FocusedPanel::Main(panel) => {
                self.app.previous_main_panel = panel;
            },
            FocusedPanel::Popup(_) => {},
        }
    }

    pub fn focus_window(&mut self, w: PopupWindow)
        ensures
            final(self)@ == old(self)@.focus_window(w),
    {
        proof {
            reveal(RunView::to);
            reveal(RunView::focus_window);
        }
        self.app.windows.set(w, true);
        self.app.focused_panel = FocusedPanel::Popup(w);
    }

    pub fn open_window(&mut self, w: PopupWindow)
        ensures
            final(self)@ == old(self)@.open_window(w),
    {
        self.emit(Effect::CreateWindow(w));
        self.focus_window(w);
    }

    pub fn drop_window(&mut self, w: PopupWindow)
        ensures
            final(self)@ == old(self)@.drop_window(w),
    {
        proof {
            reveal(RunView::to);
            reveal(RunView::drop_window);
            reveal(RunView::emit);
        }
        self.emit(Effect::DropWindow(w));
        self.app.windows.set(w, false);
    }

    /// Leaves the window in focus and returns to the main panel.
    pub fn close_popup_to_previous(&mut self)
        ensures
            final(self)@ == old(self)@.close_popup(),
    {
        proof {
            reveal(RunView::to);
            reveal(RunView::close_popup);
            reveal(RunView::emit);
        }
        if self.app.focused_panel == FocusedPanel::Popup(PopupWindow::ImagePopup) {
            self.emit(Effect::RequestOverlayCleanup);
            self.emit(Effect::InvalidateImageProtocols);
        }
        let panel = if self.app.zen_mode {
            MainPanel::Content
        } else {
            self.app.previous_main_panel
        };
        self.app.focused_panel = FocusedPanel::Main(panel);
    }

    /// Gives up the search under way.
    pub fn cancel_current_search(&mut self, f: &Facts)
        ensures
            final(self)@ == old(self)@.cancel_search(*f),
    {
        proof {
            reveal(RunView::cancel_search);
            reveal(RunView::emit);
        }
        if let Some(mode) = f.navigation_search {
            if mode == SearchMode::InputMode {
                self.emit(Effect::CancelSearch(SearchIn::Navigation));
            } else {
                self.emit(Effect::ExitSearch(SearchIn::Navigation));
            }
        } else if let Some(mode) = f.text_search {
            if mode == SearchMode::InputMode {
                self.emit(Effect::CancelSearch(SearchIn::Text));
            } else {
                self.emit(Effect::ExitSearch(SearchIn::Text));
            }
        }
    }

    /// Types a character into the search query.
    pub fn handle_search_input(&mut self, f: &Facts, c: char)
        ensures
            final(self)@ == old(self)@.type_search(*f, c),
    {
        proof {
            reveal(RunView::type_search);
            reveal(RunView::emit);
        }
        if f.navigation_search.is_some() {
            self.emit(Effect::SearchType(SearchIn::Navigation, c));
        } else if f.text_search.is_some() {
            self.emit(Effect::SearchType(SearchIn::Text, c));
        }
    }
}

// What the steps of a run do to the state.
pub broadcast proof fn lemma_emit_app(r: RunView, e: Effect)
    ensures
        #[trigger] r.emit(e).app == r.app,
{
    reveal(RunView::emit);
}

pub broadcast proof fn lemma_clear_keys_app(r: RunView)
    ensures
        #[trigger] r.clear_keys().app == r.app,
{
    reveal(RunView::clear_keys);
}

pub broadcast proof fn lemma_focus_main_app(r: RunView, panel: MainPanel)
    ensures
        #[trigger] r.focus_main(panel).app == (App {
            previous_main_panel: panel,
            focused_panel: FocusedPanel::Main(panel),
            ..r.app
        }),
{
    reveal(RunView::focus_main);
    reveal(RunView::to);
}

pub broadcast proof fn lemma_remember_panel_app(r: RunView)
    ensures
        #[trigger] r.remember_panel().app == (match r.app.focused_panel {
            FocusedPanel::Main(panel) => App { previous_main_panel: panel, ..r.app },
            FocusedPanel::Popup(_) => r.app,
        }),
{
    reveal(RunView::remember_panel);
    reveal(RunView::to);
}

pub broadcast proof fn lemma_focus_window_app(r: RunView, w: PopupWindow)
    ensures
        #[trigger] r.focus_window(w).app == (App {
            windows: r.app.windows.with(w, true),
            focused_panel: FocusedPanel::Popup(w),
            ..r.app
        }),
{
    reveal(RunView::focus_window);
    reveal(RunView::to);
}

pub broadcast proof fn lemma_drop_window_app(r: RunView, w: PopupWindow)
    ensures
        #[trigger] r.drop_window(w).app == (App {
            windows: r.app.windows.with(w, false),
            ..r.app
        }),
{
    reveal(RunView::drop_window);
    reveal(RunView::to);
    reveal(RunView::emit);
}

pub broadcast proof fn lemma_close_popup_app(r: RunView)
    ensures
        #[trigger] r.close_popup().app == (App {
            focused_panel: FocusedPanel::Main(
                if r.app.zen_mode {
                    MainPanel::Content
                } else {
                    r.app.previous_main_panel
                },
            ),
            ..r.app
        }),
{
    reveal(RunView::close_popup);
    reveal(RunView::to);
    reveal(RunView::emit);
}

pub broadcast proof fn lemma_search_app(r: RunView, f: Facts, c: char)
    ensures
        #[trigger] r.type_search(f, c).app == r.app,
{
    reveal(RunView::type_search);
    reveal(RunView::emit);
}

pub broadcast proof fn lemma_cancel_search_app(r: RunView, f: Facts)
    ensures
        #[trigger] r.cancel_search(f).app == r.app,
{
    reveal(RunView::cancel_search);
    reveal(RunView::emit);
}

pub broadcast proof fn lemma_to_app(r: RunView, app: App)
    ensures
        #[trigger] r.to(app).app == app,
{
    reveal(RunView::to);
}

pub broadcast proof fn lemma_to_extends(a: RunView, r: RunView, app: App)
    requires
        extends(a, r),
    ensures
        #[trigger] extends(a, r.to(app)),
{
    reveal(extends);
    reveal(RunView::to);
}

/// What each step of a run does to the state.
pub broadcast group group_run_app {
    lemma_to_app,
    lemma_emit_app,
    lemma_clear_keys_app,
    lemma_focus_main_app,
    lemma_remember_panel_app,
    lemma_focus_window_app,
    lemma_drop_window_app,
    lemma_close_popup_app,
    lemma_search_app,
    lemma_cancel_search_app,
}

/// Whether one run has done all that another has, in the same order, and perhaps more.
#[verifier::opaque]
pub open spec fn extends(a: RunView, b: RunView) -> bool {
    a.out.is_prefix_of(b.out)
}

pub proof fn lemma_extends_itself(r: RunView)
    ensures
        extends(r, r),
{
    reveal(extends);
}

pub proof fn lemma_extends_transitive(a: RunView, b: RunView, c: RunView)
    requires
        extends(a, b),
        extends(b, c),
    ensures
        extends(a, c),
{
    reveal(extends);
}

pub broadcast proof fn lemma_emit_extends(a: RunView, r: RunView, e: Effect)
    requires
        extends(a, r),
    ensures
        #[trigger] extends(a, r.emit(e)),
{
    reveal(extends);
    reveal(RunView::emit);
}

pub broadcast proof fn lemma_clear_keys_extends(a: RunView, r: RunView)
    requires
        extends(a, r),
    ensures
        #[trigger] extends(a, r.clear_keys()),
{
    reveal(extends);
    reveal(RunView::clear_keys);
}

pub broadcast proof fn lemma_focus_main_extends(a: RunView, r: RunView, panel: MainPanel)
    requires
        extends(a, r),
    ensures
        #[trigger] extends(a, r.focus_main(panel)),
{
    reveal(extends);
    reveal(RunView::focus_main);
    reveal(RunView::to);
}

pub broadcast proof fn lemma_remember_panel_extends(a: RunView, r: RunView)
    requires
        extends(a, r),
    ensures
        #[trigger] extends(a, r.remember_panel()),
{
    reveal(extends);
    reveal(RunView::remember_panel);
    reveal(RunView::to);
}

pub broadcast proof fn lemma_focus_window_extends(a: RunView, r: RunView, w: PopupWindow)
    requires
        extends(a, r),
    ensures
        #[trigger] extends(a, r.focus_window(w)),
{
    reveal(extends);
    reveal(RunView::focus_window);
    reveal(RunView::to);
}

pub broadcast proof fn lemma_drop_window_extends(a: RunView, r: RunView, w: PopupWindow)
    requires
        extends(a, r),
    ensures
        #[trigger] extends(a, r.drop_window(w)),
{
    reveal(extends);
    reveal(RunView::drop_window);
    reveal(RunView::to);
    reveal(RunView::emit);
}

pub broadcast proof fn lemma_close_popup_extends(a: RunView, r: RunView)
    requires
        extends(a, r),
    ensures
        #[trigger] extends(a, r.close_popup()),
{
    reveal(extends);
    reveal(RunView::close_popup);
    reveal(RunView::to);
    reveal(RunView::emit);
}

/// That each step of a run only adds to what is to be done.
pub broadcast group group_run_extends {
    lemma_to_extends,
    lemma_emit_extends,
    lemma_clear_keys_extends,
    lemma_focus_main_extends,
    lemma_remember_panel_extends,
    lemma_focus_window_extends,
    lemma_drop_window_extends,
    lemma_close_popup_extends,
}

/// Whether the window in focus exists.
#[verifier::opaque]
pub open spec fn sound(r: RunView) -> bool {
    r.app.wf()
}

pub broadcast proof fn lemma_emit_sound(r: RunView, e: Effect)
    requires
        sound(r),
    ensures
        #[trigger] sound(r.emit(e)),
{
    reveal(sound);
    reveal(RunView::emit);
}

pub broadcast proof fn lemma_clear_keys_sound(r: RunView)
    requires
        sound(r),
    ensures
        #[trigger] sound(r.clear_keys()),
{
    reveal(sound);
    reveal(RunView::clear_keys);
}

pub broadcast proof fn lemma_remember_panel_sound(r: RunView)
    requires
        sound(r),
    ensures
        #[trigger] sound(r.remember_panel()),
{
    reveal(sound);
    reveal(RunView::remember_panel);
    reveal(RunView::to);
}

pub broadcast proof fn lemma_focus_main_sound(r: RunView, panel: MainPanel)
    ensures
        #[trigger] sound(r.focus_main(panel)),
{
    reveal(sound);
    reveal(RunView::focus_main);
    reveal(RunView::to);
}

pub broadcast proof fn lemma_focus_window_sound(r: RunView, w: PopupWindow)
    ensures
        #[trigger] sound(r.focus_window(w)),
{
    reveal(sound);
    reveal(RunView::focus_window);
    reveal(RunView::to);
}

pub broadcast proof fn lemma_close_popup_sound(r: RunView)
    ensures
        #[trigger] sound(r.close_popup()),
{
    reveal(sound);
    reveal(RunView::close_popup);
    reveal(RunView::to);
}

pub broadcast proof fn lemma_leave_window_sound(r: RunView, w: PopupWindow)
    ensures
        #[trigger] sound(r.close_popup().drop_window(w)),
{
    reveal(sound);
    reveal(RunView::close_popup);
    reveal(RunView::drop_window);
    reveal(RunView::to);
}

pub broadcast proof fn lemma_to_sound(r: RunView, app: App)
    ensures
        #[trigger] sound(r.to(app)) == app.wf(),
{
    reveal(sound);
    reveal(RunView::to);
}

pub broadcast proof fn lemma_search_sound(r: RunView, f: Facts, c: char)
    requires
        sound(r),
    ensures
        #[trigger] sound(r.type_search(f, c)),
{
    reveal(sound);
    lemma_search_app(r, f, c);
}

pub broadcast proof fn lemma_cancel_search_sound(r: RunView, f: Facts)
    requires
        sound(r),
    ensures
        #[trigger] sound(r.cancel_search(f)),
{
    reveal(sound);
    lemma_cancel_search_app(r, f);
}

/// That each step of a run keeps the focus on what exists.
pub broadcast group group_run_sound {
    lemma_emit_sound,
    lemma_clear_keys_sound,
    lemma_remember_panel_sound,
    lemma_focus_main_sound,
    lemma_focus_window_sound,
    lemma_close_popup_sound,
    lemma_leave_window_sound,
    lemma_to_sound,
    lemma_search_sound,
    lemma_cancel_search_sound,
}

} // verus!
