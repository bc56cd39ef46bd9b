//! The libraries whose bookmarks are in use: that of the current directory, and that of an open
//! book that was taken from elsewhere.
use vstd::prelude::*;
use vstd::string::*;

use crate::paths;
use crate::text;
use crate::text::option_view;

verus! {

/// The bookmarks of a library: the file that they are kept in, if any, and a number by which the
/// caller finds them.
pub struct Bookmarks {
    pub handle: u64,
    pub file_path: Option<String>,
}

/// A library: its bookmarks and the directory of its comments.
pub struct LibraryContext {
    pub bookmarks: Bookmarks,
    pub comments_dir: Option<String>,
}

/// The directory of the comments that belong to a file of bookmarks.
pub open spec fn comments_beside(bookmarks_path: Seq<char>) -> Option<Seq<char>> {
    match paths::parent_of(bookmarks_path) {
        Some(p) => Some(paths::joined(p, "comments"@)),
        None => None,
    }
}

impl LibraryContext {
    /// A library of the given bookmarks.
    pub fn new(bookmarks: Bookmarks, comments_dir: Option<String>) -> (r: Self)
        ensures
            r.bookmarks == bookmarks,
            r.comments_dir == comments_dir,
    {
        LibraryContext { bookmarks, comments_dir }
    }

    /// The library of bookmarks that were read from a file: its comments stand beside them.
    pub fn load_from_bookmarks_path(bookmarks_path: &str, bookmarks: Bookmarks) -> (r: Self)
        ensures
            r.bookmarks == bookmarks,
            option_view(r.comments_dir) == comments_beside(bookmarks_path@),
    {
        let cs = text::chars_of(bookmarks_path);
        let comments_dir = match paths::parent(&cs) {
            Some(p) => {
                let dir = text::string_of(&p);
                Some(paths::join(dir.as_str(), "comments"))
            },
            None => None,
        };
        LibraryContext { bookmarks, comments_dir }
    }

    /// The bookmarks of the library.
    pub fn bookmarks(&self) -> (r: &Bookmarks)
        ensures
            *r == self.bookmarks,
    {
        &self.bookmarks
    }

    /// The bookmarks of the library, to be changed.
    pub fn bookmarks_mut(&mut self) -> (r: &mut Bookmarks)
        ensures
            *r == old(self).bookmarks,
            *final(self) == (LibraryContext { bookmarks: *final(r), ..*old(self) }),
    {
        &mut self.bookmarks
    }

    /// The directory of the comments.
    pub fn comments_dir(&self) -> (r: Option<&String>)
        ensures
            r is Some <==> self.comments_dir is Some,
            r matches Some(s) ==> self.comments_dir == Some(*s),
    {
        match &self.comments_dir {
            Some(s) => Some(s),
            None => None,
        }
    }

    /// The file that the bookmarks are kept in.
    pub fn file_path(&self) -> (r: Option<&String>)
        ensures
            r is Some <==> self.bookmarks.file_path is Some,
            r matches Some(s) ==> self.bookmarks.file_path == Some(*s),
    {
        match &self.bookmarks.file_path {
            Some(s) => Some(s),
            None => None,
        }
    }

    /// Whether the bookmarks are kept in the given file.
    pub open spec fn is_kept_in(self, path: Seq<char>) -> bool {
        option_view(self.bookmarks.file_path) == Some(path)
    }

    fn is_of(&self, path: &str) -> (r: bool)
        ensures
            r == self.is_kept_in(path@),
    {
        match &self.bookmarks.file_path {
            Some(s) => text::same(s.as_str(), path),
            None => false,
        }
    }
}

/// Which of the libraries in use.
#[derive(Clone, Copy, Debug, PartialEq, Eq, Structural)]
pub enum WhichContext {
    Home,
    Override,
}

/// The libraries in use.
pub struct Contexts {
    /// The library of the current directory.
    pub home: LibraryContext,
    /// The library of the open book, where that is another one.
    pub current_override: Option<LibraryContext>,
}

/// What is to be done before a book of the given library is opened.
#[derive(Clone, Copy, Debug, PartialEq, Eq, Structural)]
pub enum SourceNeeds {
    /// It is a book of the home library.
    Nothing,
    /// The bookmarks of its own library have to be read.
    Load,
}

impl Contexts {
    /// The library of the open book.
    pub open spec fn current(self) -> LibraryContext {
        match self.current_override {
            Some(c) => c,
            None => self.home,
        }
    }

    /// The library in use that a file of bookmarks belongs to; none where neither does. No file
    /// means the home library.
    pub open spec fn of_source(self, source: Option<Seq<char>>) -> Option<WhichContext> {
        match source {
            None => Some(WhichContext::Home),
            Some(path) => if self.home.is_kept_in(path) {
                Some(WhichContext::Home)
            } else if self.current_override is Some && self.current_override->0.is_kept_in(path) {
                Some(WhichContext::Override)
            } else {
                None
            },
        }
    }

    /// Whether the bookmarks of a book's library have to be read.
    pub open spec fn needs(self, source: Seq<char>) -> SourceNeeds {
        if source.len() == 0 || self.home.is_kept_in(source) {
            SourceNeeds::Nothing
        } else {
            SourceNeeds::Load
        }
    }

    /// The library of the open book.
    pub fn current_book_context(&self) -> (r: &LibraryContext)
        ensures
            *r == self.current(),
    {
        match &self.current_override {
            Some(c) => c,
            None => &self.home,
        }
    }

    /// The library of the open book, to be changed.
    pub fn current_book_context_mut(&mut self) -> (r: &mut LibraryContext)
        ensures
            *r == old(self).current(),
            old(self).current_override is Some ==> final(self).home == old(self).home
                && final(self).current_override == Some(*final(r)),
            old(self).current_override is None ==> final(self).home == *final(r)
                && final(self).current_override is None,
    {
        match &mut self.current_override {
            Some(c) => c,
            None => &mut self.home,
        }
    }

    /// The library in use that a file of bookmarks belongs to.
    pub fn context_for_source_bookmarks(&self, source: &Option<String>) -> (r: Option<WhichContext>)
        ensures
            r == self.of_source(option_view(*source)),
    {
        match source {
            None => Some(WhichContext::Home),
            Some(path) => {
                if self.home.is_of(path.as_str()) {
                    return Some(WhichContext::Home);
                }
                match &self.current_override {
                    Some(c) => if c.is_of(path.as_str()) {
                        Some(WhichContext::Override)
                    } else {
                        None
                    },
                    None => None,
                }
            },
        }
    }

    /// Whether the bookmarks of a book's library have to be read before it is opened.
    pub fn context_override_for_source_bookmarks(&self, source: &str) -> (r: SourceNeeds)
        ensures
            r == self.needs(source@),
    {
        let cs = text::chars_of(source);
        if cs.len() == 0 || self.home.is_of(source) {
            SourceNeeds::Nothing
        } else {
            SourceNeeds::Load
        }
    }

    /// Makes the library of a book that is about to be opened the one in use, once the place in the
    /// book that is left was saved. The one before is handed back.
    pub fn begin_open(&mut self, context_override: Option<LibraryContext>) -> (previous: Option<
        LibraryContext,
    >)
        ensures
            previous == old(self).current_override,
            final(self).home == old(self).home,
            final(self).current_override == context_override,
    {
        let previous = self.current_override.take();
        self.current_override = context_override;
        previous
    }

    /// Ends the opening of a book: one that failed leaves the library in use that was so before.
    pub fn finish_open(&mut self, previous: Option<LibraryContext>, opened: bool)
        ensures
            final(self).home == old(self).home,
            opened ==> final(self).current_override == old(self).current_override,
            !opened ==> final(self).current_override == previous,
    {
        if !opened {
            self.current_override = previous;
        }
    }
}

/// What is done to open a book of a library.
#[derive(Clone, Copy, Debug, PartialEq, Eq, Structural)]
pub enum OpenStep {
    /// The place in the book that is left is saved.
    SavePlace { force: bool },
    /// The library of the new book is the one in use.
    UseLibrary,
    /// The new book is opened.
    Open,
    /// The library before is the one in use again.
    PutLibraryBack,
}

/// What is done to open a book of a library, in this order; `opened` is what came of opening it.
pub open spec fn open_steps(opened: bool) -> Seq<OpenStep> {
    let tried = seq![OpenStep::SavePlace { force: true }, OpenStep::UseLibrary, OpenStep::Open];
    if opened {
        tried
    } else {
        tried.push(OpenStep::PutLibraryBack)
    }
}

/// What is done next to open a book of a library after so many steps; `opened` is what came of opening
/// it, which counts once that was tried.
pub fn next_open_step(done: usize, opened: bool) -> (r: Option<OpenStep>)
    ensures
        r == (if done < open_steps(opened).len() {
            Some(open_steps(opened)[done as int])
        } else {
            None
        }),
{
    if done == 0 {
        Some(OpenStep::SavePlace { force: true })
    } else if done == 1 {
        Some(OpenStep::UseLibrary)
    } else if done == 2 {
        Some(OpenStep::Open)
    } else if done == 3 && !opened {
        Some(OpenStep::PutLibraryBack)
    } else {
        None
    }
}

/// The opening of a book, between two of its steps.
#[verifier::ext_equal]
pub struct OpeningView {
    pub contexts: Contexts,
    /// The library that was in use before, once another one is.
    pub before: Option<LibraryContext>,
    /// The libraries in whose bookmarks a place was saved, in this order.
    pub saved: Seq<LibraryContext>,
}

impl OpeningView {
    /// What a step does; `library` is that of the new book, where it is not the home library.
    pub open spec fn after(self, step: OpenStep, library: Option<LibraryContext>) -> OpeningView {
        match step {
            OpenStep::SavePlace { .. } => OpeningView {
                saved: self.saved.push(self.contexts.current()),
                ..self
            },
            OpenStep::UseLibrary => OpeningView {
                contexts: Contexts { current_override: library, ..self.contexts },
                before: self.contexts.current_override,
                ..self
            },
            OpenStep::Open => self,
            OpenStep::PutLibraryBack => OpeningView {
                contexts: Contexts { current_override: self.before, ..self.contexts },
                ..self
            },
        }
    }

    /// What steps do, one after the other.
    pub open spec fn after_all(self, steps: Seq<OpenStep>, library: Option<LibraryContext>) ->
        OpeningView
        decreases steps.len(),
    {
        if steps.len() == 0 {
            self
        } else {
            self.after(steps[0], library).after_all(steps.skip(1), library)
        }
    }
}

/// The place in the book that is left is saved in the bookmarks of its own library, not in those of
/// the new book; the library of the new book is in use where it was opened, and else the one before.
pub proof fn law_left_book_is_saved_in_its_library(
    contexts: Contexts,
    library: Option<LibraryContext>,
    opened: bool,
)
    ensures
        ({
            let start = OpeningView { contexts, before: None, saved: Seq::empty() };
            let end = start.after_all(open_steps(opened), library);
            &&& end.saved == seq![contexts.current()]
            &&& end.contexts.home == contexts.home
            &&& opened ==> end.contexts.current_override == library
            &&& !opened ==> end.contexts == contexts
        }),
{
    let start = OpeningView { contexts, before: None, saved: Seq::empty() };
    let steps = open_steps(opened);
    reveal_with_fuel(OpeningView::after_all, 5);
    assert(steps.skip(1)[0] == OpenStep::UseLibrary);
    assert(steps.skip(1).skip(1)[0] == OpenStep::Open);
    if !opened {
        assert(steps.skip(1).skip(1).skip(1)[0] == OpenStep::PutLibraryBack);
    }
    assert(start.after_all(steps, library).saved =~= seq![contexts.current()]);
}

/// A book of another library is read with the bookmarks of that library: while it is open, those
/// of the home library are not the ones in use.
pub proof fn law_foreign_book_uses_its_own_library(before: Contexts, after: Contexts, source: Seq<
    char,
>, loaded: LibraryContext)
    requires
        before.needs(source) == SourceNeeds::Load,
        loaded.is_kept_in(source),
        after.home == before.home,
        after.current_override == Some(loaded),
    ensures
        after.current() == loaded,
        after.current().is_kept_in(source),
        !after.home.is_kept_in(source),
        after.of_source(Some(source)) == Some(WhichContext::Override),
{
}

/// A book of the home library is read with its bookmarks.
pub proof fn law_home_book_uses_the_home_library(c: Contexts, source: Seq<char>)
    requires
        c.needs(source) == SourceNeeds::Nothing,
        c.current_override is None,
    ensures
        c.current() == c.home,
{
}

} // verus!
