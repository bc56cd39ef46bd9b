//! Going from a page to its source and back: which file an editor is opened at, with which
//! command, and what the user is told.
use vstd::prelude::*;
use vstd::string::*;

use crate::main_app::jumps::file_of;
use crate::paths;
use crate::text;
use crate::text::{ascii_lowered, decimal, option_view, replaced, texts, trimmed};

verus! {

// ---------------------------------------------------------------------------------------------
// The editor's command
// ---------------------------------------------------------------------------------------------
/// The command that opens an editor at a line of a file.
pub open spec fn editor_command(template: Seq<char>, file: Seq<char>, line: Seq<char>) -> Seq<
    char,
> {
    replaced(replaced(replaced(template, "{file}"@, file), "{line}"@, line), "{column}"@, "0"@)
}

/// The command that opens an editor at a line of a file.
pub fn make_editor_command(template: &str, file: &str, line: u32) -> (r: String)
    ensures
        r@ == editor_command(template@, file@, decimal(line as nat)),
{
    proof {
        reveal_strlit("{file}");
        reveal_strlit("{line}");
        reveal_strlit("{column}");
    }
    let n = text::decimal_of(line as u64);
    let a = text::replace(template, "{file}", file);
    let b = text::replace(a.as_str(), "{line}", n.as_str());
    text::replace(b.as_str(), "{column}", "0")
}

/// What following a page to its source comes to.
pub enum InversePlan {
    /// The editor is started; `told` is said once it runs.
    Launch { command: String, told: String },
    /// No editor is set.
    Tell { message: String },
}

/// What is said of a place in a source.
pub open spec fn source_place(file: Seq<char>, line: u32) -> Seq<char> {
    "SyncTeX: "@ + file_of(file) + ":"@ + decimal(line as nat)
}

fn place_text(file: &str, line: u32) -> (r: String)
    ensures
        r@ == source_place(file@, line),
{
    let cs = text::chars_of(file);
    let name = match paths::file_name(&cs) {
        Some(n) => text::string_of(&n),
        None => text::copy(file),
    };
    let n = text::decimal_of(line as u64);
    let mut s = text::copy("SyncTeX: ");
    s.append(name.as_str());
    s.append(":");
    s.append(n.as_str());
    s
}

/// What following a page to a line of a file comes to.
pub fn handle_synctex_inverse(editor: &Option<String>, editor_file: &str, line: u32) -> (r:
    InversePlan)
    ensures
        match r {
            InversePlan::Launch { command, told } => editor is Some && command@ == editor_command(
                editor->0@,
                editor_file@,
                decimal(line as nat),
            ) && told@ == source_place(editor_file@, line),
            InversePlan::Tell { message } => editor is None && message@ == source_place(
                editor_file@,
                line,
            ) + " (set synctex_editor in config to open editor)"@,
        },
{
    let mut place = place_text(editor_file, line);
    match editor {
        Some(t) => {
            let command = make_editor_command(t.as_str(), editor_file, line);
            InversePlan::Launch { command, told: place }
        },
        None => {
            place.append(" (set synctex_editor in config to open editor)");
            InversePlan::Tell { message: place }
        },
    }
}

// ---------------------------------------------------------------------------------------------
// The file of a source
// ---------------------------------------------------------------------------------------------
/// Extensions of files that are made from a source.
pub open spec fn is_generated(ext: Seq<char>) -> bool {
    ||| ext == "aux"@
    ||| ext == "toc"@
    ||| ext == "out"@
    ||| ext == "lof"@
    ||| ext == "lot"@
    ||| ext == "nav"@
    ||| ext == "snm"@
}

/// The named components among the first `n` of a path: neither `.` nor `..`.
pub open spec fn named_parts(parts: Seq<Seq<char>>, n: nat) -> Seq<Seq<char>>
    decreases n,
{
    if n == 0 || n > parts.len() {
        Seq::empty()
    } else if parts[n - 1] == seq!['.'] || parts[n - 1] == seq!['.', '.'] {
        named_parts(parts, (n - 1) as nat)
    } else {
        named_parts(parts, (n - 1) as nat).push(parts[n - 1])
    }
}

/// The components from `i` on, taken from a directory.
pub open spec fn below(dir: Seq<char>, parts: Seq<Seq<char>>, i: int) -> Seq<char>
    decreases parts.len() - i,
{
    if i < 0 || i >= parts.len() {
        dir
    } else {
        below(paths::joined(dir, parts[i]), parts, i + 1)
    }
}

/// The source in the directory of the document: its path with more and more of its start left out.
pub open spec fn beside_pdf(dir: Seq<char>, parts: Seq<Seq<char>>, n: nat) -> Seq<Seq<char>>
    decreases n,
{
    if n == 0 || n > parts.len() {
        Seq::empty()
    } else {
        beside_pdf(dir, parts, (n - 1) as nat).push(below(dir, parts, n - 1))
    }
}

/// The source of the whole document, where the file is one that is made from it.
pub open spec fn main_source(file: Seq<char>, dir: Seq<char>, pdf: Seq<char>) -> Seq<Seq<char>> {
    match (paths::extension_of(file), paths::stem_of(pdf)) {
        (Some(ext), Some(stem)) => if is_generated(ascii_lowered(ext)) {
            seq![paths::with_extension_spec(paths::joined(dir, stem), "tex"@)]
        } else {
            Seq::empty()
        },
        _ => Seq::empty(),
    }
}

/// The files that a source may be, in the order in which they are tried: as it is named, in the
/// directory of the document, or the source of the whole document.
pub open spec fn candidates(file: Seq<char>, pdf: Option<Seq<char>>) -> Seq<Seq<char>> {
    let dir = match pdf {
        Some(p) => paths::parent_of(p),
        None => None,
    };
    match dir {
        None => seq![file],
        Some(d) => {
            let parts = named_parts(paths::components(file), paths::components(file).len());
            seq![file] + beside_pdf(d, parts, parts.len()) + main_source(file, d, pdf->0)
        },
    }
}

fn named_parts_of(file: &str) -> (r: Vec<String>)
    ensures
        texts(r@) == named_parts(paths::components(file@), paths::components(file@).len()),
{
    let cs = text::chars_of(file);
    let parts = paths::components_of(&cs);
    let ghost all = paths::components(cs@);
    assert(text::views(parts@).len() == parts@.len());
    let mut r: Vec<String> = Vec::new();
    let mut i: usize = 0;
    assert(texts(r@) =~= named_parts(all, 0));
    while i < parts.len()
        invariant
            i <= parts@.len(),
            text::views(parts@) == all,
            all.len() == parts@.len(),
            texts(r@) == named_parts(all, i as nat),
        decreases parts@.len() - i,
    {
        assert(all[i as int] == parts@[i as int]@);
        let s = text::string_of(&parts[i]);
        if !paths::is_dots(&parts[i]) {
            proof {
                text::lemma_texts_push(r@, s);
            }
            r.push(s);
        }
        i += 1;
    }
    r
}

fn path_below(dir: &str, parts: &Vec<String>, from: usize) -> (r: String)
    requires
        from <= parts@.len(),
    ensures
        r@ == below(dir@, texts(parts@), from as int),
{
    let ghost all = texts(parts@);
    let mut r = text::copy(dir);
    let mut i: usize = from;
    while i < parts.len()
        invariant
            from <= i <= parts@.len(),
            all == texts(parts@),
            below(dir@, all, from as int) == below(r@, all, i as int),
        decreases parts@.len() - i,
    {
        assert(all[i as int] == parts@[i as int]@);
        r = paths::join(r.as_str(), parts[i].as_str());
        i += 1;
    }
    r
}

fn is_generated_extension(ext: &str) -> (r: bool)
    ensures
        r == is_generated(ext@),
{
    text::same(ext, "aux") || text::same(ext, "toc") || text::same(ext, "out") || text::same(
        ext,
        "lof",
    ) || text::same(ext, "lot") || text::same(ext, "nav") || text::same(ext, "snm")
}

fn main_source_of(file: &str, dir: &str, pdf: &str) -> (r: Option<String>)
    ensures
        match r {
            Some(s) => main_source(file@, dir@, pdf@) == seq![s@],
            None => main_source(file@, dir@, pdf@) == Seq::<Seq<char>>::empty(),
        },
{
    let cs = text::chars_of(file);
    let ps = text::chars_of(pdf);
    match (paths::extension(&cs), paths::file_stem(&ps)) {
        (Some(e), Some(stem)) => {
            let low = text::ascii_lowercase(&e);
            let ext = text::string_of(&low);
            if is_generated_extension(ext.as_str()) {
                let s = text::string_of(&stem);
                let joined = paths::join(dir, s.as_str());
                Some(paths::with_extension(joined.as_str(), "tex"))
            } else {
                None
            }
        },
        _ => None,
    }
}

/// The files that a source may be, in the order in which they are tried.
pub fn synctex_candidates(file: &str, pdf_path: &Option<String>) -> (r: Vec<String>)
    ensures
        texts(r@) == candidates(file@, option_view(*pdf_path)),
{
    let mut r: Vec<String> = Vec::new();
    let first = text::copy(file);
    proof {
        text::lemma_texts_push(r@, first);
    }
    r.push(first);
    assert(texts(r@) =~= seq![file@]);
    match pdf_path {
        None => {},
        Some(pdf) => {
            let ps = text::chars_of(pdf.as_str());
            if let Some(d) = paths::parent(&ps) {
                let dir = text::string_of(&d);
                let parts = named_parts_of(file);
                let ghost all = texts(parts@);
                assert(all.len() == parts@.len());
                let mut i: usize = 0;
                assert(texts(r@) =~= seq![file@] + beside_pdf(dir@, all, 0));
                while i < parts.len()
                    invariant
                        i <= parts@.len(),
                        all == texts(parts@),
                        all.len() == parts@.len(),
                        texts(r@) == seq![file@] + beside_pdf(dir@, all, i as nat),
                    decreases parts@.len() - i,
                {
                    let s = path_below(dir.as_str(), &parts, i);
                    proof {
                        text::lemma_texts_push(r@, s);
                        assert((seq![file@] + beside_pdf(dir@, all, i as nat)).push(s@) =~= seq![
                            file@,
                        ] + beside_pdf(dir@, all, (i + 1) as nat));
                    }
                    r.push(s);
                    i += 1;
                }
                let ghost so_far = seq![file@] + beside_pdf(dir@, all, all.len());
                if let Some(s) = main_source_of(file, dir.as_str(), pdf.as_str()) {
                    proof {
                        text::lemma_texts_push(r@, s);
                        assert(so_far.push(s@) =~= so_far + seq![s@]);
                    }
                    r.push(s);
                } else {
                    assert(so_far + Seq::<Seq<char>>::empty() =~= so_far);
                }
            }
        },
    }
    r
}

/// The first candidate from `i` on that exists; `found` holds what each is known as, where it
/// exists.
pub open spec fn first_found(found: Seq<Option<String>>, i: int) -> Option<Seq<char>>
    decreases found.len() - i,
{
    if i < 0 || i >= found.len() {
        None
    } else {
        match found[i] {
            Some(s) => Some(s@),
            None => first_found(found, i + 1),
        }
    }
}

/// The file that the editor is opened at: the first candidate that exists, or the file as it is
/// named.
pub fn resolve_synctex_editor_file(file: &str, found: &Vec<Option<String>>) -> (r: String)
    ensures
        r@ == match first_found(found@, 0) {
            Some(s) => s,
            None => file@,
        },
{
    let mut i: usize = 0;
    while i < found.len()
        invariant
            i <= found@.len(),
            first_found(found@, 0) == first_found(found@, i as int),
        decreases found@.len() - i,
    {
        if let Some(s) = &found[i] {
            return text::copy(s.as_str());
        }
        i += 1;
    }
    text::copy(file)
}

/// A source that exists as it is named is the one that is opened.
pub proof fn law_existing_source_is_opened(found: Seq<Option<String>>)
    requires
        found.len() > 0,
        found[0] is Some,
    ensures
        first_found(found, 0) == Some(found[0]->0@),
{
}

// ---------------------------------------------------------------------------------------------
// From the source to the page
// ---------------------------------------------------------------------------------------------
/// What a request of an editor comes to.
pub struct ForwardNotice {
    /// The page that is shown, counted from zero.
    pub page: Option<usize>,
    pub message: String,
}

/// The page that a request leads to, counted from zero.
pub open spec fn page_from_one(page: usize) -> usize {
    if page > 0 {
        (page - 1) as usize
    } else {
        0
    }
}

/// What is said of a request of an editor.
pub open spec fn forward_message(
    loaded: bool,
    file: Seq<char>,
    line: u32,
    found: Option<usize>,
) -> Seq<char> {
    if !loaded {
        "SyncTeX: no synctex data loaded for this PDF"@
    } else {
        match found {
            Some(page) => source_place(file, line) + " -> page "@ + decimal(page as nat),
            None => "SyncTeX: no match for "@ + file_of(file) + ":"@ + decimal(line as nat),
        }
    }
}

/// What a request of an editor for a line of a file comes to; `found` is the page that the search
/// found, counted from one.
pub fn handle_synctex_command(loaded: bool, file: &str, line: u32, found: Option<usize>) -> (r:
    ForwardNotice)
    ensures
        r.message@ == forward_message(loaded, file@, line, found),
        r.page == (if loaded && found is Some {
            Some(page_from_one(found->0))
        } else {
            None
        }),
{
    if !loaded {
        return ForwardNotice {
            page: None,
            message: text::copy("SyncTeX: no synctex data loaded for this PDF"),
        };
    }
    match found {
        Some(page) => {
            let mut s = place_text(file, line);
            let n = text::decimal_of(page as u64);
            s.append(" -> page ");
            s.append(n.as_str());
            let p = if page > 0 {
                page - 1
            } else {
                0
            };
            ForwardNotice { page: Some(p), message: s }
        },
        None => {
            let cs = text::chars_of(file);
            let name = match paths::file_name(&cs) {
                Some(n) => text::string_of(&n),
                None => text::copy(file),
            };
            let n = text::decimal_of(line as u64);
            let mut s = text::copy("SyncTeX: no match for ");
            s.append(name.as_str());
            s.append(":");
            s.append(n.as_str());
            ForwardNotice { page: None, message: s }
        },
    }
}

// ---------------------------------------------------------------------------------------------
// Trying the editor
// ---------------------------------------------------------------------------------------------
/// The file that the editor is tried on.
pub const TEST_FILE: &'static str = "/tmp/synctex_test.txt";

/// What that file holds.
pub const TEST_TEXT: &'static str = "SyncTeX editor test from Bookokrat\n";

/// The command that the editor is tried with.
pub fn test_synctex_editor(template: &str) -> (r: String)
    ensures
        r@ == editor_command(template@, TEST_FILE@, decimal(1)),
{
    make_editor_command(template, TEST_FILE, 1)
}

/// What is said of an editor that failed: its complaint, or its exit code.
pub open spec fn test_failure(complaint: Seq<char>, code: Seq<char>) -> Seq<char> {
    "SyncTeX test: "@ + (if trimmed(complaint).len() == 0 {
        "exit code "@ + code
    } else {
        trimmed(complaint)
    })
}

/// What is said of an editor that failed.
pub fn test_failure_message(complaint: &str, code: &str) -> (r: String)
    ensures
        r@ == test_failure(complaint@, code@),
{
    let t = text::trim_str(complaint);
    let cs = text::chars_of(t.as_str());
    let mut s = text::copy("SyncTeX test: ");
    if cs.len() == 0 {
        let mut m = text::copy("exit code ");
        m.append(code);
        s.append(m.as_str());
    } else {
        s.append(t.as_str());
    }
    s
}

// ---------------------------------------------------------------------------------------------
// The state of a document
// ---------------------------------------------------------------------------------------------
/// What is known of the source of a document after it was opened or changed.
#[derive(Debug)]
pub struct SourceState {
    /// Whether places can be looked up.
    pub scanner: bool,
    /// Whether editors can send commands.
    pub listener: bool,
    /// What the user is told.
    pub told: Option<String>,
}

/// What the user is told of a document whose source is known.
pub open spec fn source_told(loaded: bool, listening: bool, announce: bool) -> Option<Seq<char>> {
    if !loaded || !announce {
        None
    } else if listening {
        Some(
            "SyncTeX enabled (Ctrl+click, right-click, or gd to jump to source, \\lv from editor)"@,
        )
    } else {
        Some("SyncTeX loaded but socket listener failed"@)
    }
}

/// What is known of the source of a document: `loaded` says whether it has a file with places that
/// could be read, `listening` whether a socket for editors could then be opened. Whatever was known
/// before is forgotten.
pub fn refresh_synctex_state(loaded: bool, listening: bool, announce: bool) -> (r: SourceState)
    ensures
        r.scanner == loaded,
        r.listener == (loaded && listening),
        option_view(r.told) == source_told(loaded, listening, announce),
{
    let told = if !loaded || !announce {
        None
    } else if listening {
        Some(
            text::copy(
                "SyncTeX enabled (Ctrl+click, right-click, or gd to jump to source, \\lv from editor)",
            ),
        )
    } else {
        Some(text::copy("SyncTeX loaded but socket listener failed"))
    };
    SourceState { scanner: loaded, listener: loaded && listening, told }
}

} // verus!
