//! The commands that are run for a text or a source, the libraries of books, and what is told.
use vstd::prelude::*;
use vstd::string::*;
use vstd::utf8::encode_utf8;

use crate::main_app::library_context::{
    comments_beside, open_steps, Contexts, LibraryContext, OpenStep, SourceNeeds, WhichContext,
};
use crate::main_app::lookup::{
    command_for, heading, planned, quoted, refusal, shown_output, LookupDisplay, LookupPlanView,
};
use crate::main_app::notices::{hud_wording, wording};
use crate::main_app::state::{Hud, Notice, NotificationLevel};
use crate::main_app::synctex_source::{
    beside_pdf, candidates, editor_command, first_found, forward_message, main_source, named_parts,
    page_from_one, source_place, source_told, test_failure,
};
use crate::paths;
use crate::paths_laws::{
    below, dotted, is_extension, is_name, is_stem, law_file_name, law_joined_paths, law_parent,
    law_stem_and_extension,
};
use crate::text::{
    ascii_lowered, begins, decimal, occurs, occurs_at, option_view, replaced, trimmed,
};
use crate::text_laws::{is_blank, law_blank_text_is_trimmed_away, law_replacing};

verus! {

// ---------------------------------------------------------------------------------------------
// Commands
// ---------------------------------------------------------------------------------------------
/// Whether a text holds no opening brace.
pub open spec fn unbraced(s: Seq<char>) -> bool {
    !s.contains('{')
}

proof fn lemma_replaced_behind(a: Seq<char>, s: Seq<char>, from: Seq<char>, to: Seq<char>)
    requires
        unbraced(a),
        from.len() > 0,
        from[0] == '{',
    ensures
        replaced(a + s, from, to) == a + replaced(s, from, to),
    decreases a.len(),
{
    if a.len() == 0 {
        assert(a + s =~= s);
        assert(a + replaced(s, from, to) =~= replaced(s, from, to));
    } else {
        let all = a + s;
        assert(a.contains(a[0]));
        if begins(all, from) {
            assert(all.subrange(0, from.len() as int)[0] == from[0]);
            assert(all[0] == a[0]);
        }
        let rest = a.skip(1);
        assert(unbraced(rest)) by {
            if rest.contains('{') {
                let i = choose|i: int| 0 <= i < rest.len() && rest[i] == '{';
                assert(a[i + 1] == '{');
            }
        }
        assert(all.skip(1) =~= rest + s);
        lemma_replaced_behind(rest, s, from, to);
        assert(seq![a[0]] + (rest + replaced(s, from, to)) =~= a + replaced(s, from, to));
    }
}

proof fn lemma_replaced_once(a: Seq<char>, s: Seq<char>, from: Seq<char>, to: Seq<char>)
    requires
        unbraced(a),
        from.len() > 0,
        from[0] == '{',
    ensures
        replaced(a + from + s, from, to) == a + to + replaced(s, from, to),
{
    assert(a + from + s =~= a + (from + s));
    lemma_replaced_behind(a, from + s, from, to);
    law_replacing(s, from, to);
    assert(a + (to + replaced(s, from, to)) =~= a + to + replaced(s, from, to));
}

proof fn lemma_unbraced_stays(a: Seq<char>, from: Seq<char>, to: Seq<char>)
    requires
        unbraced(a),
        from.len() > 0,
        from[0] == '{',
    ensures
        replaced(a, from, to) == a,
{
    let e = Seq::<char>::empty();
    assert(a + e =~= a);
    lemma_replaced_behind(a, e, from, to);
}

proof fn lemma_other_brace_stays(name: Seq<char>, from: Seq<char>, to: Seq<char>, s: Seq<char>)
    requires
        name.len() > 1,
        from.len() > 1,
        name[0] == '{',
        from[0] == '{',
        name[1] != from[1],
        unbraced(name.skip(1)),
    ensures
        replaced(name + s, from, to) == name + replaced(s, from, to),
{
    let all = name + s;
    if begins(all, from) {
        assert(all.subrange(0, from.len() as int)[1] == from[1]);
        assert(all[1] == name[1]);
    }
    assert(all.skip(1) =~= name.skip(1) + s);
    lemma_replaced_behind(name.skip(1), s, from, to);
    assert(seq!['{'] + (name.skip(1) + replaced(s, from, to)) =~= name + replaced(s, from, to));
}

/// The editor's command names the file and the line where its template has places for them, and column zero.
pub proof fn law_editor_is_told_the_place(
    a: Seq<char>,
    b: Seq<char>,
    c: Seq<char>,
    d: Seq<char>,
    file: Seq<char>,
    line: Seq<char>,
)
    requires
        unbraced(a),
        unbraced(b),
        unbraced(c),
        unbraced(d),
        unbraced(file),
        unbraced(line),
    ensures
        editor_command(a + "{file}"@ + b + "{line}"@ + c + "{column}"@ + d, file, line) == a + file + b
            + line + c + "0"@ + d,
        editor_command(a + "{line}"@ + b + "{file}"@ + c, file, line) == a + line + b + file + c,
{
    reveal_strlit("{file}");
    reveal_strlit("{line}");
    reveal_strlit("{column}");
    reveal_strlit("0");
    let f = "{file}"@;
    let l = "{line}"@;
    let k = "{column}"@;
    let z = "0"@;
    lemma_brace_names();
    let t = a + f + b + l + c + k + d;
    assert(t =~= a + f + (b + (l + (c + (k + d)))));
    lemma_replaced_once(a, b + (l + (c + (k + d))), f, file);
    lemma_replaced_behind(b, l + (c + (k + d)), f, file);
    lemma_other_brace_stays(l, f, file, c + (k + d));
    lemma_replaced_behind(c, k + d, f, file);
    lemma_other_brace_stays(k, f, file, d);
    lemma_unbraced_stays(d, f, file);
    let t1 = a + file + (b + (l + (c + (k + d))));
    assert(replaced(t, f, file) == t1);
    let before = a + file + b;
    lemma_unbraced_sum(a, file);
    lemma_unbraced_sum(a + file, b);
    assert(t1 =~= before + l + (c + (k + d)));
    lemma_replaced_once(before, c + (k + d), l, line);
    lemma_replaced_behind(c, k + d, l, line);
    lemma_other_brace_stays(k, l, line, d);
    lemma_unbraced_stays(d, l, line);
    let t2 = before + line + (c + (k + d));
    assert(replaced(t1, l, line) == t2);
    let front = before + line + c;
    lemma_unbraced_sum(before, line);
    lemma_unbraced_sum(before + line, c);
    assert(t2 =~= front + k + d);
    lemma_replaced_once(front, d, k, z);
    lemma_unbraced_stays(d, k, z);
    assert(front + z + d =~= a + file + b + line + c + z + d);
    let u = a + l + b + f + c;
    assert(u =~= a + (l + (b + (f + c))));
    lemma_replaced_behind(a, l + (b + (f + c)), f, file);
    lemma_other_brace_stays(l, f, file, b + (f + c));
    assert(b + f + c =~= b + (f + c));
    lemma_replaced_once(b, c, f, file);
    lemma_unbraced_stays(c, f, file);
    let u1 = a + (l + (b + file + c));
    assert(replaced(u, f, file) == u1);
    assert(u1 =~= a + l + (b + file + c));
    lemma_replaced_once(a, b + file + c, l, line);
    lemma_unbraced_sum(b, file);
    lemma_unbraced_sum(b + file, c);
    lemma_unbraced_stays(b + file + c, l, line);
    let u2 = a + line + (b + file + c);
    lemma_unbraced_sum(a, line);
    lemma_unbraced_sum(a + line, b + file + c);
    lemma_unbraced_stays(u2, k, z);
    assert(u2 =~= a + line + b + file + c);
}

proof fn lemma_brace_names()
    ensures
        unbraced("{line}"@.skip(1)),
        unbraced("{column}"@.skip(1)),
        "{file}"@.len() == 6 && "{file}"@[0] == '{' && "{file}"@[1] == 'f',
        "{line}"@.len() == 6 && "{line}"@[0] == '{' && "{line}"@[1] == 'l',
        "{column}"@.len() == 8 && "{column}"@[0] == '{' && "{column}"@[1] == 'c',
{
    reveal_strlit("{file}");
    reveal_strlit("{line}");
    reveal_strlit("{column}");
    let l = "{line}"@.skip(1);
    let k = "{column}"@.skip(1);
    assert(l =~= seq!['l', 'i', 'n', 'e', '}']);
    assert(k =~= seq!['c', 'o', 'l', 'u', 'm', 'n', '}']);
    assert(forall|i: int| 0 <= i < l.len() ==> l[i] != '{');
    assert(forall|i: int| 0 <= i < k.len() ==> k[i] != '{');
}

proof fn lemma_unbraced_sum(a: Seq<char>, b: Seq<char>)
    requires
        unbraced(a),
        unbraced(b),
    ensures
        unbraced(a + b),
{
    let s = a + b;
    if s.contains('{') {
        let i = choose|i: int| 0 <= i < s.len() && s[i] == '{';
        if i < a.len() {
            assert(a[i] == '{');
        } else {
            assert(b[i - a.len()] == '{');
        }
    }
}

/// The text that is looked up stands where the template has a place for it, and else behind the template
/// in quotes; it is quoted either way.
pub proof fn law_looked_up_text_stands_in_the_command(a: Seq<char>, b: Seq<char>, chosen: Seq<char>)
    requires
        unbraced(a),
        unbraced(b),
    ensures
        command_for(a + "{}"@ + b, chosen) == a + quoted(chosen) + b,
        command_for(a, chosen) == a + " '"@ + quoted(chosen) + "'"@,
{
    reveal_strlit("{}");
    let p = "{}"@;
    let t = a + p + b;
    assert(t.subrange(a.len() as int, a.len() as int + 2) =~= p);
    assert(occurs_at(t, p, a.len() as int));
    lemma_replaced_once(a, b, p, quoted(chosen));
    lemma_unbraced_stays(b, p, quoted(chosen));
    if occurs(a, p) {
        let i = choose|i: int| occurs_at(a, p, i);
        assert(a.subrange(i, i + 2)[0] == p[0]);
        assert(a[i] == '{');
    }
}

/// A text is looked up without the white space around it; blank text is not, nor is any without a command.
/// Output that is shown stands under the text, cut where it is long.
pub proof fn law_what_is_looked_up(template: Seq<char>, selected: Seq<char>, display: LookupDisplay)
    requires
        encode_utf8(trimmed(selected)).len() <= usize::MAX,
    ensures
        ({
            let chosen = trimmed(selected);
            let bytes = encode_utf8(chosen).len();
            &&& planned(None, selected, display) == LookupPlanView::NoCommand
            &&& is_blank(selected) ==> planned(Some(template), selected, display)
                == LookupPlanView::NoText
            &&& chosen.len() > 0 ==> planned(Some(template), selected, LookupDisplay::FireAndForget)
                == (LookupPlanView::Launch { command: command_for(template, chosen) })
            &&& chosen.len() > 0 ==> planned(Some(template), selected, LookupDisplay::Popup) == (
            LookupPlanView::Show {
                shown_command: command_for(template, chosen),
                word: heading(chosen),
            })
            &&& bytes <= 40 ==> heading(chosen) == chosen
            &&& bytes > 40 && chosen.len() > 37 ==> heading(chosen) == chosen.take(37) + "..."@
            &&& bytes > 40 && chosen.len() <= 37 ==> heading(chosen) == chosen + "..."@
            &&& refusal(LookupPlanView::NoCommand) == Some(
                (NotificationLevel::Info, Notice::NoLookupCommand),
            )
            &&& refusal(LookupPlanView::NoText) == Some(
                (NotificationLevel::Info, Notice::NoLookupText),
            )
        }),
{
    law_blank_text_is_trimmed_away(selected);
}

/// What is shown of a command: what it wrote where it succeeded, else what it complained of, and its status
/// where it did not complain.
pub proof fn law_what_is_shown_of_a_command(out: Seq<char>, err: Seq<char>, status: Seq<char>)
    ensures
        shown_output(true, out, err, status) == (true, out),
        err.len() > 0 ==> shown_output(false, out, err, status) == (false, err),
        shown_output(false, out, Seq::empty(), status) == (
            false,
            "Command exited with status "@ + status,
        ),
{
}

// ---------------------------------------------------------------------------------------------
// Sources
// ---------------------------------------------------------------------------------------------
/// A source is looked for as it is named, then beside the document, with ever more of the start of its path
/// left out.
pub proof fn law_where_sources_are_looked_for(
    file: Seq<char>,
    dir: Seq<char>,
    own: Seq<char>,
    name: Seq<char>,
    i: int,
)
    requires
        is_name(own),
        is_name(name),
        ({
            let parts = paths::components(file);
            0 <= i < named_parts(parts, parts.len()).len()
        }),
    ensures
        candidates(file, None) =~= seq![file],
        ({
            let pdf = below(below(dir, own), name);
            let parts = named_parts(paths::components(file), paths::components(file).len());
            let found = candidates(file, Some(pdf));
            &&& found[0] == file
            &&& found[i + 1] == crate::main_app::synctex_source::below(below(dir, own), parts, i)
            &&& found =~= seq![file] + beside_pdf(below(dir, own), parts, parts.len()) + main_source(
                file,
                below(dir, own),
                pdf,
            )
        }),
{
    law_parent(dir, own, name);
    let parts = named_parts(paths::components(file), paths::components(file).len());
    lemma_beside(below(dir, own), parts, parts.len(), i);
}

proof fn lemma_beside(dir: Seq<char>, parts: Seq<Seq<char>>, n: nat, i: int)
    requires
        n <= parts.len(),
    ensures
        beside_pdf(dir, parts, n).len() == n,
        0 <= i < n ==> beside_pdf(dir, parts, n)[i] == crate::main_app::synctex_source::below(
            dir,
            parts,
            i,
        ),
    decreases n,
{
    if n > 0 {
        lemma_beside(dir, parts, (n - 1) as nat, i);
    }
}

/// Of a path all components are kept but those that name no file; they follow the directory one by one.
pub proof fn law_parts_of_a_source(parts: Seq<Seq<char>>, part: Seq<char>, dir: Seq<char>)
    ensures
        ({
            let all = parts.push(part);
            let before = named_parts(all, parts.len());
            &&& part == seq!['.'] || part == seq!['.', '.'] ==> named_parts(all, all.len()) == before
            &&& part != seq!['.'] && part != seq!['.', '.'] ==> named_parts(all, all.len())
                == before.push(part)
        }),
        crate::main_app::synctex_source::below(dir, seq![part], 0) == paths::joined(dir, part),
        part.len() > 0 && part[0] != '/' && dir.len() > 0 && dir.last() != '/'
            ==> crate::main_app::synctex_source::below(dir, seq![part], 0) == dir + seq!['/'] + part,
{
    reveal_with_fuel(crate::main_app::synctex_source::below, 2);
    if part.len() > 0 {
        law_joined_paths(dir, part);
    }
}

/// For a file that is made from a source, the source of the whole document is looked for too; for others it
/// is not.
pub proof fn law_made_files_lead_to_the_main_source(
    at: Seq<char>,
    made: Seq<char>,
    ext: Seq<char>,
    dir: Seq<char>,
    pdf_dir: Seq<char>,
    stem: Seq<char>,
)
    requires
        is_stem(made),
        is_stem(stem),
        is_extension(ext),
    ensures
        ({
            let found = main_source(
                below(at, dotted(made, ext)),
                dir,
                below(pdf_dir, dotted(stem, "pdf"@)),
            );
            let low = ascii_lowered(ext);
            let is_made = low == "aux"@ || low == "toc"@ || low == "out"@ || low == "lof"@ || low
                == "lot"@ || low == "nav"@ || low == "snm"@;
            &&& is_made ==> found =~= seq![
                paths::with_extension_spec(paths::joined(dir, stem), "tex"@),
            ]
            &&& !is_made ==> found.len() == 0
        }),
{
    let plain = seq!['a'];
    assert(plain[0] == 'a' && plain.len() == 1);
    assert(seq!['.'][0] == '.' && seq!['.', '.'].len() == 2);
    reveal_strlit("pdf");
    assert(is_extension("pdf"@));
    law_stem_and_extension(at, made, ext, plain);
    law_stem_and_extension(pdf_dir, stem, "pdf"@, plain);
}

/// The first candidate that exists is taken.
pub proof fn law_first_candidate_is_taken(found: Seq<Option<String>>, i: int, k: int)
    requires
        0 <= i <= found.len(),
    ensures
        i <= k < found.len() && found[k] is Some && (forall|j: int|
            #![trigger found[j]]
            i <= j < k ==> found[j] is None) ==> first_found(found, i) == Some(found[k]->0@),
        (forall|j: int| #![trigger found[j]] i <= j < found.len() ==> found[j] is None) ==> first_found(
            found,
            i,
        ) is None,
    decreases found.len() - i,
{
    if i < found.len() {
        law_first_candidate_is_taken(found, i + 1, k);
    }
}

/// What is said of a place in a source and of the page that it leads to; pages are counted from one in what
/// is said, and from zero by the reader.
pub proof fn law_what_is_said_of_a_source(
    dir: Seq<char>,
    name: Seq<char>,
    line: u32,
    page: usize,
    loaded: bool,
)
    requires
        is_name(name),
        page > 0,
    ensures
        ({
            let file = below(dir, name);
            let place = name + ":"@ + decimal(line as nat);
            &&& source_place(file, line) =~= "SyncTeX: "@ + place
            &&& forward_message(true, file, line, Some(page)) =~= "SyncTeX: "@ + place + " -> page "@
                + decimal(page as nat)
            &&& forward_message(true, file, line, None) =~= "SyncTeX: no match for "@ + place
            &&& forward_message(false, file, line, Some(page))
                == "SyncTeX: no synctex data loaded for this PDF"@
            &&& page_from_one(page) == page - 1
            &&& page_from_one(0) == 0
        }),
{
    law_file_name(dir, name);
}

/// What is said of an editor that failed, and of a document whose source is known.
pub proof fn law_what_is_said_of_editors(complaint: Seq<char>, code: Seq<char>, listening: bool)
    ensures
        is_blank(complaint) ==> test_failure(complaint, code) == "SyncTeX test: "@ + ("exit code "@
            + code),
        trimmed(complaint).len() > 0 ==> test_failure(complaint, code) == "SyncTeX test: "@ + trimmed(
            complaint,
        ),
        source_told(false, listening, true) is None,
        source_told(true, listening, false) is None,
        source_told(true, false, true) == Some("SyncTeX loaded but socket listener failed"@),
        source_told(true, true, true) == Some(
            "SyncTeX enabled (Ctrl+click, right-click, or gd to jump to source, \\lv from editor)"@,
        ),
{
    law_blank_text_is_trimmed_away(complaint);
}

// ---------------------------------------------------------------------------------------------
// Libraries
// ---------------------------------------------------------------------------------------------
/// The comments of a library stand beside its bookmarks.
pub proof fn law_comments_stand_beside_bookmarks(dir: Seq<char>, own: Seq<char>, name: Seq<char>)
    requires
        is_name(own),
        is_name(name),
    ensures
        comments_beside(below(below(dir, own), name)) == Some(below(below(dir, own), "comments"@)),
        comments_beside(Seq::empty()) is None,
{
    reveal_strlit("comments");
    law_parent(dir, own, name);
    let d = below(dir, own);
    assert(d.last() == own.last());
    assert(own[own.len() - 1] != '/');
    law_joined_paths(d, "comments"@);
}

/// The library of the open book is its own, and that of the directory where it has none; bookmarks belong to
/// the library that is kept in their file, and no file means the one of the directory.
pub proof fn law_libraries_of_books(c: Contexts, other: LibraryContext, path: Seq<char>)
    ensures
        ({
            let home = Contexts { current_override: None, ..c };
            let away = Contexts { current_override: Some(other), ..c };
            let home_file = option_view(c.home.bookmarks.file_path);
            let other_file = option_view(other.bookmarks.file_path);
            &&& home.current() == c.home
            &&& away.current() == other
            &&& c.of_source(None) == Some(WhichContext::Home)
            &&& home_file == Some(path) ==> away.of_source(Some(path)) == Some(WhichContext::Home)
            &&& home_file != Some(path) && other_file == Some(path) ==> away.of_source(Some(path))
                == Some(WhichContext::Override)
            &&& home_file != Some(path) && other_file != Some(path) ==> away.of_source(Some(path))
                is None
            &&& home_file != Some(path) ==> home.of_source(Some(path)) is None
            &&& c.needs(Seq::empty()) == SourceNeeds::Nothing
            &&& home_file == Some(path) ==> c.needs(path) == SourceNeeds::Nothing
            &&& home_file != Some(path) && path.len() > 0 ==> c.needs(path) == SourceNeeds::Load
        }),
{
}

/// The place that is left is saved first, then the library changes, then the book is opened; where that
/// fails the library is put back.
pub proof fn law_order_of_opening()
    ensures
        open_steps(true) =~= seq![
            OpenStep::SavePlace { force: true },
            OpenStep::UseLibrary,
            OpenStep::Open,
        ],
        open_steps(false) =~= open_steps(true).push(OpenStep::PutLibraryBack),
{
}

// ---------------------------------------------------------------------------------------------
// Messages
// ---------------------------------------------------------------------------------------------
/// A failure is told with its cause.
pub proof fn law_failures_are_told(detail: Seq<char>, cause: Seq<char>)
    ensures
        ({
            let told = |n: Notice| wording(n, detail, cause);
            &&& told(Notice::DeleteAnnotationFailed) == "Failed to delete annotation: "@ + cause
            &&& told(Notice::DeleteCommentFailed) == "Failed to delete comment: "@ + cause
            &&& told(Notice::NavigateToChapterFailed) == "Failed to navigate to chapter: "@ + cause
            &&& told(Notice::NavigateToCommentFailed) == "Failed to navigate to comment: "@ + cause
            &&& told(Notice::StatisticsFailed) == "Failed to calculate statistics: "@ + cause
            &&& told(Notice::OpenBookFailed) == "Failed to open book: "@ + cause
            &&& told(Notice::OpenPathFailed) == "Failed to open '"@ + detail + "': "@ + cause
            &&& told(Notice::SourceBookmarksFailed) == "Failed to load source library bookmarks: "@
                + cause
            &&& told(Notice::AutoLoadFailed) == "Failed to auto-load recent book: "@ + cause
            &&& told(Notice::LoadEpubFailed) == "Failed to load EPUB: "@ + cause
            &&& told(Notice::JumpToMarkFailed) == "Failed to jump to mark: "@ + cause
            &&& told(Notice::JumpBackFailed) == "Failed to jump back: "@ + cause
            &&& told(Notice::JumpForwardFailed) == "Failed to jump forward: "@ + cause
            &&& told(Notice::ExportFailed) == "Failed to export: "@ + cause
            &&& told(Notice::OpenExternallyFailed) == "Failed to open in external viewer: "@ + cause
            &&& told(Notice::LookupNotLaunched) == "Failed to launch command: "@ + cause
            &&& told(Notice::PdfBlocked) == cause
        }),
{
}

/// What is about a mark names it, what is about a setting says how it is set, and what is about a file names
/// the file.
pub proof fn law_messages_name_what_they_are_about(c: char, detail: Seq<char>, cause: Seq<char>)
    ensures
        ({
            let told = |n: Notice| wording(n, detail, cause);
            &&& told(Notice::SetLocalMark(c)) =~= "Set mark '"@ + seq![c] + "'"@
            &&& told(Notice::SetGlobalMark(c)) =~= "Set global mark '"@ + seq![c] + "'"@
            &&& told(Notice::NoLocalMark(c)) =~= "No mark '"@ + seq![c] + "' in this book."@
            &&& told(Notice::NoGlobalMark(c)) =~= "No global mark '"@ + seq![c] + "'."@
            &&& told(Notice::LocalMarkRefused(c)) =~= "Could not set mark '"@ + seq![c]
                + "': no bookmark entry."@
            &&& told(Notice::JustifyOn) == "Text justification: on"@
            &&& told(Notice::JustifyOff) == "Text justification: off"@
            &&& told(Notice::SortedByName) == "Sort: by name"@
            &&& told(Notice::SortedByType) == "Sort: by type"@
            &&& told(Notice::Theme) == "Theme: "@ + detail
            &&& told(Notice::ColumnLayout) == "Column layout: "@ + detail
            &&& told(Notice::PageLayout) == "Page layout: "@ + detail
            &&& told(Notice::RenderMode) == "Render mode: "@ + detail
            &&& told(Notice::ExportedComments) == "Exported to "@ + detail
            &&& told(Notice::BookGone) == "Book no longer exists: "@ + detail
            &&& told(Notice::LookupLaunched) == "Launched: "@ + detail
            &&& hud_wording(Hud::NoHighlightToRemove) == Some("No highlight here to remove"@)
            &&& hud_wording(Hud::UnknownColor) == Some("Unknown highlight color"@)
            &&& hud_wording(Hud::SelectTextFirst) == Some(
                "Select text, or place the cursor on a highlight, then press H"@,
            )
        }),
{
}

} // verus!
