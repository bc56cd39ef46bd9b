//! Looking up the selected text with a command of the user.
use vstd::prelude::*;
use vstd::string::*;
use vstd::utf8::encode_utf8;

use crate::main_app::state::{group_run_sound, sound};
use crate::main_app::state::{
    App, Effect, NotificationLevel, Notice, PopupWindow, Run, RunView,
};
use crate::text;
use crate::text::{begins, lossy_text, occurs, option_view, replaced, trimmed, utf8_lossy};

verus! {

/// How the result of a lookup is shown.
#[derive(Clone, Copy, Debug, PartialEq, Eq, Structural)]
pub enum LookupDisplay {
    FireAndForget,
    Popup,
}

/// What a lookup comes to.
pub enum LookupPlan {
    /// No command is set.
    NoCommand,
    /// No text is selected.
    NoText,
    /// The command is started and left alone.
    Launch { command: String },
    /// The command is run, and its output shown under the given heading.
    Show { shown_command: String, word: String },
}

/// What a lookup comes to.
pub enum LookupPlanView {
    NoCommand,
    NoText,
    Launch { command: Seq<char> },
    Show { shown_command: Seq<char>, word: Seq<char> },
}

impl View for LookupPlan {
    type V = LookupPlanView;

    open spec fn view(&self) -> LookupPlanView {
        match self {
            LookupPlan::NoCommand => LookupPlanView::NoCommand,
            LookupPlan::NoText => LookupPlanView::NoText,
            LookupPlan::Launch { command } => LookupPlanView::Launch { command: command@ },
            LookupPlan::Show { shown_command, word } => LookupPlanView::Show {
                shown_command: shown_command@,
                word: word@,
            },
        }
    }
}

/// A text as it stands between single quotes of a shell.
pub open spec fn quoted(s: Seq<char>) -> Seq<char> {
    replaced(s, "'"@, "'\\''"@)
}

/// The command for a text: put where the template has `{}`, or else behind it in quotes.
pub open spec fn command_for(template: Seq<char>, chosen: Seq<char>) -> Seq<char> {
    if occurs(template, "{}"@) {
        replaced(template, "{}"@, quoted(chosen))
    } else {
        template + " '"@ + quoted(chosen) + "'"@
    }
}

/// The heading of the output: the text, cut where it is longer than forty bytes.
pub open spec fn heading(s: Seq<char>) -> Seq<char> {
    if encode_utf8(s).len() as usize > 40 {
        if s.len() > 37 {
            s.take(37) + "..."@
        } else {
            s + "..."@
        }
    } else {
        s
    }
}

/// What a lookup comes to.
pub open spec fn planned(
    template: Option<Seq<char>>,
    selected: Seq<char>,
    display: LookupDisplay,
) -> LookupPlanView {
    match template {
        None => LookupPlanView::NoCommand,
        Some(t) => {
            let chosen = trimmed(selected);
            if chosen.len() == 0 {
                LookupPlanView::NoText
            } else {
                match display {
                    LookupDisplay::FireAndForget => LookupPlanView::Launch {
                        command: command_for(t, chosen),
                    },
                    LookupDisplay::Popup => LookupPlanView::Show {
                        shown_command: command_for(t, chosen),
                        word: heading(chosen),
                    },
                }
            }
        },
    }
}

fn make_command(template: &str, chosen: &str) -> (r: String)
    ensures
        r@ == command_for(template@, chosen@),
{
    proof {
        reveal_strlit("'");
        reveal_strlit("{}");
    }
    let escaped = text::replace(chosen, "'", "'\\''");
    if text::contains(template, "{}") {
        text::replace(template, "{}", escaped.as_str())
    } else {
        let mut s = text::copy(template);
        s.append(" '");
        s.append(escaped.as_str());
        s.append("'");
        s
    }
}

fn make_heading(s: &str) -> (r: String)
    ensures
        r@ == heading(s@),
{
    if s.len() > 40 {
        let cs = text::chars_of(s);
        let to: usize = if cs.len() > 37 {
            37
        } else {
            cs.len()
        };
        let kept = text::slice(&cs, 0, to);
        let mut r = text::string_of(&kept);
        assert(r@ =~= s@.take(to as int));
        assert(s@.take(s@.len() as int) =~= s@);
        r.append("...");
        r
    } else {
        text::copy(s)
    }
}

/// What a lookup of the selected text comes to.
pub fn execute_lookup_command(
    template: &Option<String>,
    selected_text: &str,
    display: LookupDisplay,
) -> (r: LookupPlan)
    ensures
        r@ == planned(option_view(*template), selected_text@, display),
{
    match template {
        None => LookupPlan::NoCommand,
        Some(t) => {
            let chosen = text::trim_str(selected_text);
            let cs = text::chars_of(chosen.as_str());
            if cs.len() == 0 {
                return LookupPlan::NoText;
            }
            let command = make_command(t.as_str(), chosen.as_str());
            match display {
                LookupDisplay::FireAndForget => LookupPlan::Launch { command },
                LookupDisplay::Popup => {
                    let word = make_heading(chosen.as_str());
                    LookupPlan::Show { shown_command: command, word }
                },
            }
        },
    }
}

/// What is told of a lookup that runs no command.
pub open spec fn refusal(plan: LookupPlanView) -> Option<(NotificationLevel, Notice)> {
    match plan {
        LookupPlanView::NoCommand => Some((NotificationLevel::Info, Notice::NoLookupCommand)),
        LookupPlanView::NoText => Some((NotificationLevel::Info, Notice::NoLookupText)),
        LookupPlanView::Launch { .. } => None,
        LookupPlanView::Show { .. } => None,
    }
}

/// What is told of a lookup that runs no command.
pub fn refusal_of(plan: &LookupPlan) -> (r: Option<(NotificationLevel, Notice)>)
    ensures
        r == refusal(plan@),
{
    match plan {
        LookupPlan::NoCommand => Some((NotificationLevel::Info, Notice::NoLookupCommand)),
        LookupPlan::NoText => Some((NotificationLevel::Info, Notice::NoLookupText)),
        LookupPlan::Launch { .. } => None,
        LookupPlan::Show { .. } => None,
    }
}

/// What is told of a command that is left alone: that it was started, naming the template, or why it
/// was not.
pub fn launch_notice(launched: bool) -> (r: (NotificationLevel, Notice))
    ensures
        r == (if launched {
            (NotificationLevel::Info, Notice::LookupLaunched)
        } else {
            (NotificationLevel::Error, Notice::LookupNotLaunched)
        }),
{
    if launched {
        (NotificationLevel::Info, Notice::LookupLaunched)
    } else {
        (NotificationLevel::Error, Notice::LookupNotLaunched)
    }
}

/// What is shown of a command that could not be run.
pub fn not_run(cause: &str) -> (r: String)
    ensures
        r@ == "Failed to run command: "@ + cause@,
{
    let mut s = text::copy("Failed to run command: ");
    s.append(cause);
    s
}

/// How a command that ran ended.
pub struct CommandOutput {
    pub success: bool,
    pub stdout: Vec<u8>,
    pub stderr: Vec<u8>,
    /// How the system words the status.
    pub status: String,
}

/// What is shown of a command that ran: its output, or what it complained of, or its status.
pub open spec fn shown_output(success: bool, out: Seq<char>, err: Seq<char>, status: Seq<char>) -> (
    bool,
    Seq<char>,
) {
    if success {
        (true, out)
    } else if err.len() == 0 {
        (false, "Command exited with status "@ + status)
    } else {
        (false, err)
    }
}

/// What is shown of a command whose output was read as text.
pub fn output_shown(success: bool, out: String, err: String, status: &str) -> (r: Result<
    String,
    String,
>)
    ensures
        match r {
            Ok(s) => shown_output(success, out@, err@, status@) == (true, s@),
            Err(s) => shown_output(success, out@, err@, status@) == (false, s@),
        },
{
    if success {
        Ok(out)
    } else {
        let cs = text::chars_of(err.as_str());
        if cs.len() == 0 {
            let mut s = text::copy("Command exited with status ");
            s.append(status);
            Err(s)
        } else {
            Err(err)
        }
    }
}

/// What is shown of a command that ran.
pub fn lookup_result(output: &CommandOutput) -> (r: Result<String, String>)
    ensures
        ({
            let shown = shown_output(
                output.success,
                utf8_lossy(output.stdout@),
                utf8_lossy(output.stderr@),
                output.status@,
            );
            match r {
                Ok(s) => shown == (true, s@),
                Err(s) => shown == (false, s@),
            }
        }),
{
    let out = lossy_text(output.stdout.as_slice());
    let err = lossy_text(output.stderr.as_slice());
    output_shown(output.success, out, err, output.status.as_str())
}

impl RunView {
    /// The window with the output of a command.
    pub open spec fn show_lookup(self) -> RunView {
        self.remember_panel().open_window(PopupWindow::Lookup)
    }
}

impl App {
    /// Shows the output of a command that ran.
    pub fn lookup_done(&mut self) -> (effects: Vec<Effect>)
        ensures
            ({
                let r = RunView::start(*old(self)).show_lookup();
                *final(self) == r.app && effects@ == r.out
            }),
    {
        let mut run = Run::start(*self);
        run.remember_panel();
        run.open_window(PopupWindow::Lookup);
        *self = run.app;
        run.out
    }
}

/// The window with the output has the focus and exists.
pub proof fn law_lookup_is_sound(r: RunView)
    ensures
        sound(r.show_lookup()),
{
    broadcast use group_run_sound;

}

/// What a shell reads of one word, from a place within or outside single quotes on: within them
/// every character stands for itself up to the closing quote, outside them a backslash makes the
/// next one do so.
pub open spec fn shell_reads(t: Seq<char>, within: bool) -> Option<Seq<char>>
    decreases t.len(),
{
    if t.len() == 0 {
        if within {
            None
        } else {
            Some(Seq::empty())
        }
    } else if t[0] == '\'' {
        shell_reads(t.skip(1), !within)
    } else if !within && t[0] == '\\' {
        if t.len() < 2 {
            None
        } else {
            match shell_reads(t.skip(2), false) {
                Some(rest) => Some(seq![t[1]] + rest),
                None => None,
            }
        }
    } else {
        match shell_reads(t.skip(1), within) {
            Some(rest) => Some(seq![t[0]] + rest),
            None => None,
        }
    }
}

/// A shell reads back what was quoted: between the quotes of the command stands the selected text
/// and nothing else, whatever it holds.
pub proof fn law_shell_reads_back_quoted_text(s: Seq<char>)
    ensures
        shell_reads(quoted(s) + "'"@, true) == Some(s),
    decreases s.len(),
{
    reveal_strlit("'");
    reveal_strlit("'\\''");
    let q = "'"@;
    assert(q =~= seq!['\'']);
    reveal_with_fuel(shell_reads, 2);
    if s.len() == 0 {
        assert(quoted(s) + q =~= q);
        assert(q.skip(1) =~= Seq::<char>::empty());
    } else {
        let rest = s.skip(1);
        law_shell_reads_back_quoted_text(rest);
        let tail = quoted(rest) + q;
        assert(begins(s, q) == (s[0] == '\'')) by {
            assert(s.subrange(0, 1)[0] == s[0]);
            if s[0] == '\'' {
                assert(s.subrange(0, 1) =~= q);
            }
        }
        if s[0] == '\'' {
            let e = "'\\''"@;
            assert(e =~= seq!['\'', '\\', '\'', '\'']);
            let t = quoted(s) + q;
            assert(t =~= e + tail);
            assert(t.skip(1) =~= seq!['\\', '\'', '\''] + tail);
            assert(t.skip(1).skip(2) =~= seq!['\''] + tail);
            assert(t.skip(1).skip(2).skip(1) =~= tail);
            assert(shell_reads(t.skip(1).skip(2), false) == shell_reads(tail, true));
            assert(shell_reads(t.skip(1), false) == Some(seq!['\''] + rest));
            assert(seq!['\''] + rest =~= s);
        } else {
            let t = quoted(s) + q;
            assert(t =~= seq![s[0]] + tail);
            assert(t.skip(1) =~= tail);
            assert(seq![s[0]] + rest =~= s);
        }
    }
}

} // verus!
