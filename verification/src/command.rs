//! Status scripts: what mandwm knows of each, and how the outcome of one
//! run of a script becomes either bar text or a warning.

use vstd::prelude::*;
use crate::error::{MandwmError, MandwmErrorLevel};

verus! {

/// What std's `Debug` impl for an OS string (`OsStr`, as a script's name is
/// held by the process layer) gives for the string `s`: the string in
/// double quotes, with its special characters escaped.
pub uninterp spec fn os_str_debug_text(s: Seq<char>) -> Seq<char>;

/// Formats `s` as std formats a path or OS string for debugging:
/// `format!("{:?}", std::path::Path::new(s))`, whose `Debug` impl is that of
/// `OsStr`. Trusted: the contract only names the result; that formatting
/// depends on nothing but the string is all that is claimed.
#[verifier::external_body]
fn os_str_debug_string(s: &str) -> (r: String)
    ensures
        r@ == os_str_debug_text(s@),
{
    format!("{:?}", std::path::Path::new(s))
}

/// How one run of a status script ended, as the process layer saw it.
pub enum CommandRun {
    /// The script ran to its end: what it wrote, whether its exit status
    /// counts as success, and that status as text.
    Finished { stdout: String, stderr: String, success: bool, status: String },
    /// The script could not be started; the reason as text.
    NotStarted { error: String },
}

/// A status script: the name it runs under and the directory it came from.
#[derive(Debug)]
pub struct MandwmCommand {
    pub name: String,
    pub path: String,
}

/// The warning text for a script that ran but did not succeed.
pub open spec fn failed_run_message(
    name: Seq<char>,
    stdout: Seq<char>,
    stderr: Seq<char>,
    status: Seq<char>,
) -> Seq<char> {
    "Error executing command.\nName: "@ + os_str_debug_text(name) + "\nSTDERR: "@ + stderr
        + "\nSTDOUT: "@ + stdout + "\nSTATUS: "@ + status
}

/// The warning text for a script that could not be started.
pub open spec fn not_started_message(name: Seq<char>, error: Seq<char>) -> Seq<char> {
    "Unable to execute command.\nName: "@ + os_str_debug_text(name) + "\nExecution error: "@ + error
}

/// `text` with every newline taken out.
pub open spec fn without_newlines(text: Seq<char>) -> Seq<char>
    decreases text.len(),
{
    if text.len() == 0 {
        Seq::empty()
    } else if text.last() == '\n' {
        without_newlines(text.drop_last())
    } else {
        without_newlines(text.drop_last()).push(text.last())
    }
}

/// Takes every newline out of `text`, so that a script's output fits on
/// the one line of the bar.
pub fn strip_newlines(text: &str) -> (stripped: String)
    ensures
        stripped@ == without_newlines(text@),
        stripped@ == text@.filter(not_newline()),
{
    proof {
        lemma_without_newlines_is_filter(text@);
    }
    let n = text.unicode_len();
    let mut stripped = String::new();
    let mut start: usize = 0;
    let mut i: usize = 0;
    while i < n
        invariant
            n == text@.len(),
            start <= i <= n,
            stripped@ + text@.subrange(start as int, i as int) == without_newlines(text@.subrange(0, i as int)),
        decreases n - i,
    {
        let c = text.get_char(i);
        proof {
            assert(text@.subrange(0, i + 1).drop_last() =~= text@.subrange(0, i as int));
            assert(text@.subrange(0, i + 1).last() == c);
        }
        if c == '\n' {
            let run = text.substring_char(start, i);
            stripped.append(run);
            start = i + 1;
            assert(text@.subrange(start as int, i + 1) =~= Seq::<char>::empty());
            assert(stripped@ + text@.subrange(start as int, i + 1) =~= stripped@);
        } else {
            assert(text@.subrange(start as int, i + 1) =~= text@.subrange(start as int, i as int).push(c));
            assert(stripped@ + text@.subrange(start as int, i + 1) =~= (stripped@ + text@.subrange(start as int, i as int)).push(c));
        }
        i = i + 1;
    }
    let rest = text.substring_char(start, n);
    stripped.append(rest);
    assert(text@.subrange(0, n as int) =~= text@);
    stripped
}

/// Law: stripped text holds no newline, and stripping it again changes
/// nothing.
pub proof fn lemma_without_newlines(text: Seq<char>)
    ensures
        forall|i: int| 0 <= i < without_newlines(text).len() ==> #[trigger] without_newlines(text)[i] != '\n',
        without_newlines(without_newlines(text)) == without_newlines(text),
        without_newlines(text).len() <= text.len(),
    decreases text.len(),
{
    if text.len() > 0 {
        lemma_without_newlines(text.drop_last());
        let w = without_newlines(text.drop_last());
        if text.last() != '\n' {
            let wp = w.push(text.last());
            assert(wp.drop_last() =~= w);
        }
    }
}

/// Whether a character stays in the bar: every character but a newline.
pub open spec fn not_newline() -> spec_fn(char) -> bool {
    |c: char| c != '\n'
}

/// Law: taking the newlines out keeps every other character, in order: it
/// is exactly the text filtered by `not_newline`.
pub proof fn lemma_without_newlines_is_filter(text: Seq<char>)
    ensures
        without_newlines(text) == text.filter(not_newline()),
    decreases text.len(),
{
    reveal(Seq::filter);
    if text.len() > 0 {
        lemma_without_newlines_is_filter(text.drop_last());
    }
}

/// The bar text that a run gives, if it gives one: a run that finished with
/// a success status gives its standard output with exactly the newlines
/// removed; any other run gives none.
pub open spec fn success_output(run: CommandRun) -> Option<Seq<char>> {
    match run {
        CommandRun::Finished { stdout, success, .. } => {
            if success {
                Some(stdout@.filter(not_newline()))
            } else {
                None
            }
        },
        CommandRun::NotStarted { .. } => None,
    }
}

/// What a run of the script named `name` contributes: its standard output
/// with the newlines taken out on success, else a warning whose message is
/// given above.
pub open spec fn run_outcome(name: Seq<char>, run: CommandRun) -> Result<Seq<char>, (Seq<char>, MandwmErrorLevel)> {
    match run {
        CommandRun::Finished { stdout, stderr, success, status } => {
            if success {
                Ok(without_newlines(stdout@))
            } else {
                Err((failed_run_message(name, stdout@, stderr@, status@), MandwmErrorLevel::WARN))
            }
        },
        CommandRun::NotStarted { error } => {
            Err((not_started_message(name, error@), MandwmErrorLevel::WARN))
        },
    }
}

/// Law: a run contributes bar text exactly when it finished with a success
/// status, and that text is its standard output with only the newlines
/// removed; every other run, whatever it wrote, is a warning.
pub proof fn lemma_run_outcome(name: Seq<char>, run: CommandRun)
    ensures
        run_outcome(name, run) is Ok <==> success_output(run) is Some,
        run_outcome(name, run) matches Ok(text) ==> success_output(run) == Some(text),
        run_outcome(name, run) matches Err((_, level)) ==> level == MandwmErrorLevel::WARN,
{
    match run {
        CommandRun::Finished { stdout, .. } => {
            lemma_without_newlines_is_filter(stdout@);
        },
        CommandRun::NotStarted { .. } => {},
    }
}

impl MandwmCommand {
    /// Renames the script.
    pub fn set_name(&mut self, name: &str)
        ensures
            final(self).name@ == name@,
            final(self).path == old(self).path,
    {
        self.name = name.to_owned();
    }

    /// Turns the outcome of one run of this script into bar text or a
    /// warning.
    pub fn output(&self, run: CommandRun) -> (r: Result<String, MandwmError>)
        ensures
            match (r, run_outcome(self.name@, run)) {
                (Ok(text), Ok(expected)) => text@ == expected,
                (Err(e), Err((message, level))) => e.spec_message() == message && e.spec_level() == level,
                _ => false,
            },
            r is Ok <==> success_output(run) is Some,
            r matches Ok(text) ==> success_output(run) == Some(text@),
            r matches Err(e) ==> e.spec_level() == MandwmErrorLevel::WARN,
    {
        proof {
            lemma_run_outcome(self.name@, run);
        }
        match run {
            CommandRun::Finished { stdout, stderr, success, status } => {
                if success {
                    Ok(strip_newlines(stdout.as_str()))
                } else {
                    let mut message = String::from_str("Error executing command.\nName: ");
                    let name = os_str_debug_string(self.name.as_str());
                    message.append(name.as_str());
                    message.append("\nSTDERR: ");
                    message.append(stderr.as_str());
                    message.append("\nSTDOUT: ");
                    message.append(stdout.as_str());
                    message.append("\nSTATUS: ");
                    message.append(status.as_str());
                    Err(MandwmError::warn(message))
                }
            },
            CommandRun::NotStarted { error } => {
                let mut message = String::from_str("Unable to execute command.\nName: ");
                let name = os_str_debug_string(self.name.as_str());
                message.append(name.as_str());
                message.append("\nExecution error: ");
                message.append(error.as_str());
                Err(MandwmError::warn(message))
            },
        }
    }
}

} // verus!
