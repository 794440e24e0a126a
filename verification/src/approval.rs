//! The decisions of an approval round-trip: which editor to run, what the
//! editor's exit and the saved buffer mean, and what each mode reports.
use vstd::prelude::*;

use std::io::Error as IoError;
use std::path::PathBuf;

use crate::draft::{build_draft, draft_spec};
use crate::laws::{context_ok, no_crlf};
use crate::error::{FileError, FileOutcome, Outcome, ScissorsError};
use crate::strip::{strip_scissors, stripped};
use crate::text::{is_blank, is_blank_spec, trim, trim_end_spec, trim_spec};

verus! {

/// The error `shell_words::split` reports for an unmatched quote.
#[verifier::external_type_specification]
#[verifier::external_body]
pub struct ExParseError(shell_words::ParseError);

/// Editor returning faster than this (in milliseconds) with an unchanged
/// buffer is treated as a silent failure (the editor never opened).
pub const MIN_ELAPSED_MS: u128 = 500;

/// The words that `shell_words::split` makes of a command line, or `None`
/// where it reports an unmatched quote.
pub uninterp spec fn shell_split(s: Seq<char>) -> Option<Seq<Seq<char>>>;

/// `shell_words::split`: splits a command line into words the way a Unix
/// shell does (quote removal, backslash escapes, `#` comments). Claimed:
/// the words, or the error, are `shell_split` of the text, a function of the
/// text alone.
#[verifier::external_body]
fn split_words(s: &str) -> (r: Result<Vec<String>, shell_words::ParseError>)
    ensures
        match r {
            Ok(w) => shell_split(s@) == Some(w.deep_view()),
            Err(_) => shell_split(s@) is None,
        },
{
    shell_words::split(s)
}

/// `std::io::Error::new` with kind `InvalidInput`, wrapping a split error.
/// Nothing is claimed of the error value.
#[verifier::external_body]
fn invalid_input(e: shell_words::ParseError) -> IoError {
    std::io::Error::new(std::io::ErrorKind::InvalidInput, e)
}

/// What one editor variable decides, given what splitting it gave: `None`
/// to fall through to the next variable, `Some(None)` for an unsplittable
/// command, `Some(Some(words))` to run `words`.
pub open spec fn split_decision(split: Option<Seq<Seq<char>>>) -> Option<Option<Seq<Seq<char>>>> {
    match split {
        None => Some(None),
        Some(w) => if w.len() == 0 {
            None
        } else {
            Some(Some(w))
        },
    }
}

/// What one editor variable decides: unset or blank falls through,
/// otherwise its trimmed value is split into words.
pub open spec fn var_decision(val: Option<Seq<char>>) -> Option<Option<Seq<Seq<char>>>> {
    match val {
        None => None,
        Some(v) => if trim_spec(v).len() == 0 {
            None
        } else {
            split_decision(shell_split(trim_spec(v)))
        },
    }
}

/// The editor command chosen from `$SCISSORS_EDITOR`, `$VISUAL` and
/// `$EDITOR`, in that order, falling back to `vi`; `None` when the first
/// variable that decides cannot be split.
pub open spec fn editor_spec(
    scissors_editor: Option<Seq<char>>,
    visual: Option<Seq<char>>,
    editor: Option<Seq<char>>,
) -> Option<Seq<Seq<char>>> {
    match var_decision(scissors_editor) {
        Some(d) => d,
        None => match var_decision(visual) {
            Some(d) => d,
            None => match var_decision(editor) {
                Some(d) => d,
                None => Some(seq![seq!['v', 'i']]),
            },
        },
    }
}

/// `val` is set to a command that splits into the words `w`, at least one.
pub open spec fn gives_words(val: Option<Seq<char>>, w: Seq<Seq<char>>) -> bool {
    &&& val is Some
    &&& trim_spec(val->0).len() > 0
    &&& shell_split(trim_spec(val->0)) == Some(w)
    &&& w.len() > 0
}

/// `val` chooses no command: it is unset, blank, or splits into no words.
pub open spec fn gives_nothing(val: Option<Seq<char>>) -> bool {
    ||| val is None
    ||| trim_spec(val->0).len() == 0
    ||| shell_split(trim_spec(val->0)) == Some(Seq::<Seq<char>>::empty())
}

/// The view of an optional text.
pub open spec fn opt_view(s: Option<&str>) -> Option<Seq<char>> {
    match s {
        Some(v) => Some(v@),
        None => None,
    }
}

/// What a split result decides: an error is reported as an I/O error of
/// kind `InvalidInput`, no words fall through (`None`), words are the
/// command.
pub fn words_decision(split: Result<Vec<String>, shell_words::ParseError>) -> (r: Option<
    Result<Vec<String>, ScissorsError>,
>)
    ensures
        match split {
            Err(_) => r matches Some(Err(ScissorsError::Io(_))),
            Ok(w) => if w.len() == 0 {
                r is None
            } else {
                r matches Some(Ok(c)) && c.deep_view() == w.deep_view()
            },
        },
{
    match split {
        Err(e) => Some(Err(ScissorsError::Io(invalid_input(e)))),
        Ok(w) => if w.len() == 0 {
            None
        } else {
            Some(Ok(w))
        },
    }
}

/// What one editor variable decides (see `var_decision`).
fn decide_var(val: Option<&str>) -> (r: Option<Result<Vec<String>, ScissorsError>>)
    ensures
        match var_decision(opt_view(val)) {
            None => r is None,
            Some(None) => r matches Some(Err(ScissorsError::Io(_))),
            Some(Some(w)) => r matches Some(Ok(c)) && c.deep_view() == w,
        },
{
    match val {
        None => None,
        Some(v) => {
            let t = trim(v);
            if t.as_str().is_empty() {
                None
            } else {
                let split = split_words(t.as_str());
                words_decision(split)
            }
        },
    }
}

/// Resolve the editor command, honouring `$SCISSORS_EDITOR` > `$VISUAL` >
/// `$EDITOR` > `vi`, given the variables' values (`None` when unset). A
/// blank value is skipped; the first other value is split into words like
/// a shell would, and one that yields no words is skipped too.
///
/// Fails with `ScissorsError::Io` when that value has an unmatched quote.
pub fn editor_command(
    scissors_editor: Option<&str>,
    visual: Option<&str>,
    editor: Option<&str>,
) -> (r: Result<Vec<String>, ScissorsError>)
    ensures
        match editor_spec(opt_view(scissors_editor), opt_view(visual), opt_view(editor)) {
            Some(w) => r matches Ok(c) && c.deep_view() == w,
            None => r matches Err(ScissorsError::Io(_)),
        },
        // `$SCISSORS_EDITOR` with at least one word is the command, whatever
        // the other variables hold.
        forall|w: Seq<Seq<char>>|
            #[trigger] gives_words(opt_view(scissors_editor), w) ==> (r matches Ok(c)
                && c.deep_view() == w),
        // Otherwise `$VISUAL` with at least one word is chosen over `$EDITOR`.
        forall|w: Seq<Seq<char>>|
            gives_nothing(opt_view(scissors_editor)) && #[trigger] gives_words(opt_view(visual), w)
                ==> (r matches Ok(c) && c.deep_view() == w),
        // Then `$EDITOR`.
        forall|w: Seq<Seq<char>>|
            gives_nothing(opt_view(scissors_editor)) && gives_nothing(opt_view(visual))
                && #[trigger] gives_words(opt_view(editor), w) ==> (r matches Ok(c) && c.deep_view()
                == w),
        // And `vi` when none of them chooses a command.
        gives_nothing(opt_view(scissors_editor)) && gives_nothing(opt_view(visual))
            && gives_nothing(opt_view(editor)) ==> (r matches Ok(c) && c.deep_view() == seq![
            seq!['v', 'i'],
        ]),
        // A command always has a program to run.
        r matches Ok(c) ==> c.len() > 0,
{
    proof {
        crate::laws::law_editor_priority(opt_view(scissors_editor), opt_view(visual), opt_view(editor));
    }
    if let Some(r) = decide_var(scissors_editor) {
        return r;
    }
    if let Some(r) = decide_var(visual) {
        return r;
    }
    if let Some(r) = decide_var(editor) {
        return r;
    }
    let mut v: Vec<String> = Vec::new();
    let vi = String::from_str("vi");
    proof {
        reveal_strlit("vi");
    }
    assert(vi@ =~= seq!['v', 'i']);
    v.push(vi);
    assert(v.deep_view()[0] == v@[0]@);
    assert(v.deep_view() =~= seq![seq!['v', 'i']]);
    Ok(v)
}

/// What an editor round-trip produced, before the draft is kept or
/// discarded.
#[derive(Debug)]
pub enum Verdict {
    /// The approved content: what is above the scissors line, trimmed.
    Approved(String),
    /// The user emptied the content above the scissors line.
    Aborted,
    /// The editor returned too fast with nothing changed.
    SilentFailure { elapsed_ms: u32 },
    /// The editor exited unsuccessfully.
    EditorFailed { code: i32 },
}

/// The verdict for an editor that exited unsuccessfully, with its exit
/// code (`None` when it was killed by a signal, reported as `-1`).
pub fn failed_exit_verdict(code: Option<i32>) -> (v: Verdict)
    ensures
        v == (Verdict::EditorFailed {
            code: match code {
                Some(c) => c,
                None => -1i32,
            },
        }),
{
    match code {
        Some(c) => Verdict::EditorFailed { code: c },
        None => Verdict::EditorFailed { code: -1 },
    }
}

/// What the cut gives of the buffer as it was written for `original`
/// (with the footer's `context` label): the content an unchanged buffer
/// comes back as.
pub open spec fn unchanged_content(original: Seq<char>, context: Option<Seq<char>>) -> Seq<char> {
    stripped(draft_spec(original, context))
}

/// The verdict for an editor that exited successfully after `elapsed_ms`
/// milliseconds, leaving the buffer `raw`, for the draft written for
/// `original` with the footer's `context` label. The buffer counts as
/// unchanged when the cut gives what it gives of the draft as written (so
/// line endings that the cut normalises do not count as a change).
/// Aborting (nothing but whitespace above the scissors line) wins over the
/// silent-failure heuristic: emptying the buffer is a deliberate abort.
pub fn saved_draft_verdict(raw: &str, original: &str, context: Option<&str>, elapsed_ms: u128) -> (v:
    Verdict)
    ensures
        ({
            let fc = stripped(raw@);
            let unchanged = fc == unchanged_content(original@, opt_view(context));
            match v {
                Verdict::Aborted => is_blank_spec(fc),
                Verdict::SilentFailure { elapsed_ms: e } => !is_blank_spec(fc) && unchanged
                    && elapsed_ms < MIN_ELAPSED_MS && e == elapsed_ms,
                Verdict::Approved(s) => !is_blank_spec(fc) && !(unchanged && elapsed_ms
                    < MIN_ELAPSED_MS) && s@ == fc,
                Verdict::EditorFailed { .. } => false,
            }
        }),
        // A buffer saved back exactly as written, returned too fast, is a
        // silent failure unless nothing but whitespace is above its cut.
        raw@ == draft_spec(original@, opt_view(context)) && elapsed_ms < MIN_ELAPSED_MS
            && !is_blank_spec(stripped(raw@)) ==> (v matches Verdict::SilentFailure {
            elapsed_ms: e,
        } && e == elapsed_ms),
        // In particular for content without `"\r\n"` that is not blank and a
        // one-line label: the unchanged content is the original with its
        // trailing whitespace removed.
        no_crlf(original@) && context_ok(opt_view(context)) ==> unchanged_content(
            original@,
            opt_view(context),
        ) == trim_end_spec(original@),
        raw@ == draft_spec(original@, opt_view(context)) && elapsed_ms < MIN_ELAPSED_MS
            && no_crlf(original@) && context_ok(opt_view(context)) && !is_blank_spec(
            original@,
        ) ==> (v matches Verdict::SilentFailure { elapsed_ms: e } && e == elapsed_ms),
{
    proof {
        if no_crlf(original@) && context_ok(opt_view(context)) {
            crate::laws::law_unchanged_buffer_is_content(original@, opt_view(context));
        }
    }
    let final_content = strip_scissors(raw);
    if is_blank(final_content.as_str()) {
        return Verdict::Aborted;
    }
    let written = build_draft(original, context);
    let unchanged = strip_scissors(written.as_str());
    if final_content == unchanged && elapsed_ms < MIN_ELAPSED_MS {
        return Verdict::SilentFailure { elapsed_ms: elapsed_ms as u32 };
    }
    Verdict::Approved(final_content)
}

/// Whether the draft file is kept for the user to recover: on every verdict
/// but approval.
pub fn keeps_draft(v: &Verdict) -> (b: bool)
    ensures
        b == !(v is Approved),
{
    match v {
        Verdict::Approved(_) => false,
        _ => true,
    }
}

/// What a stdin-mode round-trip reports for a verdict, the draft file being
/// at `draft_path`: approval returns the content; every other verdict
/// reports the draft's path so the user can recover it.
pub fn stdin_outcome(verdict: Verdict, draft_path: PathBuf) -> (r: Result<Outcome, ScissorsError>)
    ensures
        match verdict {
            Verdict::Approved(s) => r == Ok::<Outcome, ScissorsError>(Outcome::Approved(s)),
            Verdict::Aborted => r == Ok::<Outcome, ScissorsError>(Outcome::Aborted { draft_path }),
            Verdict::SilentFailure { elapsed_ms } => r == Err::<Outcome, ScissorsError>(
                ScissorsError::SilentFailure { elapsed_ms, draft_path },
            ),
            Verdict::EditorFailed { code } => r == Err::<Outcome, ScissorsError>(
                ScissorsError::EditorFailed { code, draft_path },
            ),
        },
{
    match verdict {
        Verdict::Approved(approved) => Ok(Outcome::Approved(approved)),
        Verdict::Aborted => Ok(Outcome::Aborted { draft_path }),
        Verdict::SilentFailure { elapsed_ms } => Err(
            ScissorsError::SilentFailure { elapsed_ms, draft_path },
        ),
        Verdict::EditorFailed { code } => Err(ScissorsError::EditorFailed { code, draft_path }),
    }
}

/// The next step of an in-place file approval after the editor returned.
#[derive(Debug)]
pub enum FileStep {
    /// Write this content to the sidecar and rename it over the target.
    Install(String),
    /// Done: the target is left as it was, with this result.
    Finish(Result<FileOutcome, FileError>),
}

/// Decides what happens to the target file after editing:
/// content in place of the target, or leave the target as it was and report.
pub fn file_step(verdict: Verdict) -> (s: FileStep)
    ensures
        match verdict {
            Verdict::Approved(c) => s == FileStep::Install(c),
            Verdict::Aborted => s == FileStep::Finish(
                Ok::<FileOutcome, FileError>(FileOutcome::Aborted),
            ),
            Verdict::SilentFailure { elapsed_ms } => s == FileStep::Finish(
                Err::<FileOutcome, FileError>(FileError::SilentFailure { elapsed_ms }),
            ),
            Verdict::EditorFailed { code } => s == FileStep::Finish(
                Err::<FileOutcome, FileError>(FileError::EditorFailed { code }),
            ),
        },
{
    match verdict {
        Verdict::Approved(content) => FileStep::Install(content),
        Verdict::Aborted => FileStep::Finish(Ok(FileOutcome::Aborted)),
        Verdict::SilentFailure { elapsed_ms } => FileStep::Finish(
            Err(FileError::SilentFailure { elapsed_ms }),
        ),
        Verdict::EditorFailed { code } => FileStep::Finish(Err(FileError::EditorFailed { code })),
    }
}

} // verus!
