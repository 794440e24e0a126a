//! The editor buffer: the content, a blank line, then the scissors footer.
use vstd::prelude::*;

use crate::strip::SCISSORS;
use crate::text::{append_chars, chars_of, string_from_chars, trim_newlines_end};

verus! {

broadcast use vstd::string::group_string_axioms;

/// First footer line below the separator.
pub const FOOTER_KEEP: &'static str = "# Do not modify or remove the line above.";

/// Second footer line.
pub const FOOTER_STRIPPED: &'static str =
    "# Everything below is context and will be stripped from the final content.";

/// Third footer line.
pub const FOOTER_SAVE: &'static str = "# Save and close the editor when done.";

/// Fourth footer line.
pub const FOOTER_ABORT: &'static str =
    "# Empty all content above this line to abort without submitting.";

/// What precedes the context label on its footer line.
pub const CONTEXT_PREFIX: &'static str = "# Context: ";

/// Optional knobs for an approval round-trip.
///
/// Construct via `Options::new`/`Options::default` and the builder methods.
#[derive(Debug, Clone)]
#[non_exhaustive]
pub struct Options<'a> {
    /// One-line label shown as a footer comment in the editor buffer so the
    /// user knows which draft they are reviewing.
    pub context: Option<&'a str>,
}

impl<'a> Options<'a> {
    /// An empty set of options.
    pub fn new() -> (o: Self)
        ensures
            o.context is None,
    {
        Options { context: None }
    }

    /// Set the context label shown in the editor footer.
    pub fn context(self, context: &'a str) -> (o: Self)
        ensures
            o.context == Some(context),
    {
        let mut s = self;
        s.context = Some(context);
        s
    }
}

impl<'a> Default for Options<'a> {
    fn default() -> (o: Self)
        ensures
            o.context is None,
    {
        Options { context: None }
    }
}

/// A single newline.
pub open spec fn nl() -> Seq<char> {
    seq!['\n']
}

/// The fixed footer lines below the separator, each ended by a newline.
pub open spec fn footer_spec() -> Seq<char> {
    FOOTER_KEEP@ + nl() + FOOTER_STRIPPED@ + nl() + FOOTER_SAVE@ + nl() + FOOTER_ABORT@ + nl()
}

/// The context lines: a lone `#` line and then `# Context: <label>`.
pub open spec fn context_spec(context: Option<Seq<char>>) -> Seq<char> {
    match context {
        Some(c) => seq!['#', '\n'] + CONTEXT_PREFIX@ + c + nl(),
        None => Seq::<char>::empty(),
    }
}

/// The editor buffer for `content`: the content without its trailing
/// newlines, a blank line, the separator, the footer and the context lines.
pub open spec fn draft_spec(content: Seq<char>, context: Option<Seq<char>>) -> Seq<char> {
    trim_newlines_end(content) + nl() + nl() + SCISSORS@ + nl() + footer_spec() + context_spec(
        context,
    )
}

/// Assemble the editor buffer: the content, a blank line, then the scissors
/// footer with instructions (and optional context).
pub fn build_draft(content: &str, context: Option<&str>) -> (d: String)
    ensures
        d@ == draft_spec(
            content@,
            match context {
                Some(c) => Some(c@),
                None => None,
            },
        ),
        // A label is never dropped: it closes the draft on a line of its own.
        context matches Some(c) ==> d@ == draft_spec(content@, None) + "#\n# Context: "@ + c@
            + "\n"@,
{
    proof {
        if let Some(c) = context {
            crate::laws::law_context_lines_close_the_draft(content@, c@);
        }
    }
    let mut out = chars_of(content);
    let mut n = out.len();
    proof {
        assert(out@.take(n as int) =~= out@);
    }
    while n > 0 && out[n - 1] == '\n'
        invariant
            n <= out@.len(),
            out@ == content@,
            trim_newlines_end(out@.take(n as int)) == trim_newlines_end(content@),
        decreases n,
    {
        assert(out@.take(n as int).drop_last() =~= out@.take(n - 1));
        n = n - 1;
    }
    proof {
        if n > 0 {
            assert(out@.take(n as int).last() == out@[n - 1]);
        }
        assert(trim_newlines_end(out@.take(n as int)) == out@.take(n as int));
    }
    out.truncate(n);
    let ghost body = out@;
    assert(body == trim_newlines_end(content@));
    out.push('\n');
    out.push('\n');
    let marker = chars_of(SCISSORS);
    append_chars(&mut out, marker.as_slice());
    out.push('\n');
    let l1 = chars_of(FOOTER_KEEP);
    append_chars(&mut out, l1.as_slice());
    out.push('\n');
    let l2 = chars_of(FOOTER_STRIPPED);
    append_chars(&mut out, l2.as_slice());
    out.push('\n');
    let l3 = chars_of(FOOTER_SAVE);
    append_chars(&mut out, l3.as_slice());
    out.push('\n');
    let l4 = chars_of(FOOTER_ABORT);
    append_chars(&mut out, l4.as_slice());
    out.push('\n');
    let ghost with_footer = out@;
    assert(with_footer =~= body + nl() + nl() + SCISSORS@ + nl() + footer_spec());
    match context {
        Some(ctx) => {
            out.push('#');
            out.push('\n');
            let label = chars_of(CONTEXT_PREFIX);
            append_chars(&mut out, label.as_slice());
            let c = chars_of(ctx);
            append_chars(&mut out, c.as_slice());
            out.push('\n');
            assert(out@ =~= with_footer + context_spec(Some(ctx@)));
        },
        None => {
            assert(out@ =~= with_footer + context_spec(None));
        },
    }
    string_from_chars(out.as_slice())
}

} // verus!
