//! Properties that relate the draft buffer to the cut.
use vstd::prelude::*;

use crate::approval::{
    editor_spec, gives_nothing, gives_words, shell_split, unchanged_content, var_decision,
};
use crate::draft::{
    context_spec, draft_spec, footer_spec, nl, CONTEXT_PREFIX, FOOTER_ABORT, FOOTER_KEEP,
    FOOTER_SAVE, FOOTER_STRIPPED,
};
use crate::strip::{
    cut_point, is_scissors_spec, last_marker, lemma_last_marker, lemma_scissors_literal,
    lemma_scissors_shape, stripped, SCISSORS,
};
use crate::text::{
    is_blank_spec, is_ws, join_lines, lemma_join_push, lemma_join_split, lemma_join_update_last,
    lemma_split_nl_at_newline, lemma_split_nl_len, lemma_split_nl_no_newline,
    lemma_trim_end, lemma_trim_end_after_newlines, lemma_trim_end_append_blank,
    lemma_trim_end_idempotent, lemma_trim_end_noop, lines_of,
    split_nl, strip_cr, trim_end_spec, trim_newlines_end, trim_spec,
};

verus! {

broadcast use vstd::string::group_string_axioms;

/// No `'\r'` of `s` is directly followed by `'\n'`.
pub open spec fn no_crlf(s: Seq<char>) -> bool {
    forall|i: int| 0 <= i < s.len() - 1 && #[trigger] s[i] == '\r' ==> s[i + 1] != '\n'
}

/// A piece that is no scissors line, whether or not a `'\r'` that ends it is
/// dropped.
pub open spec fn piece_ok(q: Seq<char>) -> bool {
    !is_scissors_spec(strip_cr(q))
}

/// A context label that can stand in the footer: one line that does not
/// itself carry the scissors marker.
pub open spec fn context_ok(context: Option<Seq<char>>) -> bool {
    match context {
        Some(c) => !c.contains('\n') && !is_scissors_spec(CONTEXT_PREFIX@ + c),
        None => true,
    }
}

/// The last piece of `s` is empty exactly when `s` is empty or ends with a
/// newline; otherwise it ends with the last character of `s`.
proof fn lemma_split_last_piece(s: Seq<char>)
    ensures
        (s.len() == 0 || s.last() == '\n') ==> split_nl(s).last().len() == 0,
        (s.len() > 0 && s.last() != '\n') ==> split_nl(s).last().len() > 0
            && split_nl(s).last().last() == s.last(),
{
    lemma_split_nl_len(s);
    if s.len() > 0 {
        lemma_split_nl_len(s.drop_last());
    }
}

/// Without `"\r\n"` in `s`, no piece that a newline ends carries a `'\r'`.
proof fn lemma_split_no_cr(s: Seq<char>)
    requires
        no_crlf(s),
    ensures
        forall|i: int| 0 <= i < split_nl(s).len() - 1 ==> strip_cr(#[trigger] split_nl(s)[i])
            == split_nl(s)[i],
    decreases s.len(),
{
    lemma_split_nl_len(s);
    if s.len() > 0 {
        let s0 = s.drop_last();
        assert(no_crlf(s0)) by {
            assert forall|i: int| 0 <= i < s0.len() - 1 && #[trigger] s0[i] == '\r' implies s0[i
                + 1] != '\n' by {
                assert(s[i] == s0[i]);
                assert(s[i + 1] == s0[i + 1]);
            }
        }
        lemma_split_no_cr(s0);
        lemma_split_nl_len(s0);
        lemma_split_last_piece(s0);
        let p0 = split_nl(s0);
        let p = split_nl(s);
        if s.last() == '\n' {
            assert(p == p0.push(Seq::<char>::empty()));
            let l = p0.last();
            if l.len() > 0 && l.last() == '\r' {
                assert(s0.len() > 0 && s0.last() != '\n');
                assert(s[s.len() - 2] == '\r');
                assert(s[s.len() - 1] == '\n');
            }
            assert forall|i: int| 0 <= i < p.len() - 1 implies strip_cr(#[trigger] p[i])
                == p[i] by {
                if i < p0.len() - 1 {
                    assert(p[i] == p0[i]);
                } else {
                    assert(p[i] == p0.last());
                }
            }
        } else {
            assert forall|i: int| 0 <= i < p.len() - 1 implies strip_cr(#[trigger] p[i])
                == p[i] by {
                assert(p[i] == p0[i]);
            }
        }
    }
}

/// `last_marker` is the scissors line that no later line repeats.
proof fn lemma_last_marker_at(ls: Seq<Seq<char>>, i: int)
    requires
        0 <= i < ls.len(),
        is_scissors_spec(ls[i]),
        forall|j: int| i < j < ls.len() ==> !#[trigger] is_scissors_spec(ls[j]),
    ensures
        last_marker(ls) == Some(i),
    decreases ls.len(),
{
    if i < ls.len() - 1 {
        assert(!is_scissors_spec(ls[ls.len() - 1]));
        let d = ls.drop_last();
        assert forall|j: int| i < j < d.len() implies !#[trigger] is_scissors_spec(d[j]) by {
            assert(d[j] == ls[j]);
        }
        lemma_last_marker_at(d, i);
    }
}

/// A piece that is empty or ends in a character that is neither whitespace
/// nor `'-'` cannot be a scissors line.
proof fn lemma_plain_piece(q: Seq<char>)
    requires
        q.len() == 0 || (!is_ws(q.last()) && q.last() != '-'),
    ensures
        piece_ok(q),
{
    if is_scissors_spec(strip_cr(q)) {
        lemma_scissors_shape(strip_cr(q));
    }
}

/// Dropping a final `'\r'` does not change whether a line is the scissors
/// line: the `'\r'` is trailing whitespace.
proof fn lemma_strip_cr_scissors(q: Seq<char>)
    ensures
        is_scissors_spec(strip_cr(q)) == is_scissors_spec(q),
{
}

/// The footer and context literals hold no newline and do not look like the
/// separator.
proof fn lemma_footer_literals()
    ensures
        !FOOTER_KEEP@.contains('\n'),
        !FOOTER_STRIPPED@.contains('\n'),
        !FOOTER_SAVE@.contains('\n'),
        !FOOTER_ABORT@.contains('\n'),
        !CONTEXT_PREFIX@.contains('\n'),
        FOOTER_KEEP@.len() > 0 && FOOTER_KEEP@.last() == '.',
        FOOTER_STRIPPED@.len() > 0 && FOOTER_STRIPPED@.last() == '.',
        FOOTER_SAVE@.len() > 0 && FOOTER_SAVE@.last() == '.',
        FOOTER_ABORT@.len() > 0 && FOOTER_ABORT@.last() == '.',
{
    reveal_strlit("# Do not modify or remove the line above.");
    reveal_strlit("# Everything below is context and will be stripped from the final content.");
    reveal_strlit("# Save and close the editor when done.");
    reveal_strlit("# Empty all content above this line to abort without submitting.");
    reveal_strlit("# Context: ");
    assert forall|k: int| 0 <= k < FOOTER_KEEP@.len() implies FOOTER_KEEP@[k] != '\n' by {}
    assert forall|k: int| 0 <= k < FOOTER_STRIPPED@.len() implies FOOTER_STRIPPED@[k]
        != '\n' by {}
    assert forall|k: int| 0 <= k < FOOTER_SAVE@.len() implies FOOTER_SAVE@[k] != '\n' by {}
    assert forall|k: int| 0 <= k < FOOTER_ABORT@.len() implies FOOTER_ABORT@[k] != '\n' by {}
    assert forall|k: int| 0 <= k < CONTEXT_PREFIX@.len() implies CONTEXT_PREFIX@[k] != '\n' by {}
}

/// Splitting a literal line followed by a newline and more text.
proof fn lemma_split_line_then(l: Seq<char>, rest: Seq<char>)
    requires
        !l.contains('\n'),
    ensures
        split_nl(l + nl() + rest) == seq![l] + split_nl(rest),
{
    lemma_split_nl_at_newline(l, rest);
    lemma_split_nl_no_newline(l);
}

/// The pieces of the context lines are safe from being taken for the
/// separator, and the last one is empty.
proof fn lemma_context_pieces(context: Option<Seq<char>>)
    requires
        context_ok(context),
    ensures
        forall|j: int|
            0 <= j < split_nl(context_spec(context)).len() ==> piece_ok(
                #[trigger] split_nl(context_spec(context))[j],
            ),
        split_nl(context_spec(context)).len() >= 1,
        split_nl(context_spec(context)).last().len() == 0,
{
    lemma_footer_literals();
    let x = context_spec(context);
    let px = split_nl(x);
    match context {
        Some(c) => {
            let cl = CONTEXT_PREFIX@ + c;
            assert(!cl.contains('\n')) by {
                if cl.contains('\n') {
                    let k = choose|k: int| 0 <= k < cl.len() && cl[k] == '\n';
                    if k < CONTEXT_PREFIX@.len() {
                        assert(CONTEXT_PREFIX@[k] == '\n');
                    } else {
                        assert(c[k - CONTEXT_PREFIX@.len()] == '\n');
                    }
                }
            }
            assert(!seq!['#'].contains('\n')) by {
                if seq!['#'].contains('\n') {
                    let k = choose|k: int| 0 <= k < 1 && seq!['#'][k] == '\n';
                }
            }
            assert(x =~= seq!['#'] + nl() + (cl + nl() + Seq::<char>::empty()));
            lemma_split_line_then(seq!['#'], cl + nl() + Seq::<char>::empty());
            lemma_split_line_then(cl, Seq::<char>::empty());
            assert(split_nl(Seq::<char>::empty()) =~= seq![Seq::<char>::empty()]);
            assert(px =~= seq![seq!['#'], cl, Seq::<char>::empty()]);
            lemma_strip_cr_scissors(cl);
            lemma_plain_piece(seq!['#']);
            lemma_plain_piece(Seq::<char>::empty());
            assert(piece_ok(px[0]) && piece_ok(px[1]) && piece_ok(px[2]));
        },
        None => {
            assert(px =~= seq![Seq::<char>::empty()]);
            lemma_plain_piece(Seq::<char>::empty());
        },
    }
}

/// A safe line in front of text whose pieces are all safe keeps every piece
/// safe, and the last piece unchanged.
proof fn lemma_safe_line_then(l: Seq<char>, rest: Seq<char>)
    requires
        !l.contains('\n'),
        piece_ok(l),
        forall|j: int| 0 <= j < split_nl(rest).len() ==> piece_ok(#[trigger] split_nl(rest)[j]),
        split_nl(rest).len() >= 1,
    ensures
        forall|j: int|
            0 <= j < split_nl(l + nl() + rest).len() ==> piece_ok(
                #[trigger] split_nl(l + nl() + rest)[j],
            ),
        split_nl(l + nl() + rest).len() >= 1,
        split_nl(l + nl() + rest).last() == split_nl(rest).last(),
{
    lemma_split_line_then(l, rest);
    let q = split_nl(l + nl() + rest);
    assert forall|j: int| 0 <= j < q.len() implies piece_ok(#[trigger] q[j]) by {
        if j >= 1 {
            assert(q[j] == split_nl(rest)[j - 1]);
        }
    }
}

/// Every piece of the footer and context lines is safe from being taken for
/// the separator, and the last piece is empty.
proof fn lemma_footer_pieces(context: Option<Seq<char>>)
    requires
        context_ok(context),
    ensures
        forall|j: int|
            0 <= j < split_nl(footer_spec() + context_spec(context)).len() ==> piece_ok(
                #[trigger] split_nl(footer_spec() + context_spec(context))[j],
            ),
        split_nl(footer_spec() + context_spec(context)).last().len() == 0,
{
    lemma_footer_literals();
    lemma_context_pieces(context);
    lemma_plain_piece(FOOTER_KEEP@);
    lemma_plain_piece(FOOTER_STRIPPED@);
    lemma_plain_piece(FOOTER_SAVE@);
    lemma_plain_piece(FOOTER_ABORT@);
    let x = context_spec(context);
    let r4 = FOOTER_ABORT@ + nl() + x;
    let r3 = FOOTER_SAVE@ + nl() + r4;
    let r2 = FOOTER_STRIPPED@ + nl() + r3;
    let r1 = FOOTER_KEEP@ + nl() + r2;
    lemma_safe_line_then(FOOTER_ABORT@, x);
    lemma_safe_line_then(FOOTER_SAVE@, r4);
    lemma_safe_line_then(FOOTER_STRIPPED@, r3);
    lemma_safe_line_then(FOOTER_KEEP@, r2);
    assert(footer_spec() + x =~= r1);
}

/// The lines of a draft: those of the content (a `'\r'` that a newline
/// follows dropped), an empty line, the separator, then lines that cannot be
/// taken for it.
proof fn lemma_draft_lines(content: Seq<char>, context: Option<Seq<char>>)
    requires
        context_ok(context),
    ensures
        ({
            let pc = split_nl(trim_newlines_end(content));
            let ls = lines_of(draft_spec(content, context));
            let k = pc.len() as int;
            &&& k >= 1
            &&& ls.len() > k + 1
            &&& ls[k + 1] == SCISSORS@
            &&& forall|j: int| k + 1 < j < ls.len() ==> !#[trigger] is_scissors_spec(ls[j])
            &&& ls.take(k + 1) == pc.map_values(|l: Seq<char>| strip_cr(l)).push(
                Seq::<char>::empty(),
            )
        }),
{
    lemma_scissors_literal();
    lemma_footer_pieces(context);
    let c1 = trim_newlines_end(content);
    let s = SCISSORS@;
    let f = footer_spec() + context_spec(context);
    let tail = s + nl() + f;
    let d = draft_spec(content, context);
    assert(d =~= c1 + nl() + (Seq::<char>::empty() + nl() + tail));
    lemma_split_nl_at_newline(c1, Seq::<char>::empty() + nl() + tail);
    lemma_split_nl_at_newline(Seq::<char>::empty(), tail);
    lemma_split_line_then(s, f);
    let pc = split_nl(c1);
    let q = split_nl(f);
    lemma_split_nl_len(c1);
    lemma_split_nl_len(f);
    assert(split_nl(Seq::<char>::empty()) =~= seq![Seq::<char>::empty()]);
    let p = split_nl(d);
    assert(p =~= pc + seq![Seq::<char>::empty()] + seq![s] + q);
    let k = pc.len() as int;
    lemma_split_last_piece(d);
    assert(p.last() == q.last());
    assert(d.len() > 0) by {
        assert(d.len() >= s.len());
    }
    let ls = lines_of(d);
    assert(ls == p.drop_last().map_values(|l: Seq<char>| strip_cr(l)));
    assert(ls[k + 1] == strip_cr(s));
    assert forall|j: int| k + 1 < j < ls.len() implies !#[trigger] is_scissors_spec(ls[j]) by {
        assert(p[j] == q[j - k - 2]);
    }
    assert(ls.take(k + 1) =~= pc.map_values(|l: Seq<char>| strip_cr(l)).push(
        Seq::<char>::empty(),
    ));
}

/// Joining the lines of a text without `"\r\n"` gives the text back, up to
/// trailing whitespace.
proof fn lemma_join_lines_of_content(c: Seq<char>)
    requires
        no_crlf(c),
    ensures
        trim_end_spec(join_lines(split_nl(c).map_values(|l: Seq<char>| strip_cr(l))))
            == trim_end_spec(c),
{
    lemma_split_nl_len(c);
    lemma_split_no_cr(c);
    lemma_join_split(c);
    let pc = split_nl(c);
    let k = pc.len() as int;
    let pc2 = pc.map_values(|l: Seq<char>| strip_cr(l));
    let joined = join_lines(pc2);
    let last = pc.last();
    if last.len() > 0 && last.last() == '\r' {
        assert(pc2.last() == last.drop_last());
        assert(last.drop_last().push('\r') =~= last);
        assert forall|i: int| 0 <= i < k - 1 implies pc2[i] == pc[i] by {
            assert(strip_cr(pc[i]) == pc[i]);
        }
        assert(pc =~= pc2.update(k - 1, pc2.last().push('\r')));
        lemma_join_update_last(pc2, '\r');
        assert(c =~= joined + seq!['\r']);
        assert(is_blank_spec(seq!['\r']));
        lemma_trim_end_append_blank(joined, seq!['\r']);
    } else {
        assert(pc2 =~= pc);
    }
}

/// Round trip: cutting a draft at its last scissors line gives back the
/// content it was built from, without trailing whitespace. This holds for
/// any content that has no `"\r\n"` line ending (those become `"\n"`), and
/// for any context label that is one line and does not itself end in the
/// scissors marker; in particular a body that itself holds a scissors line
/// comes back whole. Content that does not end in
/// whitespace comes back exactly.
pub proof fn law_strip_recovers_draft_content(content: Seq<char>, context: Option<Seq<char>>)
    requires
        no_crlf(content),
        context_ok(context),
    ensures
        stripped(draft_spec(content, context)) == trim_end_spec(content),
        (content.len() == 0 || !is_ws(content.last())) ==> stripped(draft_spec(content, context))
            == content,
{
    lemma_scissors_literal();
    lemma_draft_lines(content, context);
    lemma_trim_end_after_newlines(content);
    let c1 = trim_newlines_end(content);
    let pc = split_nl(c1);
    let k = pc.len() as int;
    let ls = lines_of(draft_spec(content, context));
    lemma_last_marker_at(ls, k + 1);
    let pc2 = pc.map_values(|l: Seq<char>| strip_cr(l));
    lemma_join_push(pc2, Seq::<char>::empty());
    let joined = join_lines(pc2);
    assert(join_lines(ls.take(k + 1)) =~= joined + nl());
    assert(is_blank_spec(nl()));
    lemma_trim_end_append_blank(joined, nl());
    assert(no_crlf(c1)) by {
        assert forall|i: int| 0 <= i < c1.len() - 1 && #[trigger] c1[i] == '\r' implies c1[i + 1]
            != '\n' by {
            assert(c1[i] == content[i]);
            assert(c1[i + 1] == content[i + 1]);
        }
    }
    lemma_join_lines_of_content(c1);
    if content.len() == 0 || !is_ws(content.last()) {
        lemma_trim_end_noop(content);
    }
}

/// The cut is at the last scissors line: with a scissors line at index
/// `i` of the lines of `raw` and none after it, what comes back is the
/// lines above `i`, joined and trimmed.
pub proof fn law_cut_at_last_scissors_line(raw: Seq<char>, i: int)
    requires
        0 <= i < lines_of(raw).len(),
        is_scissors_spec(lines_of(raw)[i]),
        forall|j: int| i < j < lines_of(raw).len() ==> !#[trigger] is_scissors_spec(lines_of(raw)[j]),
    ensures
        stripped(raw) == trim_end_spec(join_lines(lines_of(raw).take(i))),
{
    lemma_last_marker_at(lines_of(raw), i);
}

/// Without a scissors line nothing is cut: all lines come back, joined and
/// trimmed.
pub proof fn law_no_scissors_line_keeps_all(raw: Seq<char>)
    requires
        forall|j: int| 0 <= j < lines_of(raw).len() ==> !#[trigger] is_scissors_spec(lines_of(raw)[j]),
    ensures
        stripped(raw) == trim_end_spec(join_lines(lines_of(raw))),
{
    let ls = lines_of(raw);
    lemma_last_marker(ls);
    if let Some(i) = last_marker(ls) {
        assert(is_scissors_spec(ls[i]));
    }
    assert(ls.take(ls.len() as int) =~= ls);
}

/// What comes back never ends in whitespace, and cutting it once more
/// leaves its trailing edge alone.
pub proof fn law_stripped_is_trimmed(raw: Seq<char>)
    ensures
        stripped(raw).len() == 0 || !is_ws(stripped(raw).last()),
        trim_end_spec(stripped(raw)) == stripped(raw),
{
    let ls = lines_of(raw);
    lemma_trim_end(join_lines(ls.take(cut_point(ls))));
    lemma_trim_end_idempotent(join_lines(ls.take(cut_point(ls))));
}

/// Editor priority: `$SCISSORS_EDITOR`, when it splits into at least one
/// word, is the command whatever `$VISUAL` and `$EDITOR` hold; otherwise
/// `$VISUAL` with words is chosen over `$EDITOR`; then `$EDITOR`; then `vi`.
/// A chosen command is never empty.
pub proof fn law_editor_priority(
    scissors_editor: Option<Seq<char>>,
    visual: Option<Seq<char>>,
    editor: Option<Seq<char>>,
)
    ensures
        forall|w: Seq<Seq<char>>| #[trigger]
            gives_words(scissors_editor, w) ==> editor_spec(scissors_editor, visual, editor) == Some(
                w,
            ),
        forall|w: Seq<Seq<char>>|
            gives_nothing(scissors_editor) && #[trigger] gives_words(visual, w) ==> editor_spec(
                scissors_editor,
                visual,
                editor,
            ) == Some(w),
        forall|w: Seq<Seq<char>>|
            gives_nothing(scissors_editor) && gives_nothing(visual) && #[trigger] gives_words(
                editor,
                w,
            ) ==> editor_spec(scissors_editor, visual, editor) == Some(w),
        gives_nothing(scissors_editor) && gives_nothing(visual) && gives_nothing(editor)
            ==> editor_spec(scissors_editor, visual, editor) == Some(seq![seq!['v', 'i']]),
        editor_spec(scissors_editor, visual, editor) matches Some(w) ==> w.len() > 0,
{
    lemma_gives_nothing(scissors_editor);
    lemma_gives_nothing(visual);
    lemma_gives_nothing(editor);
}

/// What choosing nothing means for one variable.
proof fn lemma_gives_nothing(val: Option<Seq<char>>)
    ensures
        gives_nothing(val) ==> var_decision(val) is None,
        forall|w: Seq<Seq<char>>| #[trigger] gives_words(val, w) ==> var_decision(val) == Some(
            Some(w),
        ),
        var_decision(val) matches Some(Some(w)) ==> w.len() > 0,
{
    if gives_nothing(val) && val is Some && trim_spec(val->0).len() > 0 {
        assert(shell_split(trim_spec(val->0)) == Some(Seq::<Seq<char>>::empty()));
    }
}

/// An unchanged buffer comes back as the content it was written for: for
/// content without `"\r\n"` and a one-line label, the cut of the draft is
/// the content with its trailing whitespace removed; and that is blank only
/// when the content is.
pub proof fn law_unchanged_buffer_is_content(original: Seq<char>, context: Option<Seq<char>>)
    requires
        no_crlf(original),
        context_ok(context),
    ensures
        unchanged_content(original, context) == trim_end_spec(original),
        is_blank_spec(unchanged_content(original, context)) == is_blank_spec(original),
{
    law_strip_recovers_draft_content(original, context);
    let t = trim_end_spec(original);
    lemma_trim_end(original);
    if is_blank_spec(t) && t.len() > 0 {
        assert(is_ws(t[t.len() - 1]));
    }
    if is_blank_spec(t) {
        assert forall|i: int| 0 <= i < original.len() implies #[trigger] is_ws(original[i]) by {
            if i >= t.len() {
            } else {
                assert(t[i] == original[i]);
            }
        }
    }
    if is_blank_spec(original) {
        assert forall|i: int| 0 <= i < t.len() implies #[trigger] is_ws(t[i]) by {
            assert(t[i] == original[i]);
        }
    }
}

/// A context label closes the draft: the draft with label `c` is the draft
/// without one followed by `"#\n# Context: "`, `c` and a newline, for every
/// label.
pub proof fn law_context_lines_close_the_draft(content: Seq<char>, c: Seq<char>)
    ensures
        draft_spec(content, Some(c)) == draft_spec(content, None) + "#\n# Context: "@ + c
            + "\n"@,
{
    reveal_strlit("#\n# Context: ");
    reveal_strlit("# Context: ");
    reveal_strlit("\n");
    assert("#\n# Context: "@ =~= seq!['#', '\n'] + CONTEXT_PREFIX@);
    assert("\n"@ =~= nl());
    assert(context_spec(None) =~= Seq::<char>::empty());
    assert(draft_spec(content, Some(c)) =~= draft_spec(content, None) + "#\n# Context: "@ + c
        + "\n"@);
}

} // verus!
