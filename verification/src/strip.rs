//! The scissors line and the cut at it.
use vstd::prelude::*;

use crate::text::{
    append_chars, chars_of, is_ws, join_lines, lemma_join_push, lemma_trim_end, lines_of, lines_vec,
    string_from_chars, trim_end_len, trim_end_spec,
};

verus! {

broadcast use vstd::string::group_string_axioms;

/// The git scissors separator. `build_draft` starts the footer with this
/// exact line; `strip_scissors` cuts at the last line that carries its
/// marker.
pub const SCISSORS: &'static str = "# ------------------------ >8 ------------------------";

/// The separator's `>8` marker: the separator without its `# ` comment
/// prefix.
pub const SCISSORS_MARK: &'static str = "------------------------ >8 ------------------------";

/// A line is the scissors line when, once its trailing whitespace is
/// dropped, it ends with the separator's `>8` marker. What precedes the
/// marker does not matter, so the separator still counts when its `# `
/// prefix was altered or removed.
pub open spec fn is_scissors_spec(l: Seq<char>) -> bool {
    let t = trim_end_spec(l);
    t.len() >= SCISSORS_MARK@.len() && t.skip(t.len() - SCISSORS_MARK@.len()) == SCISSORS_MARK@
}

/// Index of the last scissors line among `ls`, if there is one.
pub open spec fn last_marker(ls: Seq<Seq<char>>) -> Option<int>
    decreases ls.len(),
{
    if ls.len() == 0 {
        None
    } else if is_scissors_spec(ls.last()) {
        Some(ls.len() - 1)
    } else {
        last_marker(ls.drop_last())
    }
}

/// Where the lines are cut: at the last scissors line, or after the last
/// line when there is none.
pub open spec fn cut_point(ls: Seq<Seq<char>>) -> int {
    match last_marker(ls) {
        Some(i) => i,
        None => ls.len() as int,
    }
}

/// What `strip_scissors` returns: the lines above the last scissors line
/// (all lines when there is none), joined with `'\n'`, trailing whitespace
/// removed.
pub open spec fn stripped(raw: Seq<char>) -> Seq<char> {
    let ls = lines_of(raw);
    trim_end_spec(join_lines(ls.take(cut_point(ls))))
}

/// `last_marker` picks a scissors line with none after it, and finds none
/// only when no line is one.
pub proof fn lemma_last_marker(ls: Seq<Seq<char>>)
    ensures
        match last_marker(ls) {
            Some(i) => 0 <= i < ls.len() && is_scissors_spec(ls[i]) && forall|j: int|
                i < j < ls.len() ==> !#[trigger] is_scissors_spec(ls[j]),
            None => forall|j: int| 0 <= j < ls.len() ==> !#[trigger] is_scissors_spec(ls[j]),
        },
    decreases ls.len(),
{
    if ls.len() > 0 && !is_scissors_spec(ls.last()) {
        lemma_last_marker(ls.drop_last());
        assert forall|j: int| 0 <= j < ls.len() - 1 implies ls[j] == ls.drop_last()[j] by {}
    }
}

/// A scissors line, its trailing whitespace dropped, ends with the
/// marker's last character, `'-'`.
pub proof fn lemma_scissors_shape(l: Seq<char>)
    requires
        is_scissors_spec(l),
    ensures
        trim_end_spec(l).len() > 0,
        trim_end_spec(l).last() == '-',
{
    reveal_strlit("------------------------ >8 ------------------------");
    let t = trim_end_spec(l);
    let m = SCISSORS_MARK@;
    assert(t.skip(t.len() - m.len())[m.len() - 1] == t.last());
}

/// Facts about the separator itself.
pub proof fn lemma_scissors_literal()
    ensures
        SCISSORS@.len() == 54,
        !SCISSORS@.contains('\n'),
        !is_ws(SCISSORS@.last()),
        SCISSORS@.last() != '\r',
        is_scissors_spec(SCISSORS@),
{
    reveal_strlit("# ------------------------ >8 ------------------------");
    reveal_strlit("------------------------ >8 ------------------------");
    let s = SCISSORS@;
    assert(!s.contains('\n')) by {
        if s.contains('\n') {
            let k = choose|k: int| 0 <= k < s.len() && s[k] == '\n';
            assert(s[k] == '#' || s[k] == ' ' || s[k] == '-' || s[k] == '>' || s[k] == '8');
        }
    }
    assert(trim_end_spec(s) == s);
    assert(s.skip(2) =~= SCISSORS_MARK@);
}

/// A line is the scissors line exactly when, trailing whitespace dropped, it
/// is some text followed by the `>8` marker; so a line without `'>'` never
/// is one.
pub proof fn law_scissors_line_carries_marker(l: Seq<char>)
    ensures
        is_scissors_spec(l) <==> exists|p: Seq<char>| trim_end_spec(l) == p + SCISSORS_MARK@,
        !l.contains('>') ==> !is_scissors_spec(l),
{
    reveal_strlit("------------------------ >8 ------------------------");
    let t = trim_end_spec(l);
    let m = SCISSORS_MARK@;
    if is_scissors_spec(l) {
        let p = t.take(t.len() - m.len());
        assert(t =~= p + m);
        assert(m[25] == '>');
        lemma_trim_end(l);
        assert(l[t.len() - m.len() + 25] == t[t.len() - m.len() + 25]);
        assert(l.contains('>'));
    }
    if exists|p: Seq<char>| trim_end_spec(l) == p + SCISSORS_MARK@ {
        let p = choose|p: Seq<char>| trim_end_spec(l) == p + SCISSORS_MARK@;
        assert((p + m).skip(p.len() as int) =~= m);
    }
}

/// Whether `line` is the scissors line, given the marker's characters.
fn line_is_marker(line: &[char], marker: &[char]) -> (b: bool)
    requires
        marker@ == SCISSORS_MARK@,
    ensures
        b == is_scissors_spec(line@),
{
    let n = trim_end_len(line);
    let m = marker.len();
    if n < m {
        return false;
    }
    let start = n - m;
    let ghost t = line@.take(n as int);
    let mut i: usize = 0;
    while i < m
        invariant
            m == marker@.len(),
            marker@ == SCISSORS_MARK@,
            n <= line@.len(),
            m <= n,
            start == n - m,
            t == line@.take(n as int),
            t == trim_end_spec(line@),
            i <= m,
            forall|j: int| 0 <= j < i ==> line@[start + j] == marker@[j],
        decreases m - i,
    {
        if line[start + i] != marker[i] {
            assert(t.skip(start as int)[i as int] == line@[start + i]);
            assert(t.skip(start as int) != marker@);
            return false;
        }
        i = i + 1;
    }
    assert(t.skip(start as int) =~= marker@) by {
        assert forall|j: int| 0 <= j < m implies t.skip(start as int)[j] == marker@[j] by {
            assert(t.skip(start as int)[j] == line@[start + j]);
        }
    }
    true
}

/// True for the scissors line: one that, trailing whitespace ignored, ends
/// with the separator's `>8` marker (the separator itself, or the separator
/// with its `#` prefix altered). `strip_scissors` and the file-mode guard
/// share it.
pub fn is_scissors_line(line: &str) -> (b: bool)
    ensures
        b == is_scissors_spec(line@),
        b <==> exists|p: Seq<char>| trim_end_spec(line@) == p + SCISSORS_MARK@,
{
    proof {
        law_scissors_line_carries_marker(line@);
    }
    let marker = chars_of(SCISSORS_MARK);
    let l = chars_of(line);
    line_is_marker(l.as_slice(), marker.as_slice())
}

/// Returns everything above the *last* scissors line, trimmed. If there is
/// no scissors line, returns the whole input trimmed. Cutting at the last
/// occurrence (the footer is always appended last) preserves a body that
/// itself contains a scissors line.
pub fn strip_scissors(raw: &str) -> (out: String)
    ensures
        out@ == stripped(raw@),
        // Text whose lines carry no `'>'` has no scissors line: all of it
        // comes back, lines joined with `'\n'` and the end trimmed.
        (forall|j: int|
            0 <= j < lines_of(raw@).len() ==> !(#[trigger] lines_of(raw@)[j]).contains('>'))
            ==> out@ == trim_end_spec(join_lines(lines_of(raw@))),
{
    proof {
        let ls = lines_of(raw@);
        if forall|j: int| 0 <= j < ls.len() ==> !(#[trigger] ls[j]).contains('>') {
            assert forall|j: int| 0 <= j < ls.len() implies !#[trigger] is_scissors_spec(ls[j]) by {
                law_scissors_line_carries_marker(ls[j]);
            }
            lemma_last_marker(ls);
            if let Some(i) = last_marker(ls) {
                assert(is_scissors_spec(ls[i]));
            }
            assert(ls.take(ls.len() as int) =~= ls);
        }
    }

    let marker = chars_of(SCISSORS_MARK);
    let ls = lines_vec(raw);
    let ghost lines = lines_of(raw@);
    // Find the last scissors line.
    let mut i = ls.len();
    let mut cut = ls.len();
    let mut found = false;
    proof {
        assert(lines.take(lines.len() as int) =~= lines);
    }
    while i > 0
        invariant
            ls@.len() == lines.len(),
            forall|k: int| 0 <= k < ls@.len() ==> #[trigger] ls@[k]@ == lines[k],
            marker@ == SCISSORS_MARK@,
            i <= lines.len(),
            cut <= lines.len(),
            found ==> i == 0 && cut == cut_point(lines),
            !found ==> cut == lines.len() && last_marker(lines) == last_marker(
                lines.take(i as int),
            ),
        decreases i,
    {
        assert(lines.take(i as int).drop_last() =~= lines.take(i - 1));
        assert(lines.take(i as int).last() == lines[i - 1]);
        if line_is_marker(ls[i - 1].as_slice(), marker.as_slice()) {
            cut = i - 1;
            found = true;
            i = 0;
        } else {
            i = i - 1;
        }
    }
    proof {
        if !found {
            assert(lines.take(0) =~= Seq::<Seq<char>>::empty());
        }
    }
    // Join the lines above the cut.
    let mut out: Vec<char> = Vec::new();
    let mut k: usize = 0;
    while k < cut
        invariant
            ls@.len() == lines.len(),
            forall|m: int| 0 <= m < ls@.len() ==> #[trigger] ls@[m]@ == lines[m],
            cut == cut_point(lines),
            cut <= lines.len(),
            k <= cut,
            out@ == join_lines(lines.take(k as int)),
        decreases cut - k,
    {
        if k > 0 {
            out.push('\n');
            proof {
                lemma_join_push(lines.take(k as int), lines[k as int]);
                assert(lines.take(k as int).push(lines[k as int]) =~= lines.take(k + 1));
            }
        } else {
            assert(lines.take(1) =~= seq![lines[0]]);
            assert(out@ =~= Seq::<char>::empty());
        }
        let ghost before = out@;
        append_chars(&mut out, ls[k].as_slice());
        proof {
            if k > 0 {
                assert(out@ =~= before + lines[k as int]);
            } else {
                assert(out@ =~= lines[0]);
            }
        }
        k = k + 1;
    }
    let n = trim_end_len(out.as_slice());
    out.truncate(n);
    string_from_chars(out.as_slice())
}

/// The 1-based number of the first scissors line of `original`, if any.
pub fn marker_line(original: &str) -> (r: Option<usize>)
    ensures
        match r {
            Some(n) => 1 <= n <= lines_of(original@).len() && is_scissors_spec(
                lines_of(original@)[n - 1],
            ) && forall|j: int| 0 <= j < n - 1 ==> !#[trigger] is_scissors_spec(
                lines_of(original@)[j],
            ),
            None => forall|j: int|
                0 <= j < lines_of(original@).len() ==> !#[trigger] is_scissors_spec(
                    lines_of(original@)[j],
                ),
        },
        // The line reported carries the `>8` marker at its end.
        r matches Some(n) ==> exists|p: Seq<char>|
            trim_end_spec(lines_of(original@)[n - 1]) == p + SCISSORS_MARK@,
{
    let marker = chars_of(SCISSORS_MARK);
    let ls = lines_vec(original);
    let ghost lines = lines_of(original@);
    let mut i: usize = 0;
    while i < ls.len()
        invariant
            lines == lines_of(original@),
            ls@.len() == lines.len(),
            forall|k: int| 0 <= k < ls@.len() ==> #[trigger] ls@[k]@ == lines[k],
            marker@ == SCISSORS_MARK@,
            i <= lines.len(),
            forall|j: int| 0 <= j < i ==> !#[trigger] is_scissors_spec(lines[j]),
        decreases lines.len() - i,
    {
        if line_is_marker(ls[i].as_slice(), marker.as_slice()) {
            let r = i + 1;
            assert(is_scissors_spec(lines[r - 1]));
            proof {
                law_scissors_line_carries_marker(lines[r - 1]);
            }
            assert(forall|j: int| 0 <= j < r - 1 ==> !#[trigger] is_scissors_spec(lines[j]));
            return Some(r);
        }
        i = i + 1;
    }
    None
}

} // verus!
