//! Character-level text model: Unicode whitespace, trimming, line splitting
//! and joining, each stated over `Seq<char>` and implemented on `Vec<char>`.
use vstd::prelude::*;

verus! {

broadcast use vstd::string::group_string_axioms;

/// The Unicode `White_Space` property, which is what `char::is_whitespace`
/// tests: U+0009..U+000D, U+0020, U+0085, U+00A0, U+1680, U+2000..U+200A,
/// U+2028, U+2029, U+202F, U+205F and U+3000.
pub open spec fn is_ws(c: char) -> bool {
    ||| ('\u{9}' <= c && c <= '\u{D}')
    ||| c == ' '
    ||| c == '\u{85}'
    ||| c == '\u{A0}'
    ||| c == '\u{1680}'
    ||| ('\u{2000}' <= c && c <= '\u{200A}')
    ||| c == '\u{2028}'
    ||| c == '\u{2029}'
    ||| c == '\u{202F}'
    ||| c == '\u{205F}'
    ||| c == '\u{3000}'
}

/// Every character of `s` is whitespace (so trimming `s` leaves nothing).
pub open spec fn is_blank_spec(s: Seq<char>) -> bool {
    forall|i: int| 0 <= i < s.len() ==> #[trigger] is_ws(s[i])
}

/// `s` with its trailing whitespace removed.
pub open spec fn trim_end_spec(s: Seq<char>) -> Seq<char>
    decreases s.len(),
{
    if s.len() > 0 && is_ws(s.last()) {
        trim_end_spec(s.drop_last())
    } else {
        s
    }
}

/// `s` with its leading whitespace removed.
pub open spec fn trim_start_spec(s: Seq<char>) -> Seq<char>
    decreases s.len(),
{
    if s.len() > 0 && is_ws(s[0]) {
        trim_start_spec(s.drop_first())
    } else {
        s
    }
}

/// `s` with its leading and trailing whitespace removed.
pub open spec fn trim_spec(s: Seq<char>) -> Seq<char> {
    trim_start_spec(trim_end_spec(s))
}

/// `s` with its trailing `'\n'` characters removed.
pub open spec fn trim_newlines_end(s: Seq<char>) -> Seq<char>
    decreases s.len(),
{
    if s.len() > 0 && s.last() == '\n' {
        trim_newlines_end(s.drop_last())
    } else {
        s
    }
}

/// The pieces of `s` between `'\n'` characters: one more piece than `s` has
/// newlines, the last one being what follows the final newline.
pub open spec fn split_nl(s: Seq<char>) -> Seq<Seq<char>>
    decreases s.len(),
{
    if s.len() == 0 {
        seq![Seq::<char>::empty()]
    } else {
        let p = split_nl(s.drop_last());
        if s.last() == '\n' {
            p.push(Seq::<char>::empty())
        } else {
            p.update(p.len() - 1, p.last().push(s.last()))
        }
    }
}

/// A line that was ended by `"\r\n"` loses its `'\r'`.
pub open spec fn strip_cr(l: Seq<char>) -> Seq<char> {
    if l.len() > 0 && l.last() == '\r' {
        l.drop_last()
    } else {
        l
    }
}

/// The lines of `s` as `str::lines` yields them: split at `'\n'`, a line
/// ended by `"\r\n"` loses the `'\r'`, and a final line ending is optional
/// (a text that ends with a newline has no empty last line).
pub open spec fn lines_of(s: Seq<char>) -> Seq<Seq<char>> {
    let p = split_nl(s);
    let ended = p.drop_last().map_values(|l: Seq<char>| strip_cr(l));
    if s.len() == 0 || s.last() == '\n' {
        ended
    } else {
        ended.push(p.last())
    }
}

/// The lines joined with `'\n'` between them.
pub open spec fn join_lines(ls: Seq<Seq<char>>) -> Seq<char>
    decreases ls.len(),
{
    if ls.len() == 0 {
        Seq::<char>::empty()
    } else if ls.len() == 1 {
        ls[0]
    } else {
        join_lines(ls.drop_last()) + seq!['\n'] + ls.last()
    }
}

// ---------------------------------------------------------------------------
// Lemmas
// ---------------------------------------------------------------------------

/// The trimmed text is a prefix of the text, everything cut off is
/// whitespace, and what is kept does not end in whitespace.
pub proof fn lemma_trim_end(s: Seq<char>)
    ensures
        trim_end_spec(s).len() <= s.len(),
        trim_end_spec(s) == s.take(trim_end_spec(s).len() as int),
        trim_end_spec(s).len() == 0 || !is_ws(trim_end_spec(s).last()),
        forall|i: int| trim_end_spec(s).len() <= i < s.len() ==> #[trigger] is_ws(s[i]),
    decreases s.len(),
{
    if s.len() > 0 && is_ws(s.last()) {
        lemma_trim_end(s.drop_last());
        assert(s.drop_last().take(trim_end_spec(s).len() as int) =~= s.take(
            trim_end_spec(s).len() as int,
        ));
        assert forall|i: int| trim_end_spec(s).len() <= i < s.len() implies #[trigger] is_ws(
            s[i],
        ) by {
            if i < s.len() - 1 {
                assert(is_ws(s.drop_last()[i]));
            }
        }
    } else {
        assert(s.take(s.len() as int) =~= s);
    }
}

/// Appending whitespace does not change the trimmed text.
pub proof fn lemma_trim_end_append_blank(s: Seq<char>, w: Seq<char>)
    requires
        is_blank_spec(w),
    ensures
        trim_end_spec(s + w) == trim_end_spec(s),
    decreases w.len(),
{
    if w.len() > 0 {
        assert((s + w).last() == w.last());
        assert(is_ws(w[w.len() - 1]));
        assert((s + w).drop_last() =~= s + w.drop_last());
        lemma_trim_end_append_blank(s, w.drop_last());
    } else {
        assert(s + w =~= s);
    }
}

/// A text that does not end in whitespace is its own trimmed form.
pub proof fn lemma_trim_end_noop(s: Seq<char>)
    requires
        s.len() == 0 || !is_ws(s.last()),
    ensures
        trim_end_spec(s) == s,
{
}

/// Trimming is idempotent.
pub proof fn lemma_trim_end_idempotent(s: Seq<char>)
    ensures
        trim_end_spec(trim_end_spec(s)) == trim_end_spec(s),
{
    lemma_trim_end(s);
}

/// Trailing newlines are whitespace, so removing them first changes nothing
/// after trimming.
pub proof fn lemma_trim_end_after_newlines(s: Seq<char>)
    ensures
        trim_end_spec(trim_newlines_end(s)) == trim_end_spec(s),
        trim_newlines_end(s).len() <= s.len(),
        trim_newlines_end(s).len() == 0 || trim_newlines_end(s).last() != '\n',
        trim_newlines_end(s) == s.take(trim_newlines_end(s).len() as int),
    decreases s.len(),
{
    if s.len() > 0 && s.last() == '\n' {
        lemma_trim_end_after_newlines(s.drop_last());
        assert(s.drop_last().take(trim_newlines_end(s).len() as int) =~= s.take(
            trim_newlines_end(s).len() as int,
        ));
    } else {
        assert(s.take(s.len() as int) =~= s);
    }
}

/// There is always at least one piece.
pub proof fn lemma_split_nl_len(s: Seq<char>)
    ensures
        split_nl(s).len() >= 1,
    decreases s.len(),
{
    if s.len() > 0 {
        lemma_split_nl_len(s.drop_last());
    }
}

/// A text without newlines is a single piece.
pub proof fn lemma_split_nl_no_newline(s: Seq<char>)
    requires
        !s.contains('\n'),
    ensures
        split_nl(s) == seq![s],
    decreases s.len(),
{
    if s.len() > 0 {
        assert(!s.drop_last().contains('\n')) by {
            if s.drop_last().contains('\n') {
                let k = choose|k: int| 0 <= k < s.drop_last().len() && s.drop_last()[k] == '\n';
                assert(s[k] == '\n');
            }
        }
        lemma_split_nl_no_newline(s.drop_last());
        assert(s.last() != '\n') by {
            assert(s[s.len() - 1] == s.last());
        }
        assert(s.drop_last().push(s.last()) =~= s);
    } else {
        assert(s =~= Seq::<char>::empty());
    }
}

/// Splitting `a + b`: the last piece of `a` and the first piece of `b` fuse.
pub proof fn lemma_split_nl_concat(a: Seq<char>, b: Seq<char>)
    ensures
        split_nl(a + b) == split_nl(a).drop_last() + seq![split_nl(a).last() + split_nl(b)[0]]
            + split_nl(b).drop_first(),
    decreases b.len(),
{
    lemma_split_nl_len(a);
    lemma_split_nl_len(b);
    let pa = split_nl(a);
    if b.len() == 0 {
        assert(a + b =~= a);
        assert(split_nl(b) =~= seq![Seq::<char>::empty()]);
        assert(pa.last() + Seq::<char>::empty() =~= pa.last());
        assert(pa.drop_last() + seq![pa.last()] + Seq::<Seq<char>>::empty() =~= pa);
        assert(split_nl(b).drop_first() =~= Seq::<Seq<char>>::empty());
    } else {
        let b0 = b.drop_last();
        lemma_split_nl_concat(a, b0);
        lemma_split_nl_len(b0);
        assert((a + b).drop_last() =~= a + b0);
        assert((a + b).last() == b.last());
        let pb0 = split_nl(b0);
        let pb = split_nl(b);
        if b.last() == '\n' {
            assert(pb == pb0.push(Seq::<char>::empty()));
            if pb0.len() == 1 {
                assert(pb[0] == pb0[0]);
                assert(pb.drop_first() =~= seq![Seq::<char>::empty()]);
                assert(pb0.drop_first() =~= Seq::<Seq<char>>::empty());
            } else {
                assert(pb[0] == pb0[0]);
                assert(pb.drop_first() =~= pb0.drop_first().push(Seq::<char>::empty()));
            }
            assert(split_nl(a + b) =~= pa.drop_last() + seq![pa.last() + pb[0]] + pb.drop_first());
        } else {
            let c = b.last();
            assert(pb == pb0.update(pb0.len() - 1, pb0.last().push(c)));
            if pb0.len() == 1 {
                assert(pb[0] == pb0[0].push(c));
                assert(pb.drop_first() =~= Seq::<Seq<char>>::empty());
                assert(pb0.drop_first() =~= Seq::<Seq<char>>::empty());
                assert(pa.last() + pb0[0].push(c) =~= (pa.last() + pb0[0]).push(c));
            } else {
                assert(pb[0] == pb0[0]);
                assert(pb.drop_first() =~= pb0.drop_first().update(
                    pb0.drop_first().len() - 1,
                    pb0.drop_first().last().push(c),
                ));
            }
            assert(split_nl(a + b) =~= pa.drop_last() + seq![pa.last() + pb[0]] + pb.drop_first());
        }
    }
}

/// A newline between `a` and `b` separates their pieces.
pub proof fn lemma_split_nl_at_newline(a: Seq<char>, b: Seq<char>)
    ensures
        split_nl(a + seq!['\n'] + b) == split_nl(a) + split_nl(b),
{
    lemma_split_nl_len(a);
    lemma_split_nl_len(b);
    let an = a + seq!['\n'];
    assert(an.drop_last() =~= a);
    assert(split_nl(an) == split_nl(a).push(Seq::<char>::empty()));
    lemma_split_nl_concat(an, b);
    let pa = split_nl(an);
    assert(pa.drop_last() =~= split_nl(a));
    assert(Seq::<char>::empty() + split_nl(b)[0] =~= split_nl(b)[0]);
    assert(split_nl(b) =~= seq![split_nl(b)[0]] + split_nl(b).drop_first());
    assert(split_nl(a) + seq![split_nl(b)[0]] + split_nl(b).drop_first() =~= split_nl(a)
        + split_nl(b));
}

/// Joining the pieces of `s` with newlines gives `s` back.
pub proof fn lemma_join_split(s: Seq<char>)
    ensures
        join_lines(split_nl(s)) == s,
    decreases s.len(),
{
    lemma_split_nl_len(s);
    if s.len() > 0 {
        let s0 = s.drop_last();
        lemma_join_split(s0);
        lemma_split_nl_len(s0);
        let p0 = split_nl(s0);
        let p = split_nl(s);
        if s.last() == '\n' {
            assert(p.drop_last() =~= p0);
            assert(s =~= s0 + seq!['\n'] + Seq::<char>::empty());
        } else {
            lemma_join_update_last(p0, s.last());
            assert(s =~= s0.push(s.last()));
        }
    } else {
        assert(s =~= Seq::<char>::empty());
    }
}

/// Extending the last line by one character extends the joined text by it.
pub proof fn lemma_join_update_last(ls: Seq<Seq<char>>, c: char)
    requires
        ls.len() >= 1,
    ensures
        join_lines(ls.update(ls.len() - 1, ls.last().push(c))) == join_lines(ls).push(c),
{
    let u = ls.update(ls.len() - 1, ls.last().push(c));
    if ls.len() == 1 {
    } else {
        assert(u.drop_last() =~= ls.drop_last());
    }
}

/// Joining one more line appends a newline and that line.
pub proof fn lemma_join_push(ls: Seq<Seq<char>>, l: Seq<char>)
    requires
        ls.len() >= 1,
    ensures
        join_lines(ls.push(l)) == join_lines(ls) + seq!['\n'] + l,
{
    assert(ls.push(l).drop_last() =~= ls);
}

// ---------------------------------------------------------------------------
// Executable functions
// ---------------------------------------------------------------------------

/// `char::is_whitespace`.
pub fn is_whitespace(c: char) -> (b: bool)
    ensures
        b == is_ws(c),
{
    ('\u{9}' <= c && c <= '\u{D}') || c == ' ' || c == '\u{85}' || c == '\u{A0}' || c
        == '\u{1680}' || ('\u{2000}' <= c && c <= '\u{200A}') || c == '\u{2028}' || c
        == '\u{2029}' || c == '\u{202F}' || c == '\u{205F}' || c == '\u{3000}'
}

/// The characters of `s`, in order.
pub fn chars_of(s: &str) -> (v: Vec<char>)
    ensures
        v@ == s@,
{
    let mut v: Vec<char> = Vec::new();
    for c in it: s.chars()
        invariant
            v@ == it.seq().take(it.index() as int),
            it.seq() == s@,
    {
        v.push(c);
    }
    v
}

/// Builds a `String` from characters.
#[verifier::external_body]
pub(crate) fn string_from_chars(v: &[char]) -> (s: String)
    ensures
        s@ == v@,
{
    v.iter().collect()
}

/// Appends the characters of `src` to `out`.
pub fn append_chars(out: &mut Vec<char>, src: &[char])
    ensures
        final(out)@ == old(out)@ + src@,
{
    let mut i: usize = 0;
    while i < src.len()
        invariant
            i <= src@.len(),
            out@ == old(out)@ + src@.take(i as int),
        decreases src@.len() - i,
    {
        out.push(src[i]);
        i = i + 1;
        assert(src@.take(i as int) =~= src@.take(i - 1).push(src@[i - 1]));
    }
    assert(src@.take(i as int) =~= src@);
}

/// How many characters remain of `s` once its trailing whitespace is cut.
pub fn trim_end_len(s: &[char]) -> (n: usize)
    ensures
        n <= s@.len(),
        s@.take(n as int) == trim_end_spec(s@),
{
    let mut n = s.len();
    assert(s@.take(n as int) =~= s@);
    while n > 0 && is_whitespace(s[n - 1])
        invariant
            n <= s@.len(),
            trim_end_spec(s@.take(n as int)) == trim_end_spec(s@),
        decreases n,
    {
        assert(s@.take(n as int).drop_last() =~= s@.take(n - 1));
        n = n - 1;
    }
    n
}

/// True when `s` is empty or all whitespace (`s.trim().is_empty()`).
pub fn is_blank(s: &str) -> (b: bool)
    ensures
        b == is_blank_spec(s@),
{
    let v = chars_of(s);
    let mut i: usize = 0;
    while i < v.len()
        invariant
            i <= v@.len(),
            v@ == s@,
            forall|j: int| 0 <= j < i ==> #[trigger] is_ws(v@[j]),
        decreases v@.len() - i,
    {
        if !is_whitespace(v[i]) {
            return false;
        }
        i = i + 1;
    }
    true
}

/// `s.trim_end()`: `s` without its trailing whitespace.
pub fn trim_end(s: &str) -> (t: String)
    ensures
        t@ == trim_end_spec(s@),
{
    let mut v = chars_of(s);
    let n = trim_end_len(v.as_slice());
    v.truncate(n);
    string_from_chars(v.as_slice())
}

/// `s.trim()`: `s` without its leading and trailing whitespace.
pub fn trim(s: &str) -> (t: String)
    ensures
        t@ == trim_spec(s@),
{
    let v = chars_of(s);
    let n = trim_end_len(v.as_slice());
    let ghost t = v@.take(n as int);
    let mut i: usize = 0;
    assert(t.skip(0) =~= t);
    while i < n && is_whitespace(v[i])
        invariant
            n <= v@.len(),
            t == v@.take(n as int),
            i <= n,
            trim_start_spec(t.skip(i as int)) == trim_start_spec(t),
        decreases n - i,
    {
        assert(t.skip(i as int)[0] == v@[i as int]);
        assert(t.skip(i as int).drop_first() =~= t.skip(i + 1));
        i = i + 1;
    }
    proof {
        if i < n {
            assert(t.skip(i as int)[0] == v@[i as int]);
        } else {
            assert(t.skip(i as int) =~= Seq::<char>::empty());
        }
    }
    let mut out: Vec<char> = Vec::new();
    let mut j: usize = i;
    while j < n
        invariant
            i <= j <= n,
            n <= v@.len(),
            out@ == v@.subrange(i as int, j as int),
        decreases n - j,
    {
        out.push(v[j]);
        j = j + 1;
        assert(out@ =~= v@.subrange(i as int, j as int));
    }
    assert(out@ =~= t.skip(i as int));
    string_from_chars(out.as_slice())
}

/// The lines of `s` as `str::lines` yields them, as character vectors.
pub fn lines_vec(s: &str) -> (ls: Vec<Vec<char>>)
    ensures
        ls@.len() == lines_of(s@).len(),
        forall|i: int| 0 <= i < ls@.len() ==> #[trigger] ls@[i]@ == lines_of(s@)[i],
{
    let v = chars_of(s);
    let mut ls: Vec<Vec<char>> = Vec::new();
    let mut cur: Vec<char> = Vec::new();
    let mut k: usize = 0;
    proof {
        assert(s@.take(0) =~= Seq::<char>::empty());
    }
    while k < v.len()
        invariant
            v@ == s@,
            k <= v@.len(),
            ({
                let p = split_nl(s@.take(k as int));
                &&& ls@.len() == p.len() - 1
                &&& forall|i: int| 0 <= i < ls@.len() ==> #[trigger] ls@[i]@ == strip_cr(p[i])
                &&& cur@ == p.last()
            }),
        decreases v@.len() - k,
    {
        let c = v[k];
        let ghost pre = s@.take(k as int);
        let ghost next = s@.take(k + 1);
        proof {
            lemma_split_nl_len(pre);
            assert(next.drop_last() =~= pre);
            assert(next.last() == c);
        }
        if c == '\n' {
            let mut line = Vec::new();
            std::mem::swap(&mut line, &mut cur);
            if line.len() > 0 && line[line.len() - 1] == '\r' {
                line.pop();
            }
            ls.push(line);
        } else {
            cur.push(c);
        }
        k = k + 1;
    }
    proof {
        assert(s@.take(k as int) =~= s@);
        lemma_split_nl_len(s@);
    }
    let ghost p = split_nl(s@);
    if cur.len() > 0 {
        ls.push(cur);
        proof {
            assert(s@.len() > 0 && s@.last() != '\n') by {
                if s@.len() == 0 {
                    assert(p =~= seq![Seq::<char>::empty()]);
                } else if s@.last() == '\n' {
                    assert(p.last() =~= Seq::<char>::empty());
                }
            }
        }
    } else {
        proof {
            assert(s@.len() == 0 || s@.last() == '\n') by {
                if s@.len() > 0 && s@.last() != '\n' {
                    let p0 = split_nl(s@.drop_last());
                    lemma_split_nl_len(s@.drop_last());
                    assert(p.last() == p0.last().push(s@.last()));
                }
            }
        }
    }
    ls
}

} // verus!
