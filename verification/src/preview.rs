//! The one-line preview under which a captured text is listed and searched.

use vstd::prelude::*;
use crate::text::{chars_of, is_white_space, string_from_chars, white_space};

verus! {

/// Longest preview, in characters, before it is cut and marked with `...`.
pub const MAX_PREVIEW_CHARS: usize = 180;

/// The words of `s`: its maximal runs of characters that are not white
/// space, in order (what `str::split_whitespace` yields).
pub open spec fn words(s: Seq<char>) -> Seq<Seq<char>>
    decreases s.len(),
{
    if s.len() == 0 {
        Seq::empty()
    } else {
        let w = words(s.drop_last());
        let c = s.last();
        if is_white_space(c) {
            w
        } else if s.len() > 1 && !is_white_space(s[s.len() - 2]) {
            w.drop_last().push(w.last().push(c))
        } else {
            w.push(seq![c])
        }
    }
}

/// The parts `parts` joined with `sep` between each two.
pub open spec fn join(parts: Seq<Seq<char>>, sep: Seq<char>) -> Seq<char>
    decreases parts.len(),
{
    if parts.len() == 0 {
        Seq::empty()
    } else if parts.len() == 1 {
        parts[0]
    } else {
        join(parts.drop_last(), sep) + sep + parts.last()
    }
}

/// The words of `s` joined by single spaces.
pub open spec fn collapsed(s: Seq<char>) -> Seq<char> {
    join(words(s), seq![' '])
}

/// The preview of a text: its words joined by single spaces; when that is
/// longer than `MAX_PREVIEW_CHARS` characters, its first `MAX_PREVIEW_CHARS`
/// characters followed by `...`.
pub open spec fn preview_of(s: Seq<char>) -> Seq<char> {
    let c = collapsed(s);
    if c.len() > MAX_PREVIEW_CHARS {
        c.take(MAX_PREVIEW_CHARS as int) + seq!['.', '.', '.']
    } else {
        c
    }
}

/// A text ending in a character that is not white space has a word.
proof fn lemma_words_nonempty(s: Seq<char>)
    requires
        s.len() > 0,
        !is_white_space(s.last()),
    ensures
        words(s).len() > 0,
    decreases s.len(),
{
    if s.len() > 1 && !is_white_space(s[s.len() - 2]) {
        lemma_words_nonempty(s.drop_last());
    }
}

/// Joining after extending the last part extends the join.
proof fn lemma_join_extend_last(w: Seq<Seq<char>>, sep: Seq<char>, c: char)
    requires
        w.len() > 0,
    ensures
        join(w.drop_last().push(w.last().push(c)), sep) == join(w, sep).push(c),
{
    let w2 = w.drop_last().push(w.last().push(c));
    if w.len() == 1 {
        assert(w2[0] == w[0].push(c));
    } else {
        assert(w2.drop_last() == w.drop_last());
        assert(w2.last() == w.last().push(c));
    }
}

/// A join of two or more parts is the first part, the separator, and the
/// join of the others.
pub proof fn lemma_join_first(parts: Seq<Seq<char>>, sep: Seq<char>)
    requires
        parts.len() >= 2,
    ensures
        join(parts, sep) == parts[0] + sep + join(parts.drop_first(), sep),
    decreases parts.len(),
{
    let rest = parts.drop_first();
    if parts.len() == 2 {
        assert(parts.drop_last().len() == 1);
        assert(join(parts.drop_last(), sep) == parts[0]);
        assert(rest.len() == 1);
        assert(join(rest, sep) == parts[1]);
        assert(join(parts, sep) == join(parts.drop_last(), sep) + sep + parts.last());
    } else {
        let dl = parts.drop_last();
        lemma_join_first(dl, sep);
        assert(dl.drop_first() == rest.drop_last());
        assert(rest.last() == parts.last());
        assert(dl[0] == parts[0]);
        assert(join(parts, sep) == join(dl, sep) + sep + parts.last());
        assert(join(rest, sep) == join(rest.drop_last(), sep) + sep + rest.last());
        assert(join(parts, sep) =~= parts[0] + sep + join(rest, sep));
    }
}

/// Joining after adding a part adds the separator and the part.
pub proof fn lemma_join_push(w: Seq<Seq<char>>, sep: Seq<char>, x: Seq<char>)
    ensures
        join(w.push(x), sep) == if w.len() == 0 {
            x
        } else {
            join(w, sep) + sep + x
        },
{
    if w.len() > 0 {
        assert(w.push(x).drop_last() == w);
    }
}

/// How the collapsed text changes when one character is appended.
pub proof fn lemma_collapsed_step(s: Seq<char>, c: char)
    ensures
        collapsed(s.push(c)) == if is_white_space(c) {
            collapsed(s)
        } else if s.len() > 0 && !is_white_space(s.last()) {
            collapsed(s).push(c)
        } else if words(s).len() == 0 {
            seq![c]
        } else {
            collapsed(s) + seq![' ', c]
        },
{
    let t = s.push(c);
    assert(t.drop_last() == s);
    if !is_white_space(c) {
        if s.len() > 0 && !is_white_space(s.last()) {
            lemma_words_nonempty(s);
            assert(t[t.len() - 2] == s.last());
            lemma_join_extend_last(words(s), seq![' '], c);
        } else {
            lemma_join_push(words(s), seq![' '], seq![c]);
            assert(seq![' '] + seq![c] == seq![' ', c]);
            if words(s).len() > 0 {
                assert(collapsed(s) + seq![' '] + seq![c] == collapsed(s) + seq![' ', c]);
            }
        }
    }
}

/// Builds the preview of a captured text.
pub fn preview_text(text: &str) -> (p: String)
    ensures
        p@ == preview_of(text@),
{
    let chars = chars_of(text);
    let n = chars.len();
    let mut out: Vec<char> = Vec::new();
    let mut in_word = false;
    let mut any_word = false;
    for i in 0..n
        invariant
            n == chars.len(),
            out@ == collapsed(chars@.take(i as int)),
            in_word == (i > 0 && !is_white_space(chars@[i - 1])),
            any_word == (words(chars@.take(i as int)).len() > 0),
    {
        let c = chars[i];
        let ghost prefix = chars@.take(i as int);
        proof {
            assert(chars@.take(i + 1) == prefix.push(c));
            lemma_collapsed_step(prefix, c);
            if i > 0 {
                assert(prefix.last() == chars@[i - 1]);
            }
            if !is_white_space(c) {
                lemma_words_nonempty(prefix.push(c));
            }
            assert(prefix.push(c).drop_last() == prefix);
        }
        if white_space(c) {
            in_word = false;
        } else {
            if !in_word && any_word {
                out.push(' ');
            }
            out.push(c);
            in_word = true;
            any_word = true;
        }
        proof {
            if !is_white_space(c) && !(i > 0 && !is_white_space(chars@[i - 1])) && words(
                prefix,
            ).len() > 0 {
                assert(collapsed(prefix) + seq![' ', c] == collapsed(prefix).push(' ').push(c));
            }
        }
    }
    assert(chars@.take(n as int) == chars@);
    if out.len() > MAX_PREVIEW_CHARS {
        let ghost full = out@;
        out.truncate(MAX_PREVIEW_CHARS);
        out.push('.');
        out.push('.');
        out.push('.');
        assert(out@ == full.take(MAX_PREVIEW_CHARS as int) + seq!['.', '.', '.']);
    }
    string_from_chars(&out)
}

/// Every white-space character of `t` is a single space between two
/// characters that are not white space.
pub open spec fn is_single_spaced(t: Seq<char>) -> bool {
    forall|i: int|
        0 <= i < t.len() && is_white_space(#[trigger] t[i]) ==> {
            &&& t[i] == ' '
            &&& 0 < i < t.len() - 1
            &&& !is_white_space(t[i - 1])
            &&& !is_white_space(t[i + 1])
        }
}

/// Like `is_single_spaced`, except that a final space is allowed.
spec fn is_single_spaced_prefix(t: Seq<char>) -> bool {
    forall|i: int|
        0 <= i < t.len() && is_white_space(#[trigger] t[i]) ==> {
            &&& t[i] == ' '
            &&& 0 < i
            &&& !is_white_space(t[i - 1])
            &&& i + 1 < t.len() ==> !is_white_space(t[i + 1])
        }
}

/// The collapsed text of any text is single-spaced, and empty only when the
/// text has no word.
pub proof fn lemma_collapsed_single_spaced(s: Seq<char>)
    ensures
        is_single_spaced(collapsed(s)),
        words(s).len() > 0 ==> collapsed(s).len() > 0,
    decreases s.len(),
{
    if s.len() > 0 {
        let p = s.drop_last();
        let c = s.last();
        lemma_collapsed_single_spaced(p);
        assert(p.push(c) == s);
        lemma_collapsed_step(p, c);
        let old = collapsed(p);
        let new = collapsed(s);
        if !is_white_space(c) {
            if p.len() > 0 && !is_white_space(p.last()) {
                assert forall|i: int|
                    0 <= i < new.len() && is_white_space(#[trigger] new[i]) implies {
                    &&& new[i] == ' '
                    &&& 0 < i < new.len() - 1
                    &&& !is_white_space(new[i - 1])
                    &&& !is_white_space(new[i + 1])
                } by {
                    assert(new[i] == old[i]);
                    assert(new[i - 1] == old[i - 1]);
                    assert(new[i + 1] == old[i + 1]);
                }
            } else if words(p).len() > 0 {
                assert(old.len() > 0);
                assert(!is_white_space(old[old.len() - 1]));
                assert forall|i: int|
                    0 <= i < new.len() && is_white_space(#[trigger] new[i]) implies {
                    &&& new[i] == ' '
                    &&& 0 < i < new.len() - 1
                    &&& !is_white_space(new[i - 1])
                    &&& !is_white_space(new[i + 1])
                } by {
                    if i < old.len() {
                        assert(new[i] == old[i]);
                        assert(new[i - 1] == old[i - 1]);
                        assert(new[i + 1] == old[i + 1]);
                    } else {
                        assert(i == old.len());
                        assert(new[i - 1] == old[old.len() - 1]);
                        assert(new[i + 1] == c);
                    }
                }
            } else {
                assert(new == seq![c]);
            }
        }
    }
}

/// A text that allows a final space collapses to itself without that space.
proof fn lemma_collapse_of_single_spaced_prefix(t: Seq<char>)
    requires
        is_single_spaced_prefix(t),
    ensures
        collapsed(t) == if t.len() > 0 && is_white_space(t.last()) {
            t.drop_last()
        } else {
            t
        },
    decreases t.len(),
{
    if t.len() > 0 {
        let p = t.drop_last();
        let c = t.last();
        assert(p.push(c) == t);
        assert forall|i: int| 0 <= i < p.len() && is_white_space(#[trigger] p[i]) implies {
            &&& p[i] == ' '
            &&& 0 < i
            &&& !is_white_space(p[i - 1])
            &&& i + 1 < p.len() ==> !is_white_space(p[i + 1])
        } by {
            assert(p[i] == t[i]);
            assert(p[i - 1] == t[i - 1]);
            if i + 1 < p.len() {
                assert(p[i + 1] == t[i + 1]);
            }
        }
        lemma_collapse_of_single_spaced_prefix(p);
        lemma_collapsed_step(p, c);
        if is_white_space(c) {
            assert(t[t.len() - 1] == c);
            assert(!is_white_space(t[t.len() - 2]));
            assert(p.last() == t[t.len() - 2]);
        } else if p.len() > 0 && !is_white_space(p.last()) {
        } else if p.len() > 0 {
            assert(p.last() == t[t.len() - 2]);
            assert(is_white_space(t[t.len() - 2]));
            assert(t[t.len() - 2] == ' ');
            assert(!is_white_space(t[t.len() - 3]));
            let q = p.drop_last();
            assert(q.last() == t[t.len() - 3]);
            lemma_words_nonempty(q);
            assert(q.push(p.last()) == p);
            assert(words(p) == words(q));
            assert(p.drop_last() + seq![' ', c] == t);
        }
    }
}

/// A single-spaced text collapses to itself.
pub proof fn lemma_collapse_single_spaced(t: Seq<char>)
    requires
        is_single_spaced(t),
    ensures
        collapsed(t) == t,
{
    assert forall|i: int| 0 <= i < t.len() && is_white_space(#[trigger] t[i]) implies {
        &&& t[i] == ' '
        &&& 0 < i
        &&& !is_white_space(t[i - 1])
        &&& i + 1 < t.len() ==> !is_white_space(t[i + 1])
    } by {}
    lemma_collapse_of_single_spaced_prefix(t);
    if t.len() > 0 && is_white_space(t.last()) {
        assert(is_white_space(t[t.len() - 1]));
    }
}

/// Collapsing white space twice is collapsing it once.
pub proof fn lemma_collapsed_idempotent(s: Seq<char>)
    ensures
        collapsed(collapsed(s)) == collapsed(s),
{
    lemma_collapsed_single_spaced(s);
    lemma_collapse_single_spaced(collapsed(s));
}

/// A preview is at most `MAX_PREVIEW_CHARS` characters and the `...` mark.
pub proof fn lemma_preview_length(s: Seq<char>)
    ensures
        preview_of(s).len() <= MAX_PREVIEW_CHARS + 3,
{
}

/// A preview that was cut is single-spaced: the kept characters are, and the
/// `...` mark is no white space.
proof fn lemma_cut_preview_single_spaced(c: Seq<char>)
    requires
        is_single_spaced(c),
        c.len() > MAX_PREVIEW_CHARS,
    ensures
        is_single_spaced(c.take(MAX_PREVIEW_CHARS as int) + seq!['.', '.', '.']),
{
    let m = MAX_PREVIEW_CHARS as int;
    let p = c.take(m) + seq!['.', '.', '.'];
    assert forall|i: int| 0 <= i < p.len() && is_white_space(#[trigger] p[i]) implies {
        &&& p[i] == ' '
        &&& 0 < i < p.len() - 1
        &&& !is_white_space(p[i - 1])
        &&& !is_white_space(p[i + 1])
    } by {
        if i < m {
            assert(p[i] == c[i]);
            assert(p[i - 1] == c[i - 1]);
            if i + 1 < m {
                assert(p[i + 1] == c[i + 1]);
            } else {
                assert(p[i + 1] == '.');
            }
        } else {
            assert(p[i] == '.');
        }
    }
}

/// Taking the preview of a preview gives the same preview.
pub proof fn lemma_preview_idempotent(s: Seq<char>)
    ensures
        preview_of(preview_of(s)) == preview_of(s),
{
    lemma_collapsed_idempotent(s);
    let c = collapsed(s);
    if c.len() > MAX_PREVIEW_CHARS {
        lemma_collapsed_single_spaced(s);
        lemma_cut_preview_single_spaced(c);
        let p = preview_of(s);
        lemma_collapse_single_spaced(p);
        assert(p.take(MAX_PREVIEW_CHARS as int) == c.take(MAX_PREVIEW_CHARS as int));
    }
}

/// A short, single-spaced text is its own preview.
pub proof fn lemma_preview_keeps_single_spaced(t: Seq<char>)
    requires
        is_single_spaced(t),
        t.len() <= MAX_PREVIEW_CHARS,
    ensures
        preview_of(t) == t,
{
    lemma_collapse_single_spaced(t);
}

} // verus!
