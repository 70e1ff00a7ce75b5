//! Which copied text is kept out of the history: text the source marked as
//! sensitive, blank text, and text shaped like a secret token.

use vstd::prelude::*;
use vstd::string::StrSliceExecFns;
use vstd::utf8::encode_utf8;
use crate::text::{
    chars_of, has_white_space, is_white_space, lemma_trim_idempotent, trim, trim_bounds, white_space,
};

verus! {

broadcast use vstd::string::group_string_axioms;

/// Shortest text, in UTF-8 bytes, that can look like a secret.
pub const MIN_SECRET_LENGTH: usize = 20;

/// ASCII letters `A`-`Z` and `a`-`z`.
pub open spec fn is_ascii_letter(c: char) -> bool {
    ('A' <= c <= 'Z') || ('a' <= c <= 'z')
}

/// ASCII digits `0`-`9`.
pub open spec fn is_ascii_digit(c: char) -> bool {
    '0' <= c <= '9'
}

/// The punctuation that separates the parts of typical tokens.
pub open spec fn is_token_symbol(c: char) -> bool {
    c == '-' || c == '_' || c == '.' || c == '/' || c == '+' || c == '=' || c == ':' || c == '~'
}

/// How many characters of `s` are token punctuation.
pub open spec fn symbol_count(s: Seq<char>) -> nat
    decreases s.len(),
{
    if s.len() == 0 {
        0
    } else {
        symbol_count(s.drop_last()) + if is_token_symbol(s.last()) {
            1nat
        } else {
            0nat
        }
    }
}

/// Text shaped like a credential: at least `MIN_SECRET_LENGTH` bytes long in
/// UTF-8, free of white space, with an ASCII letter, an ASCII digit and at
/// least two token punctuation characters.
pub open spec fn looks_like_secret_spec(t: Seq<char>) -> bool {
    &&& encode_utf8(t).len() >= MIN_SECRET_LENGTH
    &&& !has_white_space(t)
    &&& exists|i: int| 0 <= i < t.len() && is_ascii_letter(#[trigger] t[i])
    &&& exists|i: int| 0 <= i < t.len() && is_ascii_digit(#[trigger] t[i])
    &&& symbol_count(t) >= 2
}

/// Whether a capture of `text` is skipped: it is marked sensitive, it is
/// blank once trimmed, or the trimmed text looks like a secret.
pub open spec fn skips_text(text: Seq<char>, marked_sensitive: bool) -> bool {
    marked_sensitive || trim(text).len() == 0 || looks_like_secret_spec(trim(text))
}

/// Decides whether a captured text must not be stored.
pub fn should_skip_text(text: &str, marked_sensitive: bool) -> (skip: bool)
    ensures
        skip == skips_text(text@, marked_sensitive),
{
    if marked_sensitive {
        return true;
    }
    let chars = chars_of(text);
    let (lo, hi) = trim_bounds(&chars);
    if lo == hi {
        return true;
    }
    let trimmed = text.substring_char(lo, hi);
    looks_like_secret(trimmed)
}

/// Whether `text` is shaped like a credential (see `looks_like_secret_spec`).
pub fn looks_like_secret(text: &str) -> (b: bool)
    ensures
        b == looks_like_secret_spec(text@),
{
    let byte_len = text.as_bytes().len();
    if byte_len < MIN_SECRET_LENGTH {
        return false;
    }
    let chars = chars_of(text);
    let n = chars.len();
    let mut has_space = false;
    let mut has_alpha = false;
    let mut has_digit = false;
    let mut symbols: usize = 0;
    let mut i: usize = 0;
    while i < n
        invariant
            n == chars.len(),
            chars@ == text@,
            i <= n,
            symbols == symbol_count(chars@.take(i as int)),
            symbols <= i,
            has_space == has_white_space(chars@.take(i as int)),
            has_alpha == exists|j: int| 0 <= j < i && is_ascii_letter(#[trigger] chars@[j]),
            has_digit == exists|j: int| 0 <= j < i && is_ascii_digit(#[trigger] chars@[j]),
        decreases n - i,
    {
        let c = chars[i];
        let ghost prefix = chars@.take(i as int);
        assert(chars@.take(i + 1).drop_last() == prefix);
        assert(chars@.take(i + 1).last() == c);
        if white_space(c) {
            has_space = true;
            assert(is_white_space(chars@.take(i + 1)[i as int]));
        } else {
            assert forall|j: int|
                0 <= j < i + 1 && is_white_space(#[trigger] chars@.take(i + 1)[j]) implies
                is_white_space(prefix[j]) by {}
            assert forall|j: int|
                0 <= j < i && is_white_space(#[trigger] prefix[j]) implies
                is_white_space(chars@.take(i + 1)[j]) by {}
        }
        if ('A' <= c && c <= 'Z') || ('a' <= c && c <= 'z') {
            has_alpha = true;
        }
        if '0' <= c && c <= '9' {
            has_digit = true;
        }
        if c == '-' || c == '_' || c == '.' || c == '/' || c == '+' || c == '=' || c == ':' || c
            == '~' {
            symbols = symbols + 1;
        }
        i = i + 1;
    }
    assert(chars@.take(n as int) == chars@);
    !has_space && has_alpha && has_digit && symbols >= 2
}

/// Surrounding white space never changes whether a text is skipped.
pub proof fn lemma_skip_ignores_surrounding_space(text: Seq<char>, marked_sensitive: bool)
    ensures
        skips_text(trim(text), marked_sensitive) == skips_text(text, marked_sensitive),
{
    lemma_trim_idempotent(text);
}

/// A text marked sensitive is always skipped, and so is blank text.
pub proof fn lemma_sensitive_or_blank_skipped(text: Seq<char>, marked_sensitive: bool)
    requires
        marked_sensitive || forall|i: int| 0 <= i < text.len() ==> is_white_space(#[trigger] text[i]),
    ensures
        skips_text(text, marked_sensitive),
{
    if !marked_sensitive {
        lemma_blank_trims_to_empty(text);
    }
}

proof fn lemma_blank_trims_to_empty(text: Seq<char>)
    requires
        forall|i: int| 0 <= i < text.len() ==> is_white_space(#[trigger] text[i]),
    ensures
        trim(text).len() == 0,
    decreases text.len(),
{
    if text.len() > 0 {
        assert(is_white_space(text[0]));
        let rest = text.drop_first();
        assert forall|i: int| 0 <= i < rest.len() implies is_white_space(#[trigger] rest[i]) by {
            assert(rest[i] == text[i + 1]);
        }
        lemma_blank_trims_to_empty(rest);
    }
}

/// One of the characters `- _ . / + = : ~`, written out.
pub open spec fn is_listed_punctuation(c: char) -> bool {
    ||| c == '-'
    ||| c == '_'
    ||| c == '.'
    ||| c == '/'
    ||| c == '+'
    ||| c == '='
    ||| c == ':'
    ||| c == '~'
}

proof fn lemma_symbol_count_monotone(t: Seq<char>, k: int)
    requires
        0 <= k <= t.len(),
    ensures
        symbol_count(t.take(k)) <= symbol_count(t),
    decreases t.len() - k,
{
    if k < t.len() {
        lemma_symbol_count_monotone(t, k + 1);
        assert(t.take(k + 1).drop_last() == t.take(k));
    } else {
        assert(t.take(k) == t);
    }
}

proof fn lemma_symbol_counted(t: Seq<char>, i: int)
    requires
        0 <= i < t.len(),
        is_listed_punctuation(t[i]),
    ensures
        symbol_count(t.take(i + 1)) >= symbol_count(t.take(i)) + 1,
{
    assert(t.take(i + 1).drop_last() == t.take(i));
    assert(t.take(i + 1).last() == t[i]);
}

/// Two of the listed punctuation characters make the count reach two.
proof fn lemma_two_symbols_counted(t: Seq<char>, i: int, j: int)
    requires
        0 <= i < j < t.len(),
        is_listed_punctuation(t[i]),
        is_listed_punctuation(t[j]),
    ensures
        symbol_count(t) >= 2,
{
    lemma_symbol_counted(t, i);
    lemma_symbol_counted(t, j);
    lemma_symbol_count_monotone(t.take(j), i + 1);
    assert(t.take(j).take(i + 1) == t.take(i + 1));
    lemma_symbol_count_monotone(t, j + 1);
}

/// A text holding none of `- _ . / + = : ~` has no token punctuation.
proof fn lemma_no_listed_punctuation(t: Seq<char>)
    requires
        forall|i: int| 0 <= i < t.len() ==> !is_listed_punctuation(#[trigger] t[i]),
    ensures
        symbol_count(t) == 0,
    decreases t.len(),
{
    if t.len() > 0 {
        let p = t.drop_last();
        assert forall|i: int| 0 <= i < p.len() implies !is_listed_punctuation(#[trigger] p[i]) by {
            assert(p[i] == t[i]);
        }
        lemma_no_listed_punctuation(p);
        assert(!is_listed_punctuation(t[t.len() - 1]));
    }
}

proof fn lemma_space_free_is_trimmed(t: Seq<char>)
    requires
        forall|i: int| 0 <= i < t.len() ==> !is_white_space(#[trigger] t[i]),
    ensures
        trim(t) == t,
{
    if t.len() > 0 {
        assert(!is_white_space(t[0]));
        assert(!is_white_space(t[t.len() - 1]));
    }
}

/// Every copy free of white space, at least `MIN_SECRET_LENGTH` bytes long
/// in UTF-8, holding an ASCII letter, an ASCII digit and two of the
/// characters `- _ . / + = : ~` (for instance two `/`, as in an access key)
/// is kept out of the history.
pub proof fn lemma_token_shaped_text_skipped(t: Seq<char>, letter: int, digit: int, i: int, j: int)
    requires
        forall|k: int| 0 <= k < t.len() ==> !is_white_space(#[trigger] t[k]),
        encode_utf8(t).len() >= 20,
        0 <= letter < t.len(),
        ('a' <= t[letter] <= 'z') || ('A' <= t[letter] <= 'Z'),
        0 <= digit < t.len(),
        '0' <= t[digit] <= '9',
        0 <= i < j < t.len(),
        is_listed_punctuation(t[i]),
        is_listed_punctuation(t[j]),
    ensures
        skips_text(t, false),
{
    lemma_space_free_is_trimmed(t);
    lemma_two_symbols_counted(t, i, j);
    assert(is_ascii_letter(t[letter]));
    assert(is_ascii_digit(t[digit]));
    assert(!has_white_space(t));
}

/// Text holding none of the characters `- _ . / + = : ~` never looks like a
/// secret: the punctuation that marks tokens is exactly these eight.
pub proof fn lemma_no_punctuation_no_secret(t: Seq<char>)
    requires
        forall|i: int| 0 <= i < t.len() ==> !is_listed_punctuation(#[trigger] t[i]),
    ensures
        !looks_like_secret_spec(t),
{
    lemma_no_listed_punctuation(t);
}

} // verus!
