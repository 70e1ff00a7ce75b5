//! Shared names and types of the clipboard service, the limits on the
//! history size, and how that limit is written to and read from storage.

use vstd::prelude::*;
use crate::text::{decimal_digits, digit_char, push_decimal};

verus! {

/// Application id of the desktop front end.
pub const APP_ID: &'static str = "io.github.pasteharbor.App";

/// Well-known bus name of the daemon.
pub const BUS_NAME: &'static str = "io.github.pasteharbor";

/// Object path at which the daemon serves the clipboard interface.
pub const OBJECT_PATH: &'static str = "/io/github/pasteharbor/Clipboard1";

/// Name of the clipboard interface.
pub const INTERFACE: &'static str = "io.github.pasteharbor.Clipboard1";

/// History size used when none was stored.
pub const DEFAULT_MAX_HISTORY: u32 = 500;

/// Smallest history size that can be configured.
pub const MIN_MAX_HISTORY: u32 = 10;

/// Largest history size that can be configured.
pub const MAX_MAX_HISTORY: u32 = 10_000;

/// One entry of the history as listed to clients.
#[derive(Debug, Clone, PartialEq, Eq)]
pub struct ClipboardItemSummary {
    pub id: i64,
    pub created_at: String,
    pub last_used_at: String,
    pub kind: String,
    pub preview_text: String,
    pub source_app: Option<String>,
    pub size_bytes: i64,
}

/// User settings of the service.
#[derive(Debug, Clone, Copy, PartialEq, Eq)]
pub struct AppSettings {
    pub max_history: u32,
}

/// `value` brought into `[MIN_MAX_HISTORY, MAX_MAX_HISTORY]`.
pub open spec fn normalized(value: u32) -> u32 {
    if value < MIN_MAX_HISTORY {
        MIN_MAX_HISTORY
    } else if value > MAX_MAX_HISTORY {
        MAX_MAX_HISTORY
    } else {
        value
    }
}

/// Clamps a requested history size to the supported range.
pub fn normalize_max_history(value: u32) -> (r: u32)
    ensures
        r == normalized(value),
        MIN_MAX_HISTORY <= r <= MAX_MAX_HISTORY,
{
    if value < MIN_MAX_HISTORY {
        MIN_MAX_HISTORY
    } else if value > MAX_MAX_HISTORY {
        MAX_MAX_HISTORY
    } else {
        value
    }
}

/// Normalizing twice is normalizing once.
pub proof fn lemma_normalize_idempotent(value: u32)
    ensures
        normalized(normalized(value)) == normalized(value),
{
}

/// A size already in the supported range is kept as it is.
pub proof fn lemma_normalize_keeps_supported(value: u32)
    requires
        MIN_MAX_HISTORY <= value <= MAX_MAX_HISTORY,
    ensures
        normalized(value) == value,
{
}

/// Normalizing preserves the order of sizes.
pub proof fn lemma_normalize_monotone(a: u32, b: u32)
    requires
        a <= b,
    ensures
        normalized(a) <= normalized(b),
{
}

/// Whether `c` is an ASCII decimal digit.
pub open spec fn is_digit_char(c: char) -> bool {
    '0' <= c <= '9'
}

/// The number written by the decimal digits `d`.
pub open spec fn digits_value(d: Seq<char>) -> nat
    decreases d.len(),
{
    if d.len() == 0 {
        0
    } else {
        digits_value(d.drop_last()) * 10 + ((d.last() as u32) - 48) as nat
    }
}

/// Whether `d` is a non-empty run of decimal digits.
pub open spec fn all_digits(d: Seq<char>) -> bool {
    d.len() > 0 && forall|i: int| 0 <= i < d.len() ==> is_digit_char(#[trigger] d[i])
}

/// The digits of `s` after an optional leading `+`.
pub open spec fn unsigned_body(s: Seq<char>) -> Seq<char> {
    if s.len() > 0 && s[0] == '+' {
        s.drop_first()
    } else {
        s
    }
}

/// What `str::parse::<u32>` gives for `s`: the value of an optional `+`
/// followed by at least one decimal digit, when that value fits in a `u32`.
pub open spec fn parsed_u32(s: Seq<char>) -> Option<u32> {
    let d = unsigned_body(s);
    if all_digits(d) && digits_value(d) <= u32::MAX {
        Some(digits_value(d) as u32)
    } else {
        None
    }
}

/// A longer run of digits is worth at least as much as its prefix.
proof fn lemma_digits_value_prefix(d: Seq<char>, i: int)
    requires
        0 <= i <= d.len(),
        forall|j: int| 0 <= j < d.len() ==> is_digit_char(#[trigger] d[j]),
    ensures
        digits_value(d.take(i)) <= digits_value(d),
    decreases d.len() - i,
{
    if i < d.len() {
        lemma_digits_value_prefix(d, i + 1);
        assert(d.take(i + 1).drop_last() == d.take(i));
    } else {
        assert(d.take(i) == d);
    }
}

/// Parses a `u32` written in decimal, as `str::parse::<u32>` does.
pub fn parse_u32(s: &str) -> (r: Option<u32>)
    ensures
        r == parsed_u32(s@),
{
    let chars = crate::text::chars_of(s);
    let n = chars.len();
    let mut start: usize = 0;
    if n > 0 && chars[0] == '+' {
        start = 1;
    }
    let ghost d = unsigned_body(s@);
    assert(d == chars@.subrange(start as int, n as int));
    if start == n {
        return None;
    }
    let mut k: usize = start;
    while k < n
        invariant
            n == chars.len(),
            start <= k <= n,
            d == chars@.subrange(start as int, n as int),
            d == unsigned_body(s@),
            forall|j: int| start <= j < k ==> is_digit_char(#[trigger] chars@[j]),
        decreases n - k,
    {
        let c = chars[k];
        if !('0' <= c && c <= '9') {
            assert(d[k - start] == chars@[k as int]);
            assert(!is_digit_char(d[k - start]));
            assert(!all_digits(d));
            return None;
        }
        k = k + 1;
    }
    assert(forall|j: int| 0 <= j < d.len() ==> is_digit_char(#[trigger] d[j])) by {
        assert forall|j: int| 0 <= j < d.len() implies is_digit_char(#[trigger] d[j]) by {
            assert(d[j] == chars@[start + j]);
        }
    }
    let mut value: u32 = 0;
    let mut i: usize = start;
    while i < n
        invariant
            n == chars.len(),
            start < n,
            start <= i <= n,
            d == chars@.subrange(start as int, n as int),
            d == unsigned_body(s@),
            forall|j: int| 0 <= j < d.len() ==> is_digit_char(#[trigger] d[j]),
            value as nat == digits_value(d.take(i - start)),
        decreases n - i,
    {
        let c = chars[i];
        assert(c == d[i - start]);
        assert(is_digit_char(d[i - start]));
        let digit_value: u32 = (c as u32) - 48;
        assert(d.take(i - start + 1).drop_last() == d.take(i - start));
        assert(d.take(i - start + 1).last() == c);
        if value > 429_496_729 || (value == 429_496_729 && digit_value > 5) {
            proof {
                lemma_digits_value_prefix(d, i - start + 1);
                let v = value as nat;
                let dv = digit_value as nat;
                assert(v * 10 + dv > u32::MAX) by (nonlinear_arith)
                    requires
                        v > 429_496_729 || (v == 429_496_729 && dv > 5),
                ;
                assert(digits_value(d.take(i - start + 1)) == v * 10 + dv);
            }
            return None;
        }
        value = value * 10 + digit_value;
        i = i + 1;
    }
    assert(d.take(n - start) == d);
    Some(value)
}

/// The decimal digits of `n` are digits, and they are worth `n`.
proof fn lemma_decimal_digits_value(n: nat)
    ensures
        all_digits(decimal_digits(n)),
        digits_value(decimal_digits(n)) == n,
        decimal_digits(n)[0] != '+',
    decreases n,
{
    if n >= 10 {
        lemma_decimal_digits_value(n / 10);
        let d = decimal_digits(n);
        assert(d.drop_last() == decimal_digits(n / 10));
        assert(d[0] == decimal_digits(n / 10)[0]);
        assert(((digit_char(n % 10) as u32) - 48) as nat == n % 10);
        assert((n / 10) * 10 + n % 10 == n);
        assert(d.last() == digit_char(n % 10));
    } else {
        assert(((digit_char(n) as u32) - 48) as nat == n);
        let d = decimal_digits(n);
        assert(d.drop_last() =~= Seq::<char>::empty());
        assert(digits_value(d.drop_last()) == 0);
    }
}

/// Reading back a number written in decimal gives the number.
pub proof fn lemma_parse_decimal(n: u32)
    ensures
        parsed_u32(decimal_digits(n as nat)) == Some(n),
{
    lemma_decimal_digits_value(n as nat);
}

/// The history size that a stored setting stands for: the stored text parsed
/// as a `u32`, or `DEFAULT_MAX_HISTORY` when there is no text or it does not
/// parse, then normalized.
pub open spec fn max_history_from_stored(stored: Option<Seq<char>>) -> u32 {
    let value = match stored {
        Some(text) => match parsed_u32(text) {
            Some(v) => v,
            None => DEFAULT_MAX_HISTORY,
        },
        None => DEFAULT_MAX_HISTORY,
    };
    normalized(value)
}

/// The history size in effect, given the stored setting text, if any.
pub fn max_history_from_setting(stored: Option<&str>) -> (r: u32)
    ensures
        r == max_history_from_stored(
            match stored {
                Some(t) => Some(t@),
                None => None,
            },
        ),
{
    let value = match stored {
        Some(text) => match parse_u32(text) {
            Some(v) => v,
            None => DEFAULT_MAX_HISTORY,
        },
        None => DEFAULT_MAX_HISTORY,
    };
    normalize_max_history(value)
}

/// The text under which a history size is stored.
pub fn max_history_setting_text(max_history: u32) -> (s: String)
    ensures
        s@ == decimal_digits(max_history as nat),
{
    let mut s = String::new();
    push_decimal(&mut s, max_history as u64);
    s
}

/// What a client asks to set and what is stored: the requested size,
/// normalized, and its text.
pub fn prepare_max_history(requested: u32) -> (r: (u32, String))
    ensures
        r.0 == normalized(requested),
        r.1@ == decimal_digits(r.0 as nat),
{
    let value = normalize_max_history(requested);
    (value, max_history_setting_text(value))
}

/// Setting the history size and reading it back gives the normalized
/// request.
pub proof fn lemma_setting_round_trip(requested: u32)
    ensures
        max_history_from_stored(Some(decimal_digits(normalized(requested) as nat)))
            == normalized(requested),
{
    lemma_parse_decimal(normalized(requested));
}

} // verus!
