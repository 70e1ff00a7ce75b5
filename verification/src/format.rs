//! How entries are described to the user: sizes, timestamps and the line
//! under each entry.

use vstd::prelude::*;
use crate::preview::{join, lemma_join_first, lemma_join_push};
use crate::text::{
    chars_of, decimal_digits, digit, digit_char, push_char, push_decimal, push_signed_decimal,
    signed_decimal, string_from_chars,
};

verus! {

/// Sizes from this many bytes on are shown in KB.
pub const KIB: i64 = 1024;

/// `2^53`: below it every integer is exactly a 64-bit float.
pub const F64_EXACT_LIMIT: u64 = 9_007_199_254_740_992;

/// The spacing between neighbouring 64-bit floats around `m * u`, found by
/// halving `m` (and doubling `u`) until `m` is below `2^53`.
pub open spec fn float_spacing(m: nat, u: nat) -> nat
    decreases m,
{
    if m < F64_EXACT_LIMIT {
        u
    } else {
        float_spacing(m / 2, 2 * u)
    }
}

/// The 64-bit float nearest to `b` (ties to the even neighbour), as
/// `b as f64` computes it.
pub open spec fn as_f64(b: nat) -> nat {
    let u = float_spacing(b, 1);
    let q = b / u;
    let r = b % u;
    if r * 2 > u || (r * 2 == u && q % 2 == 1) {
        (q + 1) * u
    } else {
        q * u
    }
}

/// `x / 1024` in tenths, rounded to the nearest tenth with ties to even, as
/// formatting the exact quotient with one decimal does.
pub open spec fn kib_tenths(x: nat) -> nat {
    let t = (x * 10) / 1024;
    let r = (x * 10) % 1024;
    if r > 512 || (r == 512 && t % 2 == 1) {
        t + 1
    } else {
        t
    }
}

/// The label of a size: `"<n> B"` below 1024 bytes, otherwise the size in
/// KB with one decimal, `"<k>.<d> KB"`, computed from the size as a 64-bit
/// float divided by 1024.
pub open spec fn bytes_label(bytes: i64) -> Seq<char> {
    if bytes < KIB {
        signed_decimal(bytes as int) + seq![' ', 'B']
    } else {
        let t = kib_tenths(as_f64(bytes as nat));
        decimal_digits(t / 10) + seq!['.', digit_char(t % 10), ' ', 'K', 'B']
    }
}

/// Sizes below `2^53` bytes are converted to a float without rounding, so
/// their KB label is the exact size divided by 1024, rounded to a tenth.
pub proof fn lemma_small_sizes_exact(b: nat)
    requires
        b < F64_EXACT_LIMIT,
    ensures
        as_f64(b) == b,
{
    assert(float_spacing(b, 1) == 1);
    assert(b / 1 == b);
    assert(b % 1 == 0);
}

/// The 64-bit float nearest to `b`, as an integer.
fn round_to_f64(b: u64) -> (r: u64)
    requires
        b <= i64::MAX,
    ensures
        r == as_f64(b as nat),
{
    let mut m = b;
    let mut u: u64 = 1;
    while m >= F64_EXACT_LIMIT
        invariant
            float_spacing(b as nat, 1) == float_spacing(m as nat, u as nat),
            1 <= u <= 2048,
            u * m <= b,
            b <= i64::MAX,
        decreases m,
    {
        proof {
            let mm = m as nat;
            let uu = u as nat;
            assert(uu * 2 * (mm / 2) <= uu * mm) by (nonlinear_arith)
                requires
                    uu >= 1,
            ;
            assert(uu * 2 <= 2048) by (nonlinear_arith)
                requires
                    uu * mm <= i64::MAX,
                    mm >= F64_EXACT_LIMIT,
                    uu >= 1,
            ;
        }
        m = m / 2;
        u = u * 2;
    }
    let q = b / u;
    let r = b % u;
    proof {
        assert(u * q <= b) by (nonlinear_arith)
            requires
                u >= 1,
                q == b / u,
        ;
        assert((q + 1) * u == u * q + u) by (nonlinear_arith);
        assert(q * u == u * q) by (nonlinear_arith);
    }
    if r * 2 > u || (r * 2 == u && q % 2 == 1) {
        (q + 1) * u
    } else {
        q * u
    }
}

/// Describes a size in bytes for display.
pub fn format_bytes(bytes: i64) -> (label: String)
    ensures
        label@ == bytes_label(bytes),
{
    let mut label = String::new();
    if bytes < KIB {
        push_signed_decimal(&mut label, bytes);
        push_char(&mut label, ' ');
        push_char(&mut label, 'B');
        assert(label@ == signed_decimal(bytes as int) + seq![' ', 'B']);
        return label;
    }
    let x = round_to_f64(bytes as u64) as u128;
    let n = x * 10;
    let t0 = n / 1024;
    let r = n % 1024;
    let t = if r > 512 || (r == 512 && t0 % 2 == 1) {
        t0 + 1
    } else {
        t0
    };
    assert(t == kib_tenths(as_f64(bytes as nat)));
    push_decimal(&mut label, (t / 10) as u64);
    push_char(&mut label, '.');
    push_char(&mut label, digit((t % 10) as u64));
    push_char(&mut label, ' ');
    push_char(&mut label, 'K');
    push_char(&mut label, 'B');
    assert(label@ == decimal_digits((t / 10) as nat) + seq![
        '.',
        digit_char((t % 10) as nat),
        ' ',
        'K',
        'B',
    ]);
    label
}

/// The calendar fields `(month, day, hour, minute)` of an RFC 3339
/// timestamp, in the offset written in it; `None` when the text is no RFC
/// 3339 timestamp.
pub uninterp spec fn rfc3339_fields(text: Seq<char>) -> Option<(u32, u32, u32, u32)>;

/// Whether `(month, day, hour, minute)` are in their calendar ranges.
pub open spec fn fields_in_range(f: (u32, u32, u32, u32)) -> bool {
    1 <= f.0 <= 12 && 1 <= f.1 <= 31 && f.2 <= 23 && f.3 <= 59
}

/// `chrono::DateTime::parse_from_rfc3339`, read through `Datelike::month`,
/// `Datelike::day`, `Timelike::hour` and `Timelike::minute`. The contract
/// names the result and states the documented ranges of the four fields; it
/// does not state the RFC 3339 grammar.
#[verifier::external_body]
fn parse_rfc3339_fields(text: &str) -> (r: Option<(u32, u32, u32, u32)>)
    ensures
        r == rfc3339_fields(text@),
        r matches Some(f) ==> fields_in_range(f),
{
    match chrono::DateTime::parse_from_rfc3339(text) {
        Ok(t) => Some(
            (
                chrono::Datelike::month(&t),
                chrono::Datelike::day(&t),
                chrono::Timelike::hour(&t),
                chrono::Timelike::minute(&t),
            ),
        ),
        Err(_) => None,
    }
}

/// The English abbreviation of month `m` (`1..=12`).
pub open spec fn month_abbrev(m: u32) -> Seq<char> {
    if m == 1 {
        seq!['J', 'a', 'n']
    } else if m == 2 {
        seq!['F', 'e', 'b']
    } else if m == 3 {
        seq!['M', 'a', 'r']
    } else if m == 4 {
        seq!['A', 'p', 'r']
    } else if m == 5 {
        seq!['M', 'a', 'y']
    } else if m == 6 {
        seq!['J', 'u', 'n']
    } else if m == 7 {
        seq!['J', 'u', 'l']
    } else if m == 8 {
        seq!['A', 'u', 'g']
    } else if m == 9 {
        seq!['S', 'e', 'p']
    } else if m == 10 {
        seq!['O', 'c', 't']
    } else if m == 11 {
        seq!['N', 'o', 'v']
    } else {
        seq!['D', 'e', 'c']
    }
}

/// The English month abbreviations, January first.
pub open spec fn month_names() -> Seq<Seq<char>> {
    seq![
        "Jan"@,
        "Feb"@,
        "Mar"@,
        "Apr"@,
        "May"@,
        "Jun"@,
        "Jul"@,
        "Aug"@,
        "Sep"@,
        "Oct"@,
        "Nov"@,
        "Dec"@,
    ]
}

/// A shown timestamp starts with the `m`-th of Jan, Feb, Mar, Apr, May, Jun,
/// Jul, Aug, Sep, Oct, Nov, Dec for month `m`.
pub proof fn lemma_month_label_is_mth_name(f: (u32, u32, u32, u32))
    requires
        fields_in_range(f),
    ensures
        timestamp_label(f).take(3) == month_names()[f.0 - 1],
{
    reveal_strlit("Jan");
    reveal_strlit("Feb");
    reveal_strlit("Mar");
    reveal_strlit("Apr");
    reveal_strlit("May");
    reveal_strlit("Jun");
    reveal_strlit("Jul");
    reveal_strlit("Aug");
    reveal_strlit("Sep");
    reveal_strlit("Oct");
    reveal_strlit("Nov");
    reveal_strlit("Dec");
    let l = timestamp_label(f);
    assert(l.take(3) =~= month_abbrev(f.0));
}

/// The month that a three-letter label names, read from its letters.
spec fn month_of_label(l: Seq<char>) -> u32 {
    if l[0] == 'J' && l[1] == 'a' {
        1
    } else if l[0] == 'F' {
        2
    } else if l[0] == 'M' && l[2] == 'r' {
        3
    } else if l[0] == 'A' && l[1] == 'p' {
        4
    } else if l[0] == 'M' {
        5
    } else if l[0] == 'J' && l[2] == 'n' {
        6
    } else if l[0] == 'J' {
        7
    } else if l[0] == 'A' {
        8
    } else if l[0] == 'S' {
        9
    } else if l[0] == 'O' {
        10
    } else if l[0] == 'N' {
        11
    } else {
        12
    }
}

proof fn lemma_month_label_names_month(m: u32)
    requires
        1 <= m <= 12,
    ensures
        month_of_label(month_abbrev(m)) == m,
{
    let l = month_abbrev(m);
    if m == 1 {
        assert(l[0] == 'J' && l[1] == 'a');
    } else if m == 2 {
        assert(l[0] == 'F');
    } else if m == 3 {
        assert(l[0] == 'M' && l[2] == 'r');
    } else if m == 4 {
        assert(l[0] == 'A' && l[1] == 'p');
    } else if m == 5 {
        assert(l[0] == 'M' && l[2] == 'y');
    } else if m == 6 {
        assert(l[0] == 'J' && l[1] == 'u' && l[2] == 'n');
    } else if m == 7 {
        assert(l[0] == 'J' && l[1] == 'u' && l[2] == 'l');
    } else if m == 8 {
        assert(l[0] == 'A' && l[1] == 'u');
    } else if m == 9 {
        assert(l[0] == 'S');
    } else if m == 10 {
        assert(l[0] == 'O');
    } else if m == 11 {
        assert(l[0] == 'N');
    } else {
        assert(l[0] == 'D');
    }
}

/// Timestamps of different months are shown with different month labels:
/// no two of the twelve months share a label.
pub proof fn lemma_month_labels_distinct(f: (u32, u32, u32, u32), g: (u32, u32, u32, u32))
    requires
        fields_in_range(f),
        fields_in_range(g),
        f.0 != g.0,
    ensures
        timestamp_label(f).take(3) != timestamp_label(g).take(3),
{
    let lf = timestamp_label(f);
    let lg = timestamp_label(g);
    assert(lf.take(3) =~= month_abbrev(f.0));
    assert(lg.take(3) =~= month_abbrev(g.0));
    lemma_month_label_names_month(f.0);
    lemma_month_label_names_month(g.0);
}

/// `n < 100` as two decimal digits.
pub open spec fn two_digits(n: u32) -> Seq<char> {
    seq![digit_char((n / 10) as nat), digit_char((n % 10) as nat)]
}

/// A timestamp shown as `"<Mon> <DD>, <HH>:<MM>"`.
pub open spec fn timestamp_label(f: (u32, u32, u32, u32)) -> Seq<char> {
    month_abbrev(f.0) + seq![' '] + two_digits(f.1) + seq![',', ' '] + two_digits(f.2) + seq![
        ':',
    ] + two_digits(f.3)
}

fn push_month(s: &mut String, m: u32)
    requires
        1 <= m <= 12,
    ensures
        final(s)@ == old(s)@ + month_abbrev(m),
{
    let (a, b, c) = if m == 1 {
        ('J', 'a', 'n')
    } else if m == 2 {
        ('F', 'e', 'b')
    } else if m == 3 {
        ('M', 'a', 'r')
    } else if m == 4 {
        ('A', 'p', 'r')
    } else if m == 5 {
        ('M', 'a', 'y')
    } else if m == 6 {
        ('J', 'u', 'n')
    } else if m == 7 {
        ('J', 'u', 'l')
    } else if m == 8 {
        ('A', 'u', 'g')
    } else if m == 9 {
        ('S', 'e', 'p')
    } else if m == 10 {
        ('O', 'c', 't')
    } else if m == 11 {
        ('N', 'o', 'v')
    } else {
        ('D', 'e', 'c')
    };
    push_char(s, a);
    push_char(s, b);
    push_char(s, c);
}

fn push_two_digits(s: &mut String, n: u32)
    requires
        n < 100,
    ensures
        final(s)@ == old(s)@ + two_digits(n),
{
    push_char(s, digit((n / 10) as u64));
    push_char(s, digit((n % 10) as u64));
}

/// How a timestamp is shown, given its parsed fields: the fields as
/// `"<Mon> <DD>, <HH>:<MM>"`, or the timestamp text itself when it did not
/// parse.
pub fn format_timestamp_from(timestamp: &str, fields: Option<(u32, u32, u32, u32)>) -> (s: String)
    requires
        fields matches Some(f) ==> fields_in_range(f),
    ensures
        s@ == match fields {
            Some(f) => timestamp_label(f),
            None => timestamp@,
        },
{
    match fields {
        Some((month, day, hour, minute)) => {
            let mut s = String::new();
            push_month(&mut s, month);
            push_char(&mut s, ' ');
            push_two_digits(&mut s, day);
            push_char(&mut s, ',');
            push_char(&mut s, ' ');
            push_two_digits(&mut s, hour);
            push_char(&mut s, ':');
            push_two_digits(&mut s, minute);
            s
        },
        None => timestamp.to_owned(),
    }
}

/// How a stored RFC 3339 timestamp is shown (see `format_timestamp_from`).
pub fn format_timestamp(timestamp: &str) -> (s: String)
    ensures
        s@ == match rfc3339_fields(timestamp@) {
            Some(f) => timestamp_label(f),
            None => timestamp@,
        },
{
    let fields = parse_rfc3339_fields(timestamp);
    format_timestamp_from(timestamp, fields)
}

/// The kind of an image entry.
pub open spec fn image_kind() -> Seq<char> {
    seq!['i', 'm', 'a', 'g', 'e']
}

/// Whether an entry kind is the image kind.
pub fn is_image_kind(kind: &str) -> (b: bool)
    ensures
        b == (kind@ == image_kind()),
{
    let chars = chars_of(kind);
    let b = chars.len() == 5 && chars[0] == 'i' && chars[1] == 'm' && chars[2] == 'a' && chars[3]
        == 'g' && chars[4] == 'e';
    if b {
        assert(chars@ == image_kind());
    }
    b
}

/// Icon of an image entry.
pub const IMAGE_ICON: &'static str = "image-x-generic-symbolic";

/// Icon of a text entry.
pub const TEXT_ICON: &'static str = "text-x-generic-symbolic";

/// The icon that stands for an entry of the given kind.
pub fn type_icon(kind: &str) -> (icon: &'static str)
    ensures
        icon@ == if kind@ == image_kind() {
            IMAGE_ICON@
        } else {
            TEXT_ICON@
        },
{
    if is_image_kind(kind) {
        IMAGE_ICON
    } else {
        TEXT_ICON
    }
}

/// The separator between the parts of an entry's subtitle.
pub open spec fn subtitle_separator() -> Seq<char> {
    seq![' ', ' ', '\u{b7}', ' ', ' ']
}

/// `width×height`.
pub open spec fn dimensions_label(width: i64, height: i64) -> Seq<char> {
    signed_decimal(width as int) + seq!['\u{d7}'] + signed_decimal(height as int)
}

/// The parts of an entry's subtitle: the source application's name when
/// known, the dimensions of an image when both are known, the size, and the
/// time of last use.
pub open spec fn subtitle_parts(
    app_name: Option<Seq<char>>,
    kind: Seq<char>,
    width: Option<i64>,
    height: Option<i64>,
    size_bytes: i64,
    last_used: Seq<char>,
) -> Seq<Seq<char>> {
    let named = match app_name {
        Some(n) => seq![n],
        None => Seq::empty(),
    };
    let sized = if kind == image_kind() && width is Some && height is Some {
        named.push(dimensions_label(width->0, height->0))
    } else {
        named
    };
    sized.push(bytes_label(size_bytes)).push(
        match rfc3339_fields(last_used) {
            Some(f) => timestamp_label(f),
            None => last_used,
        },
    )
}

/// Joins the characters of each part with `sep` between each two.
pub fn join_parts(parts: &Vec<Vec<char>>, sep: &Vec<char>) -> (s: String)
    ensures
        s@ == join(parts@.map_values(|p: Vec<char>| p@), sep@),
{
    let ghost views = parts@.map_values(|p: Vec<char>| p@);
    let mut out: Vec<char> = Vec::new();
    for i in 0..parts.len()
        invariant
            views == parts@.map_values(|p: Vec<char>| p@),
            out@ == join(views.take(i as int), sep@),
    {
        let ghost before = out@;
        if i > 0 {
            out.append(&mut sep.clone());
        }
        let mut part = parts[i].clone();
        out.append(&mut part);
        proof {
            assert(views.take(i + 1) == views.take(i as int).push(views[i as int]));
            lemma_join_push(views.take(i as int), sep@, views[i as int]);
        }
    }
    assert(views.take(parts.len() as int) == views);
    string_from_chars(&out)
}

/// The line shown under an entry, from the display name of its source
/// application (when one is known), its kind, its dimensions, its size and
/// the time it was last used.
pub fn subtitle(
    app_name: Option<&str>,
    kind: &str,
    width: Option<i64>,
    height: Option<i64>,
    size_bytes: i64,
    last_used_at: &str,
) -> (s: String)
    ensures
        s@ == join(
            subtitle_parts(
                match app_name {
                    Some(n) => Some(n@),
                    None => None,
                },
                kind@,
                width,
                height,
                size_bytes,
                last_used_at@,
            ),
            subtitle_separator(),
        ),
{
    let ghost f = |p: Vec<char>| p@;
    let mut parts: Vec<Vec<char>> = Vec::new();
    assert(parts@.map_values(f) =~= Seq::<Seq<char>>::empty());
    if let Some(name) = app_name {
        parts.push(chars_of(name));
        assert(parts@.map_values(f) =~= seq![name@]);
    }
    let ghost named = parts@.map_values(f);
    if is_image_kind(kind) {
        if let (Some(w), Some(h)) = (width, height) {
            let mut dims = String::new();
            push_signed_decimal(&mut dims, w);
            push_char(&mut dims, '\u{d7}');
            push_signed_decimal(&mut dims, h);
            assert(dims@ == dimensions_label(w, h));
            let ghost before = parts@;
            parts.push(chars_of(dims.as_str()));
            assert(parts@ == before.push(parts@.last()));
            assert(parts@.map_values(f) =~= named.push(dimensions_label(w, h)));
        }
    }
    let ghost sized = parts@.map_values(f);
    let size = format_bytes(size_bytes);
    parts.push(chars_of(size.as_str()));
    assert(parts@.map_values(f) =~= sized.push(bytes_label(size_bytes)));
    let ghost with_size = parts@.map_values(f);
    let used = format_timestamp(last_used_at);
    parts.push(chars_of(used.as_str()));
    assert(parts@.map_values(f) =~= with_size.push(used@));
    let sep: Vec<char> = vec![' ', ' ', '\u{b7}', ' ', ' '];
    assert(sep@ == subtitle_separator());
    assert(parts@.map_values(|p: Vec<char>| p@) == subtitle_parts(
        match app_name {
            Some(n) => Some(n@),
            None => None,
        },
        kind@,
        width,
        height,
        size_bytes,
        last_used_at@,
    ));
    join_parts(&parts, &sep)
}

/// When the source application's name is known, the subtitle of every
/// entry, whatever its kind, starts with that name and a separator.
pub proof fn lemma_subtitle_starts_with_app_name(
    name: Seq<char>,
    kind: Seq<char>,
    width: Option<i64>,
    height: Option<i64>,
    size_bytes: i64,
    last_used: Seq<char>,
)
    ensures
        ({
            let s = join(
                subtitle_parts(Some(name), kind, width, height, size_bytes, last_used),
                subtitle_separator(),
            );
            s.take((name.len() + 5) as int) == name + subtitle_separator()
        }),
{
    let parts = subtitle_parts(Some(name), kind, width, height, size_bytes, last_used);
    assert(parts.len() >= 3);
    assert(parts[0] == name);
    lemma_join_first(parts, subtitle_separator());
    let s = join(parts, subtitle_separator());
    assert(s.take((name.len() + 5) as int) =~= name + subtitle_separator());
}

/// The subtitle of an image with a known source and known dimensions is the
/// name, the dimensions, the size and the time of last use, in that order.
pub proof fn lemma_image_subtitle_order(
    name: Seq<char>,
    width: i64,
    height: i64,
    size_bytes: i64,
    last_used: Seq<char>,
)
    ensures
        join(
            subtitle_parts(Some(name), image_kind(), Some(width), Some(height), size_bytes, last_used),
            subtitle_separator(),
        ) == name + subtitle_separator() + dimensions_label(width, height) + subtitle_separator()
            + bytes_label(size_bytes) + subtitle_separator() + match rfc3339_fields(last_used) {
            Some(f) => timestamp_label(f),
            None => last_used,
        },
{
    let sep = subtitle_separator();
    let last = match rfc3339_fields(last_used) {
        Some(f) => timestamp_label(f),
        None => last_used,
    };
    let parts = subtitle_parts(Some(name), image_kind(), Some(width), Some(height), size_bytes, last_used);
    let d = dimensions_label(width, height);
    let b = bytes_label(size_bytes);
    assert(parts == seq![name, d, b, last]);
    lemma_join_first(parts, sep);
    lemma_join_first(parts.drop_first(), sep);
    lemma_join_first(parts.drop_first().drop_first(), sep);
    let tail = parts.drop_first().drop_first().drop_first();
    assert(tail == seq![last]);
    assert(join(tail, sep) == last);
}

} // verus!
