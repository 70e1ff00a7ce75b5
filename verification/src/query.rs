//! The parameters of history queries and schema upgrades, and the texts the
//! service answers with.

use vstd::prelude::*;
use vstd::string::StrSliceExecFns;
use crate::capture::FALLBACK_IMAGE_MIME;
use crate::settings::{normalized, MAX_MAX_HISTORY};
use crate::text::{
    chars_of, lemma_trim_idempotent, push_char, push_signed_decimal, push_str, signed_decimal,
    trim,
    trim_bounds,
};

verus! {

broadcast use vstd::string::group_string_axioms;

/// Fewest entries a listing returns at most.
pub const MIN_QUERY_LIMIT: u32 = 1;

/// Most entries a listing returns: the largest history that can be
/// configured, so that a listing can show the whole history.
pub const MAX_QUERY_LIMIT: u32 = MAX_MAX_HISTORY;

/// The number of rows a listing asks for: `limit` brought into
/// `[MIN_QUERY_LIMIT, MAX_QUERY_LIMIT]`, the largest history size that can
/// be configured; any limit up to the configured history size is kept as it
/// is, so a listing can return the whole history.
pub open spec fn capped_limit(limit: u32) -> i64 {
    if limit < MIN_QUERY_LIMIT {
        MIN_QUERY_LIMIT as i64
    } else if limit > MAX_QUERY_LIMIT {
        MAX_QUERY_LIMIT as i64
    } else {
        limit as i64
    }
}

/// The row limit of a listing.
pub fn query_limit(limit: u32) -> (r: i64)
    ensures
        r == capped_limit(limit),
        MIN_QUERY_LIMIT <= r <= MAX_QUERY_LIMIT,
{
    if limit < MIN_QUERY_LIMIT {
        MIN_QUERY_LIMIT as i64
    } else if limit > MAX_QUERY_LIMIT {
        MAX_QUERY_LIMIT as i64
    } else {
        limit as i64
    }
}

/// A listing that asks for at least the configured history size asks for
/// the whole history: its row limit is no smaller than that size.
pub proof fn lemma_listing_covers_history(limit: u32, requested_max_history: u32)
    requires
        limit >= normalized(requested_max_history),
    ensures
        capped_limit(limit) >= normalized(requested_max_history),
{
}

/// The `LIKE` pattern of a search: the trimmed query between `%` signs, or
/// `None` (list everything) when there is no query or it is blank.
pub open spec fn search_pattern_of(query: Option<Seq<char>>) -> Option<Seq<char>> {
    match query {
        Some(q) if trim(q).len() > 0 => Some(seq!['%'] + trim(q) + seq!['%']),
        _ => None,
    }
}

/// Builds the `LIKE` pattern of a search.
pub fn search_pattern(query: Option<&str>) -> (r: Option<String>)
    ensures
        match r {
            Some(p) => Some(p@),
            None => None,
        } == search_pattern_of(
            match query {
                Some(q) => Some(q@),
                None => None,
            },
        ),
{
    let q = match query {
        Some(q) => q,
        None => return None,
    };
    let chars = chars_of(q);
    let (lo, hi) = trim_bounds(&chars);
    if lo == hi {
        return None;
    }
    let mut pattern = String::new();
    push_char(&mut pattern, '%');
    let mut i = lo;
    while i < hi
        invariant
            lo <= i <= hi <= chars.len(),
            pattern@ == seq!['%'] + chars@.subrange(lo as int, i as int),
        decreases hi - i,
    {
        push_char(&mut pattern, chars[i]);
        assert(chars@.subrange(lo as int, i + 1) == chars@.subrange(lo as int, i as int).push(
            chars@[i as int],
        ));
        i = i + 1;
    }
    push_char(&mut pattern, '%');
    Some(pattern)
}

/// Surrounding white space never changes a search.
pub proof fn lemma_search_ignores_surrounding_space(query: Seq<char>)
    ensures
        search_pattern_of(Some(trim(query))) == search_pattern_of(Some(query)),
{
    lemma_trim_idempotent(query);
}

/// The MIME type reported for a stored image: the stored one, or
/// `FALLBACK_IMAGE_MIME` when none was stored.
pub fn stored_image_mime(stored: Option<String>) -> (m: String)
    ensures
        m@ == match stored {
            Some(s) => s@,
            None => FALLBACK_IMAGE_MIME@,
        },
{
    match stored {
        Some(s) => s,
        None => FALLBACK_IMAGE_MIME.to_owned(),
    }
}

/// The columns added to the history table after its first version, with
/// their SQL types, in the order they are added.
pub open spec fn later_columns() -> Seq<(Seq<char>, Seq<char>)> {
    seq![
        ("content_blob"@, "BLOB"@),
        ("thumbnail"@, "BLOB"@),
        ("mime_type"@, "TEXT"@),
        ("width"@, "INTEGER"@),
        ("height"@, "INTEGER"@),
    ]
}

/// Whether `name` is one of `existing`.
pub open spec fn has_column(existing: Seq<String>, name: Seq<char>) -> bool {
    exists|i: int| 0 <= i < existing.len() && (#[trigger] existing[i])@ == name
}

/// The later columns that a table with the columns `existing` lacks, in
/// order.
pub open spec fn missing_columns_of(existing: Seq<String>) -> Seq<(Seq<char>, Seq<char>)> {
    later_columns().filter(|c: (Seq<char>, Seq<char>)| !has_column(existing, c.0))
}

/// Whether two texts hold the same characters.
pub fn same_text(a: &str, b: &str) -> (r: bool)
    ensures
        r == (a@ == b@),
{
    let x = chars_of(a);
    let y = chars_of(b);
    if x.len() != y.len() {
        return false;
    }
    let mut i: usize = 0;
    while i < x.len()
        invariant
            x.len() == y.len(),
            x@ == a@,
            y@ == b@,
            i <= x.len(),
            forall|j: int| 0 <= j < i ==> x@[j] == y@[j],
        decreases x.len() - i,
    {
        if x[i] != y[i] {
            assert(a@[i as int] != b@[i as int]);
            return false;
        }
        i = i + 1;
    }
    assert(x@ =~= y@);
    true
}

fn contains_column(existing: &Vec<String>, name: &str) -> (r: bool)
    ensures
        r == has_column(existing@, name@),
{
    let mut i: usize = 0;
    while i < existing.len()
        invariant
            i <= existing.len(),
            forall|j: int| 0 <= j < i ==> (#[trigger] existing@[j])@ != name@,
        decreases existing.len() - i,
    {
        if same_text(existing[i].as_str(), name) {
            return true;
        }
        i = i + 1;
    }
    false
}

/// The SQL statement that adds column `name` of type `ty` to the history
/// table.
pub open spec fn add_column_sql(name: Seq<char>, ty: Seq<char>) -> Seq<char> {
    "ALTER TABLE clipboard_items ADD COLUMN "@ + name + seq![' '] + ty
}

/// The statements that bring a history table with the columns `existing` up
/// to date: one `ALTER TABLE` per missing later column, in order.
pub fn missing_column_statements(existing: &Vec<String>) -> (r: Vec<String>)
    ensures
        r@.len() == missing_columns_of(existing@).len(),
        forall|i: int|
            0 <= i < r@.len() ==> (#[trigger] r@[i])@ == add_column_sql(
                missing_columns_of(existing@)[i].0,
                missing_columns_of(existing@)[i].1,
            ),
{
    let names: [&'static str; 5] = ["content_blob", "thumbnail", "mime_type", "width", "height"];
    let types: [&'static str; 5] = ["BLOB", "BLOB", "TEXT", "INTEGER", "INTEGER"];
    let ghost cols = later_columns();
    let ghost pred = |c: (Seq<char>, Seq<char>)| !has_column(existing@, c.0);
    assert(forall|k: int| 0 <= k < 5 ==> (#[trigger] names@[k])@ == cols[k].0 && types@[k]@
        == cols[k].1);
    let mut out: Vec<String> = Vec::new();
    for k in 0..5
        invariant
            names@.len() == 5,
            types@.len() == 5,
            cols == later_columns(),
            pred == (|c: (Seq<char>, Seq<char>)| !has_column(existing@, c.0)),
            forall|j: int| 0 <= j < 5 ==> (#[trigger] names@[j])@ == cols[j].0 && types@[j]@
                == cols[j].1,
            out@.len() == cols.take(k as int).filter(pred).len(),
            forall|i: int|
                0 <= i < out@.len() ==> (#[trigger] out@[i])@ == add_column_sql(
                    cols.take(k as int).filter(pred)[i].0,
                    cols.take(k as int).filter(pred)[i].1,
                ),
    {
        let name = names[k];
        let ty = types[k];
        proof {
            reveal_with_fuel(Seq::filter, 1);
            assert(cols.take(k + 1).drop_last() == cols.take(k as int));
            assert(cols.take(k + 1).last() == cols[k as int]);
        }
        let present = contains_column(existing, name);
        assert(pred(cols[k as int]) == !present);
        if !present {
            let mut sql = String::new();
            push_str(&mut sql, "ALTER TABLE clipboard_items ADD COLUMN ");
            push_str(&mut sql, name);
            push_char(&mut sql, ' ');
            push_str(&mut sql, ty);
            out.push(sql);
        }
    }
    assert(cols.take(5) == cols);
    out
}

/// The answer to a request for an entry that does not exist.
pub open spec fn not_found_message(id: i64) -> Seq<char> {
    "clipboard item "@ + signed_decimal(id as int) + " not found"@
}

/// Builds the answer to a request for an entry that does not exist.
pub fn item_not_found_message(id: i64) -> (s: String)
    ensures
        s@ == not_found_message(id),
{
    let mut s = String::new();
    push_str(&mut s, "clipboard item ");
    push_signed_decimal(&mut s, id);
    push_str(&mut s, " not found");
    s
}

} // verus!
