//! Decisions of the history window that do not depend on its widgets: which
//! request fills the list, when the list is rebuilt, and the status texts.

use vstd::prelude::*;
use crate::capture::opt_view;
use crate::text::{chars_of, decimal_digits, push_char, push_decimal, push_str, trim, trim_bounds};

verus! {

/// Settings of the history window.
#[derive(Debug, Clone, Copy, PartialEq, Eq)]
pub struct UiSettings {
    /// Whether the window refreshes itself every second.
    pub auto_refresh: bool,
    /// How many entries the window lists.
    pub row_limit: u32,
}

/// Rows listed by a new window.
pub const DEFAULT_ROW_LIMIT: u32 = 75;

impl UiSettings {
    /// Settings of a new window: refreshing itself, listing
    /// `DEFAULT_ROW_LIMIT` rows.
    pub fn new() -> (s: Self)
        ensures
            s.auto_refresh,
            s.row_limit == DEFAULT_ROW_LIMIT,
    {
        UiSettings { auto_refresh: true, row_limit: DEFAULT_ROW_LIMIT }
    }
}

impl Default for UiSettings {
    fn default() -> (s: Self)
        ensures
            s.auto_refresh,
            s.row_limit == DEFAULT_ROW_LIMIT,
    {
        UiSettings::new()
    }
}

/// Which bus method fills the list.
#[derive(Debug, Clone, Copy, PartialEq, Eq)]
pub enum ItemsRequest {
    /// The most recent entries.
    ListRecent,
    /// The entries matching the query.
    Search,
}

/// A blank query lists the most recent entries; any other query searches.
pub fn items_request(query: &str) -> (r: ItemsRequest)
    ensures
        r == if trim(query@).len() == 0 {
            ItemsRequest::ListRecent
        } else {
            ItemsRequest::Search
        },
{
    let chars = chars_of(query);
    let (lo, hi) = trim_bounds(&chars);
    if lo == hi {
        ItemsRequest::ListRecent
    } else {
        ItemsRequest::Search
    }
}

/// What the window does with the answer to a list request.
#[derive(Debug, Clone, PartialEq, Eq)]
pub enum RefreshAction {
    /// The daemon could not be reached: show that it is unavailable.
    ShowUnavailable,
    /// The answer is the one already shown: leave the list as it is.
    KeepList,
    /// The answer is new: rebuild the list from it.
    Rebuild,
}

/// The answer the list was last built from; empty before the first answer
/// and after the cache is cleared.
pub struct ListCache {
    shown: String,
}

impl ListCache {
    /// The answer the list was last built from (empty when cleared).
    pub closed spec fn shown(&self) -> Seq<char> {
        self.shown@
    }

    /// An empty cache.
    pub fn new() -> (c: Self)
        ensures
            c.shown() == Seq::<char>::empty(),
    {
        ListCache { shown: String::new() }
    }

    /// Clears the cache, so that the next answer rebuilds the list unless it
    /// is itself empty.
    pub fn invalidate(&mut self)
        ensures
            final(self).shown() == Seq::<char>::empty(),
    {
        self.shown = String::new();
    }

    /// Decides what to do with an answer (`None` when the daemon could not
    /// be reached), and remembers a new answer.
    pub fn on_answer(&mut self, answer: Option<&str>) -> (a: RefreshAction)
        ensures
            (a, final(self).shown()) == refresh_outcome(
                old(self).shown(),
                match answer {
                    Some(json) => Some(json@),
                    None => None,
                },
            ),
    {
        match answer {
            None => RefreshAction::ShowUnavailable,
            Some(json) => {
                if crate::query::same_text(self.shown.as_str(), json) {
                    RefreshAction::KeepList
                } else {
                    self.shown = json.to_owned();
                    RefreshAction::Rebuild
                }
            },
        }
    }
}

/// What the window does with an answer, given the answer the list was last
/// built from, and that answer afterwards: an unreachable daemon leaves the
/// cache as it is; the answer already cached keeps the list; any other
/// answer rebuilds it and is cached.
pub open spec fn refresh_outcome(shown: Seq<char>, answer: Option<Seq<char>>) -> (
    RefreshAction,
    Seq<char>,
) {
    match answer {
        None => (RefreshAction::ShowUnavailable, shown),
        Some(json) => if shown == json {
            (RefreshAction::KeepList, shown)
        } else {
            (RefreshAction::Rebuild, json)
        },
    }
}

/// Refreshing twice with the same answer rebuilds the list at most once:
/// the second time the list is kept.
pub proof fn lemma_same_answer_keeps_list(shown: Seq<char>, json: Seq<char>)
    ensures
        refresh_outcome(refresh_outcome(shown, Some(json)).1, Some(json)).0
            == RefreshAction::KeepList,
{
}

/// After the cache is cleared, any non-empty answer rebuilds the list.
pub proof fn lemma_cleared_cache_rebuilds(json: Seq<char>)
    requires
        json.len() > 0,
    ensures
        refresh_outcome(Seq::empty(), Some(json)).0 == RefreshAction::Rebuild,
{
}

/// `"<n> item(s)"`.
pub open spec fn count_status(n: nat) -> Seq<char> {
    decimal_digits(n) + seq![' ', 'i', 't', 'e', 'm', '(', 's', ')']
}

fn push_items_suffix(s: &mut String)
    ensures
        final(s)@ == old(s)@ + seq![' ', 'i', 't', 'e', 'm', '(', 's', ')'],
{
    push_char(s, ' ');
    push_char(s, 'i');
    push_char(s, 't');
    push_char(s, 'e');
    push_char(s, 'm');
    push_char(s, '(');
    push_char(s, 's');
    push_char(s, ')');
}

/// The status shown over a list of `n` entries.
pub fn item_count_status(n: u64) -> (s: String)
    ensures
        s@ == count_status(n as nat),
{
    let mut s = String::new();
    push_decimal(&mut s, n);
    push_items_suffix(&mut s);
    s
}

/// The notice shown after clearing `n` entries: `"Cleared <n> item(s)"`.
pub fn cleared_status(n: u64) -> (s: String)
    ensures
        s@ == seq!['C', 'l', 'e', 'a', 'r', 'e', 'd', ' '] + count_status(n as nat),
{
    let mut s = String::new();
    push_char(&mut s, 'C');
    push_char(&mut s, 'l');
    push_char(&mut s, 'e');
    push_char(&mut s, 'a');
    push_char(&mut s, 'r');
    push_char(&mut s, 'e');
    push_char(&mut s, 'd');
    push_char(&mut s, ' ');
    push_decimal(&mut s, n);
    push_items_suffix(&mut s);
    s
}

/// What stands at the start of an entry's row.
#[derive(Debug, Clone, Copy, PartialEq, Eq)]
pub enum LeadingVisual {
    /// The stored thumbnail of an image.
    Thumbnail,
    /// The icon of the entry's kind.
    KindIcon,
}

/// Images with a stored thumbnail show it; every other entry shows the icon
/// of its kind.
pub fn leading_visual(kind: &str, has_thumbnail: bool) -> (v: LeadingVisual)
    ensures
        v == if kind@ == crate::format::image_kind() && has_thumbnail {
            LeadingVisual::Thumbnail
        } else {
            LeadingVisual::KindIcon
        },
{
    if crate::format::is_image_kind(kind) && has_thumbnail {
        LeadingVisual::Thumbnail
    } else {
        LeadingVisual::KindIcon
    }
}

/// The suffix of desktop-entry ids.
pub open spec fn desktop_suffix() -> Seq<char> {
    seq!['.', 'd', 'e', 's', 'k', 't', 'o', 'p']
}

/// Whether `s` ends with `suffix`.
pub open spec fn ends_with(s: Seq<char>, suffix: Seq<char>) -> bool {
    s.len() >= suffix.len() && s.subrange(s.len() - suffix.len(), s.len() as int) == suffix
}

/// The desktop-entry ids under which the application that a copy came from
/// is looked up, in order: the name it reported, then that name with
/// `.desktop` appended unless it already ends so.
pub open spec fn desktop_id_candidates_of(source_app: Seq<char>) -> Seq<Seq<char>> {
    if ends_with(source_app, desktop_suffix()) {
        seq![source_app]
    } else {
        seq![source_app, source_app + desktop_suffix()]
    }
}

/// Lists the desktop-entry ids to try for a source application.
pub fn desktop_id_candidates(source_app: &str) -> (r: Vec<String>)
    ensures
        r@.len() == desktop_id_candidates_of(source_app@).len(),
        forall|i: int| 0 <= i < r@.len() ==> (#[trigger] r@[i])@ == desktop_id_candidates_of(source_app@)[i],
{
    let chars = chars_of(source_app);
    let n = chars.len();
    let suffix: Vec<char> = vec!['.', 'd', 'e', 's', 'k', 't', 'o', 'p'];
    let mut ends = n >= 8;
    if ends {
        let mut k: usize = 0;
        while k < 8
            invariant
                n == chars.len(),
                n >= 8,
                k <= 8,
                suffix@ == desktop_suffix(),
                ends == forall|j: int| 0 <= j < k ==> chars@[n - 8 + j] == suffix@[j],
            decreases 8 - k,
        {
            if chars[n - 8 + k] != suffix[k] {
                ends = false;
            }
            k = k + 1;
        }
        proof {
            if ends {
                assert(chars@.subrange(n - 8, n as int) =~= desktop_suffix());
            } else {
                let j = choose|j: int| 0 <= j < 8 && chars@[n - 8 + j] != suffix@[j];
                assert(chars@.subrange(n - 8, n as int)[j] != desktop_suffix()[j]);
            }
        }
    }
    let mut out: Vec<String> = Vec::new();
    out.push(source_app.to_owned());
    if !ends {
        let mut with_suffix = source_app.to_owned();
        let mut k: usize = 0;
        while k < 8
            invariant
                k <= 8,
                suffix@ == desktop_suffix(),
                with_suffix@ == source_app@ + suffix@.take(k as int),
            decreases 8 - k,
        {
            push_char(&mut with_suffix, suffix[k]);
            assert(suffix@.take(k + 1) == suffix@.take(k as int).push(suffix@[k as int]));
            k = k + 1;
        }
        assert(suffix@.take(8) == suffix@);
        out.push(with_suffix);
    }
    out
}

/// Which page the history window shows.
#[derive(Debug, Clone, Copy, PartialEq, Eq)]
pub enum Page {
    /// The list of entries.
    Entries,
    /// The page saying that there is no history yet.
    EmptyHistory,
    /// The page saying that the daemon cannot be reached.
    Unavailable,
    /// The page saying that the answer could not be read.
    Unreadable,
}

/// The page the window shows and the status it sets (`None`: the status
/// is left as it is).
pub struct PageChoice {
    pub page: Page,
    pub status: Option<String>,
}

/// The status of a window whose daemon cannot be reached.
pub open spec fn disconnected_status() -> Seq<char> {
    "Disconnected"@
}

/// The status of a window with no history.
pub open spec fn empty_status() -> Seq<char> {
    "Empty"@
}

/// The page and status after a list request, given whether the daemon
/// answered and, if it did, how many entries its answer decodes to (`None`
/// when it does not decode): an unreachable daemon shows the unavailable
/// page with status `Disconnected`; an answer that does not decode shows the
/// unreadable page and leaves the status; no entries show the empty page
/// with status `Empty`; `n` entries show the list with status
/// `"<n> item(s)"`.
pub open spec fn page_choice_of(answered: bool, decoded_count: Option<u64>) -> (
    Page,
    Option<Seq<char>>,
) {
    if !answered {
        (Page::Unavailable, Some(disconnected_status()))
    } else {
        match decoded_count {
            None => (Page::Unreadable, None),
            Some(n) => if n == 0 {
                (Page::EmptyHistory, Some(empty_status()))
            } else {
                (Page::Entries, Some(count_status(n as nat)))
            },
        }
    }
}

/// Chooses the page and status after a list request (see
/// `page_choice_of`).
pub fn page_for_answer(answered: bool, decoded_count: Option<u64>) -> (c: PageChoice)
    ensures
        (c.page, opt_view(c.status)) == page_choice_of(answered, decoded_count),
{
    if !answered {
        let mut s = String::new();
        push_str(&mut s, "Disconnected");
        return PageChoice { page: Page::Unavailable, status: Some(s) };
    }
    match decoded_count {
        None => PageChoice { page: Page::Unreadable, status: None },
        Some(0) => {
            let mut s = String::new();
            push_str(&mut s, "Empty");
            PageChoice { page: Page::EmptyHistory, status: Some(s) }
        },
        Some(n) => PageChoice { page: Page::Entries, status: Some(item_count_status(n)) },
    }
}

/// What the window does after asking the daemon to delete an entry.
#[derive(Debug, Clone, Copy, PartialEq, Eq)]
pub enum DeleteOutcome {
    /// The entry was deleted: remove its row and tell so.
    RemoveRow,
    /// The entry was gone already: tell so and keep the rows.
    AlreadyGone,
    /// The request failed: report the error.
    Failed,
}

/// The window's reaction to the answer of a delete request (`None` when the
/// request failed, otherwise whether a row was deleted).
pub fn delete_outcome(deleted: Option<bool>) -> (o: DeleteOutcome)
    ensures
        o == match deleted {
            Some(true) => DeleteOutcome::RemoveRow,
            Some(false) => DeleteOutcome::AlreadyGone,
            None => DeleteOutcome::Failed,
        },
{
    match deleted {
        Some(true) => DeleteOutcome::RemoveRow,
        Some(false) => DeleteOutcome::AlreadyGone,
        None => DeleteOutcome::Failed,
    }
}

/// Whether the answer to the clear-history dialog clears the history: only
/// the `clear` response does.
pub fn clear_confirmed(response: &str) -> (b: bool)
    ensures
        b == (response@ == "clear"@),
{
    crate::query::same_text(response, "clear")
}

/// Whether a timer tick refreshes the window: only with auto-refresh on.
pub fn refreshes_on_tick(settings: &UiSettings) -> (b: bool)
    ensures
        b == settings.auto_refresh,
{
    settings.auto_refresh
}

/// Whether activating the application opens a new window: only when none is
/// open; an open one is brought to the front instead.
pub fn opens_new_window(window_open: bool) -> (b: bool)
    ensures
        b == !window_open,
{
    !window_open
}

} // verus!
