//! The watch-activity service that reports every playback, by playback key.

use vstd::prelude::*;
use vstd::string::StringExecFns;
use crate::activity::{
    failure_of, replay_history, row_views, twin_replay, MediaKind, PlaybackRow, RowView,
    TwinOutcome,
};
use crate::catalog::{empty_report, Catalog, RefView, SyncReport, TitleRef};
use crate::dates::timestamp_of;
use crate::error::SyncError;
use crate::json::{
    int_at, items_at, json_content, json_contents, json_parsed, member, read_document, text_at,
    JsonTree,
};
use crate::text::{decimal_string, decimal_text, text_eq};

verus! {

/// An instance of the watch-activity service, with the history that was
/// fetched from it, if one was.
#[derive(Debug)]
pub struct Tautulli {
    pub id: i32,
    pub url: String,
    pub api_key: String,
    pub history: Option<serde_json::Value>,
}

/// What the descriptor of the instance holds, with what the fetched history holds.
pub struct TautulliView {
    pub id: i32,
    pub url: Seq<char>,
    pub api_key: Seq<char>,
    pub history: Option<JsonTree>,
}

impl View for Tautulli {
    type V = TautulliView;

    open spec fn view(&self) -> TautulliView {
        TautulliView {
            id: self.id,
            url: self.url@,
            api_key: self.api_key@,
            history: match self.history {
                Some(document) => Some(json_content(document)),
                None => None,
            },
        }
    }
}

/// The first of two values that is there.
pub open spec fn first_present(first: Option<i64>, second: Option<i64>) -> Option<i64> {
    match first {
        Some(_) => first,
        None => second,
    }
}

/// The playback key of the title that an entry is about: that of the series
/// of an episode, else that of the season, else the entry's own.
pub open spec fn history_key(entry: JsonTree) -> Option<i64> {
    first_present(
        first_present(
            entry.field("grandparent_rating_key"@).as_int(),
            entry.field("parent_rating_key"@).as_int(),
        ),
        entry.field("rating_key"@).as_int(),
    )
}

/// The kind of the title that an entry is about: a movie where the entry
/// says so, else a series.
pub open spec fn history_kind(entry: JsonTree) -> MediaKind {
    if entry.field("media_type"@).as_text() == Some("movie"@) {
        MediaKind::Movie
    } else {
        MediaKind::Series
    }
}

/// The time of the playback that an entry reports, cut to 32 bits.
pub open spec fn history_date(entry: JsonTree) -> Option<i32> {
    match entry.field("date"@).as_int() {
        Some(date) => Some(date as i32),
        None => None,
    }
}

/// What an entry of the history says. An entry without a playback key is malformed.
pub open spec fn history_reading(entry: JsonTree) -> RowView {
    match history_key(entry) {
        None => RowView::Malformed,
        Some(key) => RowView::Seen {
            kind: history_kind(entry),
            reference: RefView::PlaybackKey(decimal_text(key as int)),
            seen_at: history_date(entry),
        },
    }
}

/// The entries of a history document.
pub open spec fn history_entries(document: JsonTree) -> Option<Seq<JsonTree>> {
    document.field("response"@).field("data"@).field("data"@).as_items()
}

/// What each entry of a history says, in order.
pub open spec fn history_rows(entries: Seq<JsonTree>) -> Seq<RowView> {
    Seq::new(entries.len(), |i: int| history_reading(entries[i]))
}

/// The history that a fetched document tells; nothing where none was fetched
/// or the document holds no entries.
pub open spec fn fetched_history(history: Option<JsonTree>) -> Option<Seq<RowView>> {
    match history {
        Some(document) => match history_entries(document) {
            Some(entries) => Some(history_rows(entries)),
            None => None,
        },
        None => None,
    }
}

fn first_of(first: Option<i64>, second: Option<i64>) -> (r: Option<i64>)
    ensures
        r == first_present(first, second),
{
    match first {
        Some(_) => first,
        None => second,
    }
}

/// Reads what an entry of the history says.
pub fn read_history_entry(entry: &serde_json::Value) -> (r: PlaybackRow)
    ensures
        r@ == history_reading(json_content(*entry)),
{
    let key = first_of(
        first_of(int_at(entry, "grandparent_rating_key"), int_at(entry, "parent_rating_key")),
        int_at(entry, "rating_key"),
    );
    match key {
        None => PlaybackRow::Malformed,
        Some(key) => {
            let kind = match text_at(entry, "media_type") {
                Some(label) => if text_eq(label, "movie") {
                    MediaKind::Movie
                } else {
                    MediaKind::Series
                },
                None => MediaKind::Series,
            };
            let seen_at = match int_at(entry, "date") {
                Some(date) => Some(timestamp_of(date)),
                None => None,
            };
            PlaybackRow::Seen {
                kind,
                reference: TitleRef::PlaybackKey(decimal_string(key)),
                seen_at,
            }
        },
    }
}

fn entries_in(document: &serde_json::Value) -> (r: Option<&Vec<serde_json::Value>>)
    ensures
        match r {
            Some(entries) => history_entries(json_content(*document)) == Some(
                json_contents(entries@),
            ),
            None => history_entries(json_content(*document)) is None,
        },
{
    match member(document, "response") {
        Some(response) => match member(response, "data") {
            Some(data) => items_at(data, "data"),
            None => None,
        },
        None => None,
    }
}

impl Tautulli {
    /// The descriptor of the instance that the store holds under `id`, with
    /// no history fetched yet.
    pub fn new(id: i32, url: &str, api_key: &str) -> (r: Self)
        ensures
            r@ == (TautulliView { id, url: url@, api_key: api_key@, history: None }),
    {
        Tautulli { id, url: url.to_owned(), api_key: api_key.to_owned(), history: None }
    }

    /// The address from which the history is fetched.
    pub fn history_url(&self) -> (r: String)
        ensures
            r@ == self@.url + "/api/v2?cmd=get_history&length=500000&apikey="@ + self@.api_key,
    {
        self.url.clone().concat("/api/v2?cmd=get_history&length=500000&apikey=").concat(
            self.api_key.as_str(),
        )
    }

    /// Whether the history is still to be fetched.
    pub fn needs_history(&self) -> (r: bool)
        ensures
            r == (self@.history is None),
    {
        self.history.is_none()
    }

    /// Takes the text of a fetched history and keeps its document. Returns
    /// the number of its entries. A text that is no history document is
    /// malformed upstream data and is not kept.
    pub fn update_history(&mut self, body: &str) -> (r: Result<usize, SyncError>)
        ensures
            match json_parsed(body@) {
                Some(document) => match history_entries(document) {
                    Some(entries) => {
                        &&& r matches Ok(n) && n == entries.len()
                        &&& final(self)@ == (TautulliView { history: Some(document), ..old(self)@ })
                    },
                    None => {
                        &&& r matches Err(e) && e == SyncError::UpstreamUnavailable
                        &&& final(self)@ == old(self)@
                    },
                },
                None => {
                    &&& r matches Err(e) && e == SyncError::UpstreamUnavailable
                    &&& final(self)@ == old(self)@
                },
            },
    {
        match read_document(body) {
            Some(document) => {
                let count = match entries_in(&document) {
                    Some(entries) => Some(entries.len()),
                    None => None,
                };
                match count {
                    Some(n) => {
                        self.history = Some(document);
                        Ok(n)
                    },
                    None => Err(SyncError::UpstreamUnavailable),
                }
            },
            None => Err(SyncError::UpstreamUnavailable),
        }
    }

    /// The history that was fetched, entry by entry.
    pub fn get_history(&self) -> (r: Result<Vec<PlaybackRow>, SyncError>)
        ensures
            match fetched_history(self@.history) {
                Some(history) => r matches Ok(rows) && row_views(rows@) == history,
                None => r matches Err(e) && e == SyncError::UpstreamUnavailable,
            },
    {
        match &self.history {
            Some(document) => match entries_in(document) {
                Some(entries) => {
                    let mut out: Vec<PlaybackRow> = Vec::new();
                    let mut i: usize = 0;
                    while i < entries.len()
                        invariant
                            i <= entries.len(),
                            out.len() == i,
                            forall|k: int|
                                0 <= k < i ==> out[k]@ == history_reading(
                                    json_content(entries[k]),
                                ),
                        decreases entries.len() - i,
                    {
                        out.push(read_history_entry(&entries[i]));
                        i += 1;
                    }
                    Ok(out)
                },
                None => Err(SyncError::UpstreamUnavailable),
            },
            None => Err(SyncError::UpstreamUnavailable),
        }
    }

    /// Runs the activity pass over both catalogs, from the history that was
    /// fetched. Each entry moves the last view of the title with its playback
    /// key forward, in the catalog of its kind; an entry of a title that the
    /// catalog does not hold is skipped. The pass stops at the first
    /// malformed entry, and what it did before stands. Without a fetched
    /// history nothing is done.
    pub fn update_medias_activity(&self, movies: &mut Catalog, series: &mut Catalog) -> (r:
        TwinOutcome)
        requires
            old(movies).wf(),
            old(series).wf(),
        ensures
            final(movies).wf(),
            final(series).wf(),
            match fetched_history(self@.history) {
                Some(history) => {
                    let end = twin_replay(old(movies)@, old(series)@, history);
                    &&& final(movies)@ == end.movies.rows
                    &&& final(series)@ == end.series.rows
                    &&& r.movies@ == end.movies.report
                    &&& r.series@ == end.series.report
                    &&& r.failure == failure_of(end.failed)
                },
                None => {
                    &&& final(movies)@ == old(movies)@
                    &&& final(series)@ == old(series)@
                    &&& r.movies@ == empty_report()
                    &&& r.series@ == empty_report()
                    &&& r.failure == Some(SyncError::UpstreamUnavailable)
                },
            },
    {
        match self.get_history() {
            Ok(rows) => replay_history(movies, series, &rows),
            Err(e) => TwinOutcome {
                movies: SyncReport::new(),
                series: SyncReport::new(),
                failure: Some(e),
            },
        }
    }
}

} // verus!
