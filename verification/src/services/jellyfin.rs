//! The watch-activity service that reports, for each title, when it was last played.

use vstd::prelude::*;
use vstd::string::StringExecFns;
use crate::activity::{
    failure_of, replay_all, row_views, MediaKind, PlaybackRow, ReplayOutcome, RowView,
};
use crate::catalog::{empty_report, Catalog, RefView, SyncReport, TitleRef};
use crate::error::SyncError;
use crate::json::{items_at, json_content, json_contents, json_parsed, read_document, JsonTree};
use crate::text::{parse_i32, parsed_i32};

verus! {

/// An instance of the watch-activity service.
#[derive(Debug)]
pub struct Jellyfin {
    id: i32,
    pub url: String,
    pub api_key: String,
}

/// What the descriptor of the instance holds.
pub struct JellyfinView {
    pub id: i32,
    pub url: Seq<char>,
    pub api_key: Seq<char>,
}

impl View for Jellyfin {
    type V = JellyfinView;

    closed spec fn view(&self) -> JellyfinView {
        JellyfinView { id: self.id, url: self.url@, api_key: self.api_key@ }
    }
}

/// The time that an entry gives: the 32-bit integer that its text writes in
/// decimal, if the value is a text and writes one.
pub open spec fn stamp_of(value: JsonTree) -> Option<i32> {
    match value.as_text() {
        Some(s) => parsed_i32(s),
        None => None,
    }
}

/// What an entry of the activity list says: a pair of a title and of the time
/// of its last playback. An entry without a time says nothing; one without a
/// title is malformed.
pub open spec fn playback_reading(entry: JsonTree, kind: MediaKind) -> Option<RowView> {
    if entry.item(1) is Null {
        None
    } else {
        match entry.item(0).as_text() {
            None => Some(RowView::Malformed),
            Some(title) => Some(
                RowView::Seen {
                    kind,
                    reference: RefView::Name(title),
                    seen_at: stamp_of(entry.item(1)),
                },
            ),
        }
    }
}

/// The history that a run of entries tells, in order.
pub open spec fn playback_rows(entries: Seq<JsonTree>, kind: MediaKind) -> Seq<RowView>
    decreases entries.len(),
{
    if entries.len() == 0 {
        Seq::empty()
    } else {
        let before = playback_rows(entries.drop_last(), kind);
        match playback_reading(entries.last(), kind) {
            Some(row) => before.push(row),
            None => before,
        }
    }
}

/// The history that the text of an activity list tells: that of the entries
/// under `results`; nothing if the text is no document with such a list.
pub open spec fn activity_history(text: Seq<char>, kind: MediaKind) -> Option<Seq<RowView>> {
    match json_parsed(text) {
        Some(document) => match document.field("results"@).as_items() {
            Some(entries) => Some(playback_rows(entries, kind)),
            None => None,
        },
        None => None,
    }
}

/// Reads the time that an entry gives.
pub fn read_stamp(value: &serde_json::Value) -> (r: Option<i32>)
    ensures
        r == stamp_of(json_content(*value)),
{
    match value.as_str() {
        Some(s) => parse_i32(s),
        None => None,
    }
}

/// Reads what an entry of the activity list says.
pub fn read_playback(entry: &serde_json::Value, kind: MediaKind) -> (r: Option<PlaybackRow>)
    ensures
        match playback_reading(json_content(*entry), kind) {
            Some(row) => r matches Some(read) && read@ == row,
            None => r is None,
        },
{
    match entry.as_array() {
        None => None,
        Some(items) => {
            if items.len() < 2 {
                return None;
            }
            if items[1].is_null() {
                return None;
            }
            match items[0].as_str() {
                None => Some(PlaybackRow::Malformed),
                Some(title) => Some(
                    PlaybackRow::Seen {
                        kind,
                        reference: TitleRef::Name(title.to_owned()),
                        seen_at: read_stamp(&items[1]),
                    },
                ),
            }
        },
    }
}

/// Reads the history that the entries of an activity list tell, in order.
pub fn read_playbacks(entries: &Vec<serde_json::Value>, kind: MediaKind) -> (r: Vec<PlaybackRow>)
    ensures
        row_views(r@) == playback_rows(json_contents(entries@), kind),
{
    let ghost all = json_contents(entries@);
    let mut out: Vec<PlaybackRow> = Vec::new();
    let mut i: usize = 0;
    while i < entries.len()
        invariant
            i <= entries.len(),
            all == json_contents(entries@),
            row_views(out@) == playback_rows(all.take(i as int), kind),
        decreases entries.len() - i,
    {
        proof {
            assert(all.take(i + 1).drop_last() =~= all.take(i as int));
        }
        match read_playback(&entries[i], kind) {
            Some(row) => {
                out.push(row);
            },
            None => {},
        }
        i += 1;
    }
    assert(all.take(i as int) =~= all);
    out
}

/// What a replay tells of a history that could not be read: nothing was
/// done, and the upstream data is malformed.
pub open spec fn unread(r: ReplayOutcome) -> bool {
    r.report@ == empty_report() && r.failure == Some(SyncError::UpstreamUnavailable)
}

impl Jellyfin {
    /// The descriptor of the instance that the store holds under `id`.
    pub fn new(id: i32, url: &str, api_key: &str) -> (r: Self)
        ensures
            r@ == (JellyfinView { id, url: url@, api_key: api_key@ }),
    {
        Jellyfin { id, url: url.to_owned(), api_key: api_key.to_owned() }
    }

    pub fn id(&self) -> (r: i32)
        ensures
            r == self@.id,
    {
        self.id
    }

    /// The address to which an activity query is sent.
    pub fn query_url(&self) -> (r: String)
        ensures
            r@ == self@.url + "/user_usage_stats/submit_custom_query"@,
    {
        self.url.clone().concat("/user_usage_stats/submit_custom_query")
    }

    /// The query for the last playback of each movie.
    pub fn movies_query() -> (r: &'static str)
        ensures
            r@ == "SELECT IFNULL(NULLIF(SUBSTR(ItemName, 0, INSTR(ItemName, ' - ')), ''), ItemName) ItemName, strftime('%s', strftime('%s', max(DateCreated)), 'unixepoch') lastView FROM PlaybackActivity WHERE SUBSTR(ItemName, 0, INSTR(ItemName, ' - ')) == '' GROUP BY IFNULL(NULLIF(SUBSTR(ItemName, 0, INSTR(ItemName, ' - ')), ''), ItemName)"@,
    {
        "SELECT IFNULL(NULLIF(SUBSTR(ItemName, 0, INSTR(ItemName, ' - ')), ''), ItemName) ItemName, strftime('%s', strftime('%s', max(DateCreated)), 'unixepoch') lastView FROM PlaybackActivity WHERE SUBSTR(ItemName, 0, INSTR(ItemName, ' - ')) == '' GROUP BY IFNULL(NULLIF(SUBSTR(ItemName, 0, INSTR(ItemName, ' - ')), ''), ItemName)"
    }

    /// The query for the last playback of each series.
    pub fn series_query() -> (r: &'static str)
        ensures
            r@ == "SELECT IFNULL(NULLIF(SUBSTR(ItemName, 0, INSTR(ItemName, ' - ')), ''), ItemName) ItemName, strftime('%s', strftime('%s', max(DateCreated)), 'unixepoch') lastView FROM PlaybackActivity WHERE SUBSTR(ItemName, 0, INSTR(ItemName, ' - ')) != '' GROUP BY IFNULL(NULLIF(SUBSTR(ItemName, 0, INSTR(ItemName, ' - ')), ''), ItemName)"@,
    {
        "SELECT IFNULL(NULLIF(SUBSTR(ItemName, 0, INSTR(ItemName, ' - ')), ''), ItemName) ItemName, strftime('%s', strftime('%s', max(DateCreated)), 'unixepoch') lastView FROM PlaybackActivity WHERE SUBSTR(ItemName, 0, INSTR(ItemName, ' - ')) != '' GROUP BY IFNULL(NULLIF(SUBSTR(ItemName, 0, INSTR(ItemName, ' - ')), ''), ItemName)"
    }

    /// The request body that carries a query.
    pub fn query_body(query: &str) -> (r: String)
        ensures
            r@ == "{\"CustomQueryString\":\""@ + query@ + "\"}"@,
    {
        String::from_str("{\"CustomQueryString\":\"").concat(query).concat("\"}")
    }

    /// Reads the history that the answer to an activity query tells.
    pub fn update_media_activity(&self, body: &str, kind: MediaKind) -> (r: Result<
        Vec<PlaybackRow>,
        SyncError,
    >)
        ensures
            match activity_history(body@, kind) {
                Some(history) => r matches Ok(rows) && row_views(rows@) == history,
                None => r matches Err(e) && e == SyncError::UpstreamUnavailable,
            },
    {
        match read_document(body) {
            Some(document) => match items_at(&document, "results") {
                Some(entries) => Ok(read_playbacks(entries, kind)),
                None => Err(SyncError::UpstreamUnavailable),
            },
            None => Err(SyncError::UpstreamUnavailable),
        }
    }

    fn update_activity(&self, body: &str, kind: MediaKind, catalog: &mut Catalog) -> (r:
        ReplayOutcome)
        requires
            old(catalog).wf(),
        ensures
            final(catalog).wf(),
            match activity_history(body@, kind) {
                Some(history) => {
                    &&& final(catalog)@ == replay_all(old(catalog)@, history).pass.rows
                    &&& r.report@ == replay_all(old(catalog)@, history).pass.report
                    &&& r.failure == failure_of(replay_all(old(catalog)@, history).failed)
                },
                None => final(catalog)@ == old(catalog)@ && unread(r),
            },
    {
        match self.update_media_activity(body, kind) {
            Ok(rows) => catalog.replay(&rows),
            Err(e) => ReplayOutcome { report: SyncReport::new(), failure: Some(e) },
        }
    }

    /// Runs the activity pass over the catalog of movies, from the answer to
    /// the movies query. Each entry moves the last view of the movie of that
    /// title forward; an entry of a title that the catalog does not hold is
    /// skipped. The pass stops at the first malformed entry, and what it did
    /// before stands.
    pub fn update_movies_activity(&self, body: &str, catalog: &mut Catalog) -> (r: ReplayOutcome)
        requires
            old(catalog).wf(),
        ensures
            final(catalog).wf(),
            match activity_history(body@, MediaKind::Movie) {
                Some(history) => {
                    &&& final(catalog)@ == replay_all(old(catalog)@, history).pass.rows
                    &&& r.report@ == replay_all(old(catalog)@, history).pass.report
                    &&& r.failure == failure_of(replay_all(old(catalog)@, history).failed)
                },
                None => final(catalog)@ == old(catalog)@ && unread(r),
            },
    {
        self.update_activity(body, MediaKind::Movie, catalog)
    }

    /// Runs the activity pass over the catalog of series, from the answer to
    /// the series query, as `update_movies_activity` does for movies.
    pub fn update_series_activity(&self, body: &str, catalog: &mut Catalog) -> (r: ReplayOutcome)
        requires
            old(catalog).wf(),
        ensures
            final(catalog).wf(),
            match activity_history(body@, MediaKind::Series) {
                Some(history) => {
                    &&& final(catalog)@ == replay_all(old(catalog)@, history).pass.rows
                    &&& r.report@ == replay_all(old(catalog)@, history).pass.report
                    &&& r.failure == failure_of(replay_all(old(catalog)@, history).failed)
                },
                None => final(catalog)@ == old(catalog)@ && unread(r),
            },
    {
        self.update_activity(body, MediaKind::Series, catalog)
    }

    /// Reads the time of a playback from the value that the service gives for it.
    pub fn clean_api_timestamp(&self, timestamp: &serde_json::Value) -> (r: Option<i32>)
        ensures
            r == stamp_of(json_content(*timestamp)),
    {
        read_stamp(timestamp)
    }
}

} // verus!
