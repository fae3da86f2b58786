//! The facts that the upstream services report, read from their JSON documents.

use vstd::prelude::*;
use crate::activity::MediaKind;
use crate::dates::{created_at, read_created_at};
use crate::error::SyncError;
use crate::json::{
    flag_at, int_at, items_at, json_content, json_contents, json_parsed, member, null_at,
    read_document, text_at, JsonTree,
};
use crate::text::text_eq;
use crate::catalog::title_views;
use crate::title::{CanonicalTitle, TitleView, NEVER_VIEWED};

verus! {

/// The service that a document comes from.
#[derive(Clone, Copy, Debug, PartialEq, Eq, Structural)]
pub enum Source {
    /// A movie acquisition service, which holds files of the 4K tier or of the HD tier.
    Radarr { is4k: bool },
    /// A series acquisition service, which holds files of the 4K tier or of the HD tier.
    Sonarr { is4k: bool },
    /// The discovery service, asked for the media of one kind.
    Discovery { kind: MediaKind },
}

/// What an entry of a document says.
pub enum Reading {
    /// Nothing that concerns the catalog.
    Skip,
    /// A fact about a title.
    Fact(TitleView),
    /// Something that cannot be read.
    Malformed,
}

/// The record of a title that an acquisition service holds a file of: its id
/// cut to 32 bits, its name, and its root folder as the path of the service's
/// tier. It was never viewed and is not protected.
pub open spec fn acquired_title(id: i64, title: Seq<char>, root_folder: Seq<char>, is4k: bool) -> TitleView {
    TitleView {
        external_id: id as i32,
        name: title,
        path_hd: if is4k {
            Seq::empty()
        } else {
            root_folder
        },
        path_4k: if is4k {
            root_folder
        } else {
            Seq::empty()
        },
        playback_key: Seq::empty(),
        last_view: NEVER_VIEWED,
        protected: false,
    }
}

/// The record of a title that the discovery service knows: its id cut to 32
/// bits, its playback key, and the time at which it was first seen, which
/// stands for its last view until a playback is observed.
pub open spec fn discovered_title(id: i64, playback_key: Seq<char>, first_seen: i32) -> TitleView {
    TitleView {
        external_id: id as i32,
        name: Seq::empty(),
        path_hd: Seq::empty(),
        path_4k: Seq::empty(),
        playback_key,
        last_view: first_seen,
        protected: false,
    }
}

/// The member under which a catalog of the given kind finds the id of a title.
pub open spec fn id_member(kind: MediaKind) -> Seq<char> {
    match kind {
        MediaKind::Movie => "tmdbId"@,
        MediaKind::Series => "tvdbId"@,
    }
}

/// The name that the discovery service gives to a kind of media.
pub open spec fn kind_label(kind: MediaKind) -> Seq<char> {
    match kind {
        MediaKind::Movie => "movie"@,
        MediaKind::Series => "tv"@,
    }
}

/// The title that an entry of an acquisition service's list describes, if the
/// entry has an integer id, a `title` and a `rootFolderPath`.
pub open spec fn acquired_entry(entry: JsonTree, kind: MediaKind, is4k: bool) -> Option<TitleView> {
    match (
        entry.field(id_member(kind)).as_int(),
        entry.field("title"@).as_text(),
        entry.field("rootFolderPath"@).as_text(),
    ) {
        (Some(id), Some(title), Some(root_folder)) => Some(
            acquired_title(id, title, root_folder, is4k),
        ),
        _ => None,
    }
}

/// What an entry of a movie service's list says. An entry without an id, or
/// of a movie without a file, says nothing.
pub open spec fn radarr_reading(entry: JsonTree, is4k: bool) -> Reading {
    if entry.field("tmdbId"@) is Null {
        Reading::Skip
    } else {
        match entry.field("hasFile"@).as_flag() {
            None => Reading::Malformed,
            Some(false) => Reading::Skip,
            Some(true) => match acquired_entry(entry, MediaKind::Movie, is4k) {
                Some(t) => Reading::Fact(t),
                None => Reading::Malformed,
            },
        }
    }
}

/// What an entry of a series service's list says. An entry without an id, or
/// of a series without an episode file, says nothing.
pub open spec fn sonarr_reading(entry: JsonTree, is4k: bool) -> Reading {
    if entry.field("tvdbId"@) is Null {
        Reading::Skip
    } else {
        match entry.field("statistics"@).field("episodeFileCount"@).as_int() {
            None => Reading::Malformed,
            Some(count) => if count == 0 {
                Reading::Skip
            } else {
                match acquired_entry(entry, MediaKind::Series, is4k) {
                    Some(t) => Reading::Fact(t),
                    None => Reading::Malformed,
                }
            },
        }
    }
}

/// What an entry of the discovery service's list says for a catalog of the
/// given kind. An entry that the playback system does not hold in any tier,
/// or of another kind, says nothing.
pub open spec fn discovery_reading(entry: JsonTree, kind: MediaKind) -> Reading {
    if entry.field("ratingKey"@) is Null && entry.field("ratingKey4k"@) is Null {
        Reading::Skip
    } else {
        match entry.field("mediaType"@).as_text() {
            None => Reading::Malformed,
            Some(label) => if label != kind_label(kind) {
                Reading::Skip
            } else {
                match (
                    entry.field("createdAt"@).as_text(),
                    entry.field(id_member(kind)).as_int(),
                ) {
                    (Some(date), Some(id)) => match created_at(date) {
                        Some(first_seen) => Reading::Fact(
                            discovered_title(
                                id,
                                match entry.field("ratingKey"@).as_text() {
                                    Some(key) => key,
                                    None => Seq::empty(),
                                },
                                first_seen,
                            ),
                        ),
                        None => Reading::Malformed,
                    },
                    _ => Reading::Malformed,
                }
            },
        }
    }
}

/// What an entry of a document of the given source says.
pub open spec fn reading(source: Source, entry: JsonTree) -> Reading {
    match source {
        Source::Radarr { is4k } => radarr_reading(entry, is4k),
        Source::Sonarr { is4k } => sonarr_reading(entry, is4k),
        Source::Discovery { kind } => discovery_reading(entry, kind),
    }
}

/// The facts among a run of readings, in order; nothing if one of the
/// readings is malformed.
pub open spec fn collected(readings: Seq<Reading>) -> Option<Seq<TitleView>>
    decreases readings.len(),
{
    if readings.len() == 0 {
        Some(Seq::empty())
    } else {
        match collected(readings.drop_last()) {
            None => None,
            Some(facts) => match readings.last() {
                Reading::Malformed => None,
                Reading::Skip => Some(facts),
                Reading::Fact(t) => Some(facts.push(t)),
            },
        }
    }
}

/// What each of a run of entries says.
pub open spec fn readings_of(source: Source, entries: Seq<JsonTree>) -> Seq<Reading> {
    Seq::new(entries.len(), |i: int| reading(source, entries[i]))
}

/// The entries of a document: the document itself for an acquisition service,
/// the list under `results` for the discovery service.
pub open spec fn entries_of(source: Source, document: JsonTree) -> Option<Seq<JsonTree>> {
    match source {
        Source::Discovery { kind } => document.field("results"@).as_items(),
        _ => document.as_items(),
    }
}

/// The facts that a document reports; nothing if it is malformed.
pub open spec fn document_facts(source: Source, document: JsonTree) -> Option<Seq<TitleView>> {
    match entries_of(source, document) {
        Some(entries) => collected(readings_of(source, entries)),
        None => None,
    }
}

/// The facts that the text of a document reports; nothing if it is malformed.
pub open spec fn text_facts(source: Source, text: Seq<char>) -> Option<Seq<TitleView>> {
    match json_parsed(text) {
        Some(document) => document_facts(source, document),
        None => None,
    }
}

/// A malformed reading spoils the whole run.
pub proof fn lemma_malformed_spoils(readings: Seq<Reading>, i: int)
    requires
        0 <= i < readings.len(),
        readings[i] is Malformed,
    ensures
        collected(readings) is None,
    decreases readings.len(),
{
    if i < readings.len() - 1 {
        lemma_malformed_spoils(readings.drop_last(), i);
    }
}

/// What an entry of a document says, as read.
#[derive(Debug)]
pub enum Read {
    Skip,
    Fact(CanonicalTitle),
    Malformed,
}

impl View for Read {
    type V = Reading;

    open spec fn view(&self) -> Reading {
        match self {
            Read::Skip => Reading::Skip,
            Read::Fact(t) => Reading::Fact(t@),
            Read::Malformed => Reading::Malformed,
        }
    }
}

/// The record of a title that an acquisition service holds a file of.
pub fn acquired(id: i64, title: &str, root_folder: &str, is4k: bool) -> (r: CanonicalTitle)
    ensures
        r@ == acquired_title(id, title@, root_folder@, is4k),
{
    CanonicalTitle {
        external_id: #[verifier::truncate]
        (id as i32),
        name: title.to_owned(),
        path_hd: if is4k {
            String::new()
        } else {
            root_folder.to_owned()
        },
        path_4k: if is4k {
            root_folder.to_owned()
        } else {
            String::new()
        },
        playback_key: String::new(),
        last_view: NEVER_VIEWED,
        protected: false,
    }
}

/// The record of a title that the discovery service knows.
pub fn discovered(id: i64, playback_key: &str, first_seen: i32) -> (r: CanonicalTitle)
    ensures
        r@ == discovered_title(id, playback_key@, first_seen),
{
    CanonicalTitle {
        external_id: #[verifier::truncate]
        (id as i32),
        name: String::new(),
        path_hd: String::new(),
        path_4k: String::new(),
        playback_key: playback_key.to_owned(),
        last_view: first_seen,
        protected: false,
    }
}

fn id_key(kind: MediaKind) -> (r: &'static str)
    ensures
        r@ == id_member(kind),
{
    match kind {
        MediaKind::Movie => "tmdbId",
        MediaKind::Series => "tvdbId",
    }
}

fn label(kind: MediaKind) -> (r: &'static str)
    ensures
        r@ == kind_label(kind),
{
    match kind {
        MediaKind::Movie => "movie",
        MediaKind::Series => "tv",
    }
}

/// Reads the title that an entry of an acquisition service's list describes.
pub fn read_acquired(entry: &serde_json::Value, kind: MediaKind, is4k: bool) -> (r: Option<
    CanonicalTitle,
>)
    ensures
        match acquired_entry(json_content(*entry), kind, is4k) {
            Some(t) => r matches Some(title) && title@ == t,
            None => r is None,
        },
{
    let id = int_at(entry, id_key(kind));
    let title = text_at(entry, "title");
    let root_folder = text_at(entry, "rootFolderPath");
    match (id, title, root_folder) {
        (Some(id), Some(title), Some(root_folder)) => Some(acquired(id, title, root_folder, is4k)),
        _ => None,
    }
}

fn read_radarr(entry: &serde_json::Value, is4k: bool) -> (r: Read)
    ensures
        r@ == radarr_reading(json_content(*entry), is4k),
{
    if null_at(entry, "tmdbId") {
        return Read::Skip;
    }
    match flag_at(entry, "hasFile") {
        None => Read::Malformed,
        Some(false) => Read::Skip,
        Some(true) => match read_acquired(entry, MediaKind::Movie, is4k) {
            Some(t) => Read::Fact(t),
            None => Read::Malformed,
        },
    }
}

fn read_sonarr(entry: &serde_json::Value, is4k: bool) -> (r: Read)
    ensures
        r@ == sonarr_reading(json_content(*entry), is4k),
{
    if null_at(entry, "tvdbId") {
        return Read::Skip;
    }
    let count = match member(entry, "statistics") {
        Some(statistics) => int_at(statistics, "episodeFileCount"),
        None => None,
    };
    match count {
        None => Read::Malformed,
        Some(count) => if count == 0 {
            Read::Skip
        } else {
            match read_acquired(entry, MediaKind::Series, is4k) {
                Some(t) => Read::Fact(t),
                None => Read::Malformed,
            }
        },
    }
}

fn read_discovery(entry: &serde_json::Value, kind: MediaKind) -> (r: Read)
    ensures
        r@ == discovery_reading(json_content(*entry), kind),
{
    if null_at(entry, "ratingKey") && null_at(entry, "ratingKey4k") {
        return Read::Skip;
    }
    let media_type = match text_at(entry, "mediaType") {
        Some(media_type) => media_type,
        None => {
            return Read::Malformed;
        },
    };
    if !text_eq(media_type, label(kind)) {
        return Read::Skip;
    }
    let date = text_at(entry, "createdAt");
    let id = int_at(entry, id_key(kind));
    match (date, id) {
        (Some(date), Some(id)) => match read_created_at(date) {
            Some(first_seen) => {
                proof {
                    reveal_strlit("");
                    assert(""@ =~= Seq::<char>::empty());
                }
                let key = match text_at(entry, "ratingKey") {
                    Some(key) => key,
                    None => "",
                };
                Read::Fact(discovered(id, key, first_seen))
            },
            None => Read::Malformed,
        },
        _ => Read::Malformed,
    }
}

/// Reads what an entry of a document of the given source says.
pub fn read_entry(source: Source, entry: &serde_json::Value) -> (r: Read)
    ensures
        r@ == reading(source, json_content(*entry)),
{
    match source {
        Source::Radarr { is4k } => read_radarr(entry, is4k),
        Source::Sonarr { is4k } => read_sonarr(entry, is4k),
        Source::Discovery { kind } => read_discovery(entry, kind),
    }
}

/// The failure or the facts that a reading of a document amounts to.
pub open spec fn told(facts: Option<Seq<TitleView>>, r: Result<Vec<CanonicalTitle>, SyncError>) -> bool {
    match facts {
        Some(fs) => r matches Ok(titles) && title_views(titles@) == fs,
        None => r matches Err(e) && e == SyncError::UpstreamUnavailable,
    }
}

/// Reads the facts that the entries of a document report, in order. One
/// malformed entry makes the document malformed.
pub fn read_entries(source: Source, entries: &Vec<serde_json::Value>) -> (r: Result<
    Vec<CanonicalTitle>,
    SyncError,
>)
    ensures
        told(collected(readings_of(source, json_contents(entries@))), r),
{
    let ghost all = readings_of(source, json_contents(entries@));
    let mut out: Vec<CanonicalTitle> = Vec::new();
    let mut i: usize = 0;
    while i < entries.len()
        invariant
            i <= entries.len(),
            all == readings_of(source, json_contents(entries@)),
            collected(all.take(i as int)) == Some(title_views(out@)),
        decreases entries.len() - i,
    {
        proof {
            assert(all.take(i + 1).drop_last() =~= all.take(i as int));
        }
        match read_entry(source, &entries[i]) {
            Read::Malformed => {
                proof {
                    lemma_malformed_spoils(all, i as int);
                }
                return Err(SyncError::UpstreamUnavailable);
            },
            Read::Skip => {},
            Read::Fact(t) => {
                out.push(t);
            },
        }
        i += 1;
    }
    assert(all.take(i as int) =~= all);
    Ok(out)
}

/// Reads the facts that a document reports.
pub fn read_facts(source: Source, document: &serde_json::Value) -> (r: Result<
    Vec<CanonicalTitle>,
    SyncError,
>)
    ensures
        told(document_facts(source, json_content(*document)), r),
{
    let entries = match source {
        Source::Discovery { kind } => items_at(document, "results"),
        _ => document.as_array(),
    };
    match entries {
        Some(entries) => read_entries(source, entries),
        None => Err(SyncError::UpstreamUnavailable),
    }
}

/// Reads the facts that the text of a document reports.
pub fn read_facts_from_text(source: Source, text: &str) -> (r: Result<Vec<CanonicalTitle>, SyncError>)
    ensures
        told(text_facts(source, text@), r),
{
    match read_document(text) {
        Some(document) => read_facts(source, &document),
        None => Err(SyncError::UpstreamUnavailable),
    }
}

} // verus!
