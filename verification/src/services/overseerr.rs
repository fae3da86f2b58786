//! The discovery service: it knows which titles were requested, and where the
//! acquisition services are.

use vstd::prelude::*;
use vstd::string::StringExecFns;
use crate::activity::MediaKind;
use crate::catalog::{discover_all, Catalog, PassView, SyncReport};
use crate::dates::{created_at, read_created_at};
use crate::error::SyncError;
use crate::facts::{read_facts_from_text, text_facts, Source};
use crate::json::{flag_at, json_content, json_contents, json_parsed, read_document, text_at, JsonTree};
use crate::services::movie::{movie_views, Movie};
use crate::services::serie::{serie_views, Serie};

verus! {

/// The discovery service.
#[derive(Debug)]
pub struct Overseerr {
    id: i32,
    url: String,
    api_key: String,
}

/// What the descriptor of a service without tiers holds.
pub struct ConnectionView {
    pub id: i32,
    pub url: Seq<char>,
    pub api_key: Seq<char>,
}

impl View for Overseerr {
    type V = ConnectionView;

    closed spec fn view(&self) -> ConnectionView {
        ConnectionView { id: self.id, url: self.url@, api_key: self.api_key@ }
    }
}

/// Where an acquisition service instance is reached, and the tier of its files.
#[derive(Debug)]
pub struct ServiceEndpoint {
    pub url: String,
    pub api_key: String,
    pub is4k: bool,
}

/// What a `ServiceEndpoint` holds.
pub struct EndpointView {
    pub url: Seq<char>,
    pub api_key: Seq<char>,
    pub is4k: bool,
}

impl View for ServiceEndpoint {
    type V = EndpointView;

    open spec fn view(&self) -> EndpointView {
        EndpointView { url: self.url@, api_key: self.api_key@, is4k: self.is4k }
    }
}

/// The views of a run of endpoints, in order.
pub open spec fn endpoint_views(endpoints: Seq<ServiceEndpoint>) -> Seq<EndpointView> {
    Seq::new(endpoints.len(), |i: int| endpoints[i]@)
}

/// The endpoint that an entry of the settings describes, if the entry has an
/// `externalUrl`, an `apiKey` and an `is4k`.
pub open spec fn endpoint_entry(entry: JsonTree) -> Option<EndpointView> {
    match (
        entry.field("externalUrl"@).as_text(),
        entry.field("apiKey"@).as_text(),
        entry.field("is4k"@).as_flag(),
    ) {
        (Some(url), Some(api_key), Some(is4k)) => Some(EndpointView { url, api_key, is4k }),
        _ => None,
    }
}

/// The endpoints that a run of entries describes, in order; nothing if one
/// of the entries describes none.
pub open spec fn endpoint_entries(entries: Seq<JsonTree>) -> Option<Seq<EndpointView>>
    decreases entries.len(),
{
    if entries.len() == 0 {
        Some(Seq::empty())
    } else {
        match (endpoint_entries(entries.drop_last()), endpoint_entry(entries.last())) {
            (Some(before), Some(endpoint)) => Some(before.push(endpoint)),
            _ => None,
        }
    }
}

/// The endpoints that the text of the settings describes; nothing if it is malformed.
pub open spec fn settings_endpoints(text: Seq<char>) -> Option<Seq<EndpointView>> {
    match json_parsed(text) {
        Some(document) => match document.as_items() {
            Some(entries) => endpoint_entries(entries),
            None => None,
        },
        None => None,
    }
}

proof fn lemma_bad_entry_spoils(entries: Seq<JsonTree>, i: int)
    requires
        0 <= i < entries.len(),
        endpoint_entry(entries[i]) is None,
    ensures
        endpoint_entries(entries) is None,
    decreases entries.len(),
{
    if i < entries.len() - 1 {
        lemma_bad_entry_spoils(entries.drop_last(), i);
    }
}

/// Reads the endpoint that an entry of the settings describes.
pub fn read_endpoint(entry: &serde_json::Value) -> (r: Option<ServiceEndpoint>)
    ensures
        match endpoint_entry(json_content(*entry)) {
            Some(e) => r matches Some(endpoint) && endpoint@ == e,
            None => r is None,
        },
{
    let url = text_at(entry, "externalUrl");
    let api_key = text_at(entry, "apiKey");
    let is4k = flag_at(entry, "is4k");
    match (url, api_key, is4k) {
        (Some(url), Some(api_key), Some(is4k)) => Some(
            ServiceEndpoint { url: url.to_owned(), api_key: api_key.to_owned(), is4k },
        ),
        _ => None,
    }
}

/// Reads the endpoints that the entries of the settings describe, in order.
pub fn read_endpoints(entries: &Vec<serde_json::Value>) -> (r: Result<Vec<ServiceEndpoint>, SyncError>)
    ensures
        match endpoint_entries(json_contents(entries@)) {
            Some(es) => r matches Ok(endpoints) && endpoint_views(endpoints@) == es,
            None => r matches Err(e) && e == SyncError::UpstreamUnavailable,
        },
{
    let ghost all = json_contents(entries@);
    let mut out: Vec<ServiceEndpoint> = Vec::new();
    let mut i: usize = 0;
    while i < entries.len()
        invariant
            i <= entries.len(),
            all == json_contents(entries@),
            endpoint_entries(all.take(i as int)) == Some(endpoint_views(out@)),
        decreases entries.len() - i,
    {
        proof {
            assert(all.take(i + 1).drop_last() =~= all.take(i as int));
        }
        match read_endpoint(&entries[i]) {
            Some(endpoint) => {
                out.push(endpoint);
            },
            None => {
                proof {
                    lemma_bad_entry_spoils(all, i as int);
                }
                return Err(SyncError::UpstreamUnavailable);
            },
        }
        i += 1;
    }
    assert(all.take(i as int) =~= all);
    Ok(out)
}

fn read_settings(body: &str) -> (r: Result<Vec<ServiceEndpoint>, SyncError>)
    ensures
        match settings_endpoints(body@) {
            Some(es) => r matches Ok(endpoints) && endpoint_views(endpoints@) == es,
            None => r matches Err(e) && e == SyncError::UpstreamUnavailable,
        },
{
    match read_document(body) {
        Some(document) => match document.as_array() {
            Some(entries) => read_endpoints(entries),
            None => Err(SyncError::UpstreamUnavailable),
        },
        None => Err(SyncError::UpstreamUnavailable),
    }
}

impl Overseerr {
    /// The descriptor of the service that the store holds under `id`.
    pub fn new(id: i32, url: &str, api_key: &str) -> (r: Self)
        ensures
            r@ == (ConnectionView { id, url: url@, api_key: api_key@ }),
    {
        Overseerr { id, url: url.to_owned(), api_key: api_key.to_owned() }
    }

    pub fn id(&self) -> (r: i32)
        ensures
            r == self@.id,
    {
        self.id
    }

    pub fn url(&self) -> (r: &str)
        ensures
            r@ == self@.url,
    {
        self.url.as_str()
    }

    pub fn api_key(&self) -> (r: &str)
        ensures
            r@ == self@.api_key,
    {
        self.api_key.as_str()
    }

    /// The address of the service's list of media.
    pub fn media_url(&self) -> (r: String)
        ensures
            r@ == self@.url + "/api/v1/Media?take=5000"@,
    {
        self.url.clone().concat("/api/v1/Media?take=5000")
    }

    /// The address of the service's settings of the movie services.
    pub fn radarr_settings_url(&self) -> (r: String)
        ensures
            r@ == self@.url + "/api/v1/settings/radarr"@,
    {
        self.url.clone().concat("/api/v1/settings/radarr")
    }

    /// The address of the service's settings of the series services.
    pub fn sonarr_settings_url(&self) -> (r: String)
        ensures
            r@ == self@.url + "/api/v1/settings/sonarr"@,
    {
        self.url.clone().concat("/api/v1/settings/sonarr")
    }

    /// Reads a reported creation date as a Unix time.
    pub fn convert_date_to_timestamp(&self, date: &str) -> (r: Option<i32>)
        ensures
            r == created_at(date@),
    {
        read_created_at(date)
    }

    /// Reads the movies that the service knows from the text of its list of media.
    pub fn get_all_movies(&self, body: &str) -> (r: Result<Vec<Movie>, SyncError>)
        ensures
            match text_facts(Source::Discovery { kind: MediaKind::Movie }, body@) {
                Some(facts) => r matches Ok(movies) && movie_views(movies@) == facts,
                None => r matches Err(e) && e == SyncError::UpstreamUnavailable,
            },
    {
        match read_facts_from_text(Source::Discovery { kind: MediaKind::Movie }, body) {
            Ok(titles) => Ok(Movie::movies_of(&titles)),
            Err(e) => Err(e),
        }
    }

    /// Reads the series that the service knows from the text of its list of media.
    pub fn get_all_series(&self, body: &str) -> (r: Result<Vec<Serie>, SyncError>)
        ensures
            match text_facts(Source::Discovery { kind: MediaKind::Series }, body@) {
                Some(facts) => r matches Ok(series) && serie_views(series@) == facts,
                None => r matches Err(e) && e == SyncError::UpstreamUnavailable,
            },
    {
        match read_facts_from_text(Source::Discovery { kind: MediaKind::Series }, body) {
            Ok(titles) => Ok(Serie::series_of(&titles)),
            Err(e) => Err(e),
        }
    }

    /// Runs the discovery pass over the catalog of movies, from the text of
    /// the service's list of media. A movie that the catalog does not hold is
    /// added to it; one that it holds takes the playback key that the list
    /// gives, if it gives one, and moves its last view forward to the time
    /// at which the service first saw it. A list that cannot be read leaves
    /// the catalog as it is.
    pub fn update_db_movies(&self, body: &str, catalog: &mut Catalog) -> (r: Result<
        SyncReport,
        SyncError,
    >)
        requires
            old(catalog).wf(),
        ensures
            final(catalog).wf(),
            match text_facts(Source::Discovery { kind: MediaKind::Movie }, body@) {
                Some(facts) => r matches Ok(report) && (PassView {
                    rows: final(catalog)@,
                    report: report@,
                }) == discover_all(old(catalog)@, facts),
                None => {
                    &&& r matches Err(e) && e == SyncError::UpstreamUnavailable
                    &&& final(catalog)@ == old(catalog)@
                },
            },
    {
        match read_facts_from_text(Source::Discovery { kind: MediaKind::Movie }, body) {
            Ok(titles) => Ok(catalog.sync_discovery(&titles)),
            Err(e) => Err(e),
        }
    }

    /// Runs the discovery pass over the catalog of series, from the text of
    /// the service's list of media, as `update_db_movies` does for movies.
    pub fn update_db_series(&self, body: &str, catalog: &mut Catalog) -> (r: Result<
        SyncReport,
        SyncError,
    >)
        requires
            old(catalog).wf(),
        ensures
            final(catalog).wf(),
            match text_facts(Source::Discovery { kind: MediaKind::Series }, body@) {
                Some(facts) => r matches Ok(report) && (PassView {
                    rows: final(catalog)@,
                    report: report@,
                }) == discover_all(old(catalog)@, facts),
                None => {
                    &&& r matches Err(e) && e == SyncError::UpstreamUnavailable
                    &&& final(catalog)@ == old(catalog)@
                },
            },
    {
        match read_facts_from_text(Source::Discovery { kind: MediaKind::Series }, body) {
            Ok(titles) => Ok(catalog.sync_discovery(&titles)),
            Err(e) => Err(e),
        }
    }

    /// Reads the endpoints of the movie services from the text of the
    /// service's settings of them.
    pub fn get_radarrs(&self, body: &str) -> (r: Result<Vec<ServiceEndpoint>, SyncError>)
        ensures
            match settings_endpoints(body@) {
                Some(es) => r matches Ok(endpoints) && endpoint_views(endpoints@) == es,
                None => r matches Err(e) && e == SyncError::UpstreamUnavailable,
            },
    {
        read_settings(body)
    }

    /// Reads the endpoints of the series services from the text of the
    /// service's settings of them.
    pub fn get_sonarrs(&self, body: &str) -> (r: Result<Vec<ServiceEndpoint>, SyncError>)
        ensures
            match settings_endpoints(body@) {
                Some(es) => r matches Ok(endpoints) && endpoint_views(endpoints@) == es,
                None => r matches Err(e) && e == SyncError::UpstreamUnavailable,
            },
    {
        read_settings(body)
    }
}

} // verus!
