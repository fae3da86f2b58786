//! The movie acquisition service.

use vstd::prelude::*;
use vstd::string::StringExecFns;
use crate::catalog::{acquire_all, Catalog, PassView, SyncReport};
use crate::error::SyncError;
use crate::facts::{read_facts_from_text, text_facts, Source};
use crate::services::movie::{movie_views, Movie};
use crate::services::path::RadarrPath;
use crate::storage::{
    folder_views, greatest_id, registered_all, registered_bindings, Acquirer, BindingView,
    RootFolder, StorageRegistry,
};
use crate::title::QualityTier;

verus! {

/// An instance of the movie acquisition service.
#[derive(Debug)]
pub struct Radarr {
    id: i32,
    url: String,
    api_key: String,
    is4k: bool,
}

/// What the descriptor of an acquisition service instance holds.
pub struct AcquirerView {
    pub id: i32,
    pub url: Seq<char>,
    pub api_key: Seq<char>,
    pub is4k: bool,
}

/// The tier of the files that an instance holds.
pub open spec fn tier_of(is4k: bool) -> QualityTier {
    if is4k {
        QualityTier::UltraHd
    } else {
        QualityTier::Hd
    }
}

/// The views of a run of movie folders, in order.
pub open spec fn radarr_path_views(paths: Seq<RadarrPath>) -> Seq<BindingView> {
    Seq::new(paths.len(), |i: int| paths[i]@)
}

impl View for Radarr {
    type V = AcquirerView;

    closed spec fn view(&self) -> AcquirerView {
        AcquirerView { id: self.id, url: self.url@, api_key: self.api_key@, is4k: self.is4k }
    }
}

impl Radarr {
    /// The descriptor of the instance that the store holds under `id`.
    pub fn new(id: i32, url: &str, api_key: &str, is4k: bool) -> (r: Self)
        ensures
            r@ == (AcquirerView { id, url: url@, api_key: api_key@, is4k }),
    {
        Radarr { id, url: url.to_owned(), api_key: api_key.to_owned(), is4k }
    }

    pub fn id(&self) -> (r: i32)
        ensures
            r == self@.id,
    {
        self.id
    }

    pub fn url(&self) -> (r: &str)
        ensures
            r@ == self@.url,
    {
        self.url.as_str()
    }

    pub fn api_key(&self) -> (r: &str)
        ensures
            r@ == self@.api_key,
    {
        self.api_key.as_str()
    }

    pub fn is4k(&self) -> (r: bool)
        ensures
            r == self@.is4k,
    {
        self.is4k
    }

    /// The tier of the files that this instance holds.
    pub fn tier(&self) -> (r: QualityTier)
        ensures
            r == tier_of(self@.is4k),
    {
        if self.is4k {
            QualityTier::UltraHd
        } else {
            QualityTier::Hd
        }
    }

    /// The address of the instance's list of root folders.
    pub fn rootfolder_url(&self) -> (r: String)
        ensures
            r@ == self@.url + "/api/v3/rootfolder"@,
    {
        self.url.clone().concat("/api/v3/rootfolder")
    }

    /// The address of the instance's list of movies.
    pub fn movies_url(&self) -> (r: String)
        ensures
            r@ == self@.url + "/api/v3/movie"@,
    {
        self.url.clone().concat("/api/v3/movie")
    }

    /// Registers the root folders that the instance reports, in order: each
    /// is bound to the pool of exactly its free capacity, which is created
    /// where there is none.
    pub fn populate_paths(&self, root_folders: &Vec<RootFolder>, registry: &mut StorageRegistry) -> (r:
        Vec<RadarrPath>)
        requires
            old(registry).wf(),
            greatest_id(old(registry)@.disks) + root_folders.len() <= i32::MAX,
        ensures
            final(registry).wf(),
            final(registry)@ == registered_all(
                old(registry)@,
                Acquirer::Radarr,
                self@.id,
                folder_views(root_folders@),
            ),
            radarr_path_views(r@) == registered_bindings(
                old(registry)@,
                Acquirer::Radarr,
                self@.id,
                folder_views(root_folders@),
            ),
    {
        let mut paths: Vec<RadarrPath> = Vec::new();
        let ghost all = folder_views(root_folders@);
        let mut i: usize = 0;
        while i < root_folders.len()
            invariant
                i <= root_folders.len(),
                registry.wf(),
                all == folder_views(root_folders@),
                greatest_id(registry@.disks) <= greatest_id(old(registry)@.disks) + i,
                greatest_id(old(registry)@.disks) + root_folders.len() <= i32::MAX,
                registry@ == registered_all(
                    old(registry)@,
                    Acquirer::Radarr,
                    self@.id,
                    all.take(i as int),
                ),
                radarr_path_views(paths@) == registered_bindings(
                    old(registry)@,
                    Acquirer::Radarr,
                    self@.id,
                    all.take(i as int),
                ),
            decreases root_folders.len() - i,
        {
            proof {
                assert(all.take(i + 1).drop_last() =~= all.take(i as int));
            }
            let binding = registry.register_path(
                Acquirer::Radarr,
                self.id,
                root_folders[i].path.as_str(),
                root_folders[i].free_space,
            );
            paths.push(RadarrPath::from_binding(binding));
            i += 1;
        }
        assert(all.take(i as int) =~= all);
        paths
    }

    /// The source that this instance is for the reading of its documents.
    pub open spec fn source(&self) -> Source {
        Source::Radarr { is4k: self@.is4k }
    }

    /// Reads the movies that the instance holds a file of from the text of
    /// its list of movies.
    pub fn get_all_movies(&self, body: &str) -> (r: Result<Vec<Movie>, SyncError>)
        ensures
            match text_facts(self.source(), body@) {
                Some(facts) => r matches Ok(movies) && movie_views(movies@) == facts,
                None => r matches Err(e) && e == SyncError::UpstreamUnavailable,
            },
    {
        match read_facts_from_text(Source::Radarr { is4k: self.is4k }, body) {
            Ok(titles) => Ok(Movie::movies_of(&titles)),
            Err(e) => Err(e),
        }
    }

    /// Runs the acquisition pass of this instance over the catalog of
    /// movies, from the text of the instance's list of movies. A list that
    /// cannot be read leaves the catalog as it is.
    pub fn update_db_movies(&self, body: &str, catalog: &mut Catalog) -> (r: Result<
        SyncReport,
        SyncError,
    >)
        requires
            old(catalog).wf(),
        ensures
            final(catalog).wf(),
            match text_facts(self.source(), body@) {
                Some(facts) => r matches Ok(report) && (PassView {
                    rows: final(catalog)@,
                    report: report@,
                }) == acquire_all(old(catalog)@, facts, tier_of(self@.is4k)),
                None => {
                    &&& r matches Err(e) && e == SyncError::UpstreamUnavailable
                    &&& final(catalog)@ == old(catalog)@
                },
            },
    {
        match read_facts_from_text(Source::Radarr { is4k: self.is4k }, body) {
            Ok(titles) => Ok(catalog.sync_acquisition(&titles, self.tier())),
            Err(e) => Err(e),
        }
    }
}

} // verus!
