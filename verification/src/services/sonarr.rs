//! The series acquisition service.

use vstd::prelude::*;
use vstd::string::StringExecFns;
use crate::catalog::{acquire_all, Catalog, PassView, SyncReport};
use crate::error::SyncError;
use crate::facts::{read_facts_from_text, text_facts, Source};
use crate::services::radarr::{tier_of, AcquirerView};
use crate::services::serie::{serie_views, Serie};
use crate::services::path::SonarrPath;
use crate::storage::{
    folder_views, greatest_id, registered_all, registered_bindings, Acquirer, BindingView,
    RootFolder, StorageRegistry,
};
use crate::title::QualityTier;

verus! {

/// An instance of the series acquisition service.
#[derive(Debug)]
pub struct Sonarr {
    id: i32,
    url: String,
    api_key: String,
    is4k: bool,
}

/// The views of a run of series folders, in order.
pub open spec fn sonarr_path_views(paths: Seq<SonarrPath>) -> Seq<BindingView> {
    Seq::new(paths.len(), |i: int| paths[i]@)
}

impl View for Sonarr {
    type V = AcquirerView;

    closed spec fn view(&self) -> AcquirerView {
        AcquirerView { id: self.id, url: self.url@, api_key: self.api_key@, is4k: self.is4k }
    }
}

impl Sonarr {
    /// The descriptor of the instance that the store holds under `id`.
    pub fn new(id: i32, url: &str, api_key: &str, is4k: bool) -> (r: Self)
        ensures
            r@ == (AcquirerView { id, url: url@, api_key: api_key@, is4k }),
    {
        Sonarr { id, url: url.to_owned(), api_key: api_key.to_owned(), is4k }
    }

    pub fn id(&self) -> (r: i32)
        ensures
            r == self@.id,
    {
        self.id
    }

    pub fn url(&self) -> (r: &str)
        ensures
            r@ == self@.url,
    {
        self.url.as_str()
    }

    pub fn api_key(&self) -> (r: &str)
        ensures
            r@ == self@.api_key,
    {
        self.api_key.as_str()
    }

    pub fn is4k(&self) -> (r: bool)
        ensures
            r == self@.is4k,
    {
        self.is4k
    }

    /// The tier of the files that this instance holds.
    pub fn tier(&self) -> (r: QualityTier)
        ensures
            r == tier_of(self@.is4k),
    {
        if self.is4k {
            QualityTier::UltraHd
        } else {
            QualityTier::Hd
        }
    }

    /// The address of the instance's list of root folders.
    pub fn rootfolder_url(&self) -> (r: String)
        ensures
            r@ == self@.url + "/api/v3/rootfolder"@,
    {
        self.url.clone().concat("/api/v3/rootfolder")
    }

    /// The address of the instance's list of series.
    pub fn series_url(&self) -> (r: String)
        ensures
            r@ == self@.url + "/api/v3/series"@,
    {
        self.url.clone().concat("/api/v3/series")
    }

    /// Registers the root folders that the instance reports, in order: each
    /// is bound to the pool of exactly its free capacity, which is created
    /// where there is none.
    pub fn populate_paths(&self, root_folders: &Vec<RootFolder>, registry: &mut StorageRegistry) -> (r:
        Vec<SonarrPath>)
        requires
            old(registry).wf(),
            greatest_id(old(registry)@.disks) + root_folders.len() <= i32::MAX,
        ensures
            final(registry).wf(),
            final(registry)@ == registered_all(
                old(registry)@,
                Acquirer::Sonarr,
                self@.id,
                folder_views(root_folders@),
            ),
            sonarr_path_views(r@) == registered_bindings(
                old(registry)@,
                Acquirer::Sonarr,
                self@.id,
                folder_views(root_folders@),
            ),
    {
        let mut paths: Vec<SonarrPath> = Vec::new();
        let ghost all = folder_views(root_folders@);
        let mut i: usize = 0;
        while i < root_folders.len()
            invariant
                i <= root_folders.len(),
                registry.wf(),
                all == folder_views(root_folders@),
                greatest_id(registry@.disks) <= greatest_id(old(registry)@.disks) + i,
                greatest_id(old(registry)@.disks) + root_folders.len() <= i32::MAX,
                registry@ == registered_all(
                    old(registry)@,
                    Acquirer::Sonarr,
                    self@.id,
                    all.take(i as int),
                ),
                sonarr_path_views(paths@) == registered_bindings(
                    old(registry)@,
                    Acquirer::Sonarr,
                    self@.id,
                    all.take(i as int),
                ),
            decreases root_folders.len() - i,
        {
            proof {
                assert(all.take(i + 1).drop_last() =~= all.take(i as int));
            }
            let binding = registry.register_path(
                Acquirer::Sonarr,
                self.id,
                root_folders[i].path.as_str(),
                root_folders[i].free_space,
            );
            paths.push(SonarrPath::from_binding(binding));
            i += 1;
        }
        assert(all.take(i as int) =~= all);
        paths
    }

    /// The source that this instance is for the reading of its documents.
    pub open spec fn source(&self) -> Source {
        Source::Sonarr { is4k: self@.is4k }
    }

    /// Reads the series that the instance holds a file of from the text of
    /// its list of series.
    pub fn get_all_series(&self, body: &str) -> (r: Result<Vec<Serie>, SyncError>)
        ensures
            match text_facts(self.source(), body@) {
                Some(facts) => r matches Ok(series) && serie_views(series@) == facts,
                None => r matches Err(e) && e == SyncError::UpstreamUnavailable,
            },
    {
        match read_facts_from_text(Source::Sonarr { is4k: self.is4k }, body) {
            Ok(titles) => Ok(Serie::series_of(&titles)),
            Err(e) => Err(e),
        }
    }

    /// Runs the acquisition pass of this instance over the catalog of
    /// series, from the text of the instance's list of series. A list that
    /// cannot be read leaves the catalog as it is.
    pub fn update_db_series(&self, body: &str, catalog: &mut Catalog) -> (r: Result<
        SyncReport,
        SyncError,
    >)
        requires
            old(catalog).wf(),
        ensures
            final(catalog).wf(),
            match text_facts(self.source(), body@) {
                Some(facts) => r matches Ok(report) && (PassView {
                    rows: final(catalog)@,
                    report: report@,
                }) == acquire_all(old(catalog)@, facts, tier_of(self@.is4k)),
                None => {
                    &&& r matches Err(e) && e == SyncError::UpstreamUnavailable
                    &&& final(catalog)@ == old(catalog)@
                },
            },
    {
        match read_facts_from_text(Source::Sonarr { is4k: self.is4k }, body) {
            Ok(titles) => Ok(catalog.sync_acquisition(&titles, self.tier())),
            Err(e) => Err(e),
        }
    }
}

} // verus!
