//! Series, as callers of the catalog see them.

use vstd::prelude::*;
use vstd::std_specs::cmp::PartialEqSpecImpl;
use crate::catalog::{candidates, find, lemma_find, stored, title_views, Catalog, RefView, TitleRef};
use crate::error::SyncError;
use crate::activity::MediaKind;
use crate::facts::{acquired_entry, read_acquired};
use crate::json::{json_content, JsonTree};
use crate::title::{CanonicalTitle, TitleView};

verus! {

/// A series of the catalog. Its identity is its TVDB id.
#[derive(Debug)]
pub struct Serie {
    pub tvdb_id: i32,
    pub name: String,
    pub path_hd: String,
    pub path_4k: String,
    pub rating_key: String,
    pub last_view: i32,
    pub protected: bool,
}

impl View for Serie {
    type V = TitleView;

    open spec fn view(&self) -> TitleView {
        TitleView {
            external_id: self.tvdb_id,
            name: self.name@,
            path_hd: self.path_hd@,
            path_4k: self.path_4k@,
            playback_key: self.rating_key@,
            last_view: self.last_view,
            protected: self.protected,
        }
    }
}

/// The views of a run of series, in order.
pub open spec fn serie_views(series: Seq<Serie>) -> Seq<TitleView> {
    Seq::new(series.len(), |i: int| series[i]@)
}

/// The series that an entry of a series service's list describes, if the entry
/// has an integer `tvdbId`, a `title` and a `rootFolderPath`.
pub open spec fn sonarr_serie(entry: JsonTree, is4k: bool) -> Option<TitleView> {
    acquired_entry(entry, MediaKind::Series, is4k)
}

impl Serie {
    /// The series that a canonical record stands for.
    pub fn from_title(title: &CanonicalTitle) -> (r: Self)
        ensures
            r@ == title@,
    {
        Serie {
            tvdb_id: title.external_id,
            name: title.name.clone(),
            path_hd: title.path_hd.clone(),
            path_4k: title.path_4k.clone(),
            rating_key: title.playback_key.clone(),
            last_view: title.last_view,
            protected: title.protected,
        }
    }

    /// The canonical record of this series.
    pub fn to_title(&self) -> (r: CanonicalTitle)
        ensures
            r@ == self@,
    {
        CanonicalTitle {
            external_id: self.tvdb_id,
            name: self.name.clone(),
            path_hd: self.path_hd.clone(),
            path_4k: self.path_4k.clone(),
            playback_key: self.rating_key.clone(),
            last_view: self.last_view,
            protected: self.protected,
        }
    }

    /// The canonical records of a run of series, in order.
    pub fn titles_of(series: &Vec<Serie>) -> (r: Vec<CanonicalTitle>)
        ensures
            title_views(r@) == serie_views(series@),
    {
        let mut out: Vec<CanonicalTitle> = Vec::new();
        let mut i: usize = 0;
        while i < series.len()
            invariant
                i <= series.len(),
                out.len() == i,
                forall|k: int| 0 <= k < i ==> out[k]@ == series[k]@,
            decreases series.len() - i,
        {
            out.push(series[i].to_title());
            i += 1;
        }
        out
    }

    /// The series that a run of canonical records stands for, in order.
    pub fn series_of(titles: &Vec<CanonicalTitle>) -> (r: Vec<Serie>)
        ensures
            serie_views(r@) == title_views(titles@),
    {
        let mut out: Vec<Serie> = Vec::new();
        let mut i: usize = 0;
        while i < titles.len()
            invariant
                i <= titles.len(),
                out.len() == i,
                forall|k: int| 0 <= k < i ==> out[k]@ == titles[k]@,
            decreases titles.len() - i,
        {
            out.push(Serie::from_title(&titles[i]));
            i += 1;
        }
        out
    }

    /// Stores the series in the catalog under its id, in place of the record
    /// that the catalog has under that id, if it has one.
    pub fn save(&self, catalog: &mut Catalog)
        requires
            old(catalog).wf(),
        ensures
            final(catalog).wf(),
            final(catalog)@ == stored(old(catalog)@, self@),
    {
        catalog.save(self.to_title());
    }

    /// All series of the catalog, in catalog order.
    pub fn get_all(catalog: &Catalog) -> (r: Vec<Serie>)
        ensures
            serie_views(r@) == catalog@,
    {
        Serie::series_of(catalog.rows())
    }

    /// Reads a series from an entry of a series service's list. An entry that
    /// lacks one of the values is malformed upstream data.
    pub fn from_sonarr_json(json: &serde_json::Value, is4k: bool) -> (r: Result<Self, SyncError>)
        ensures
            match sonarr_serie(json_content(*json), is4k) {
                Some(t) => r matches Ok(serie) && serie@ == t,
                None => r == Err::<Serie, SyncError>(SyncError::UpstreamUnavailable),
            },
    {
        match read_acquired(json, MediaKind::Series, is4k) {
            Some(title) => Ok(Serie::from_title(&title)),
            None => Err(SyncError::UpstreamUnavailable),
        }
    }

    fn found(catalog: &Catalog, reference: &TitleRef) -> (r: Result<Self, SyncError>)
        ensures
            match find(catalog@, reference@) {
                Some(i) => r matches Ok(serie) && serie@ == catalog@[i],
                None => r == Err::<Serie, SyncError>(SyncError::NotFound),
            },
    {
        match catalog.position(reference) {
            Some(i) => {
                proof {
                    lemma_find(catalog@, reference@);
                }
                Ok(Serie::from_title(catalog.row(i)))
            },
            None => Err(SyncError::NotFound),
        }
    }

    /// The first series whose name matches a free-text title, case and
    /// surrounding blanks apart.
    pub fn get_by_title(catalog: &Catalog, title: &str) -> (r: Result<Self, SyncError>)
        ensures
            match find(catalog@, RefView::Name(title@)) {
                Some(i) => r matches Ok(serie) && serie@ == catalog@[i],
                None => r == Err::<Serie, SyncError>(SyncError::NotFound),
            },
    {
        Serie::found(catalog, &TitleRef::Name(title.to_owned()))
    }

    /// The series to delete: those that are not protected and were last
    /// viewed before `last_view`, in catalog order.
    pub fn get_series_to_delete(catalog: &Catalog, last_view: i32) -> (r: Vec<Serie>)
        ensures
            serie_views(r@) == candidates(catalog@, last_view),
    {
        Serie::series_of(&catalog.classify(last_view))
    }

    /// The first series that the playback system knows under a key.
    pub fn get_by_rating_key(catalog: &Catalog, rating_key: &str) -> (r: Result<Self, SyncError>)
        ensures
            match find(catalog@, RefView::PlaybackKey(rating_key@)) {
                Some(i) => r matches Ok(serie) && serie@ == catalog@[i],
                None => r == Err::<Serie, SyncError>(SyncError::NotFound),
            },
    {
        Serie::found(catalog, &TitleRef::PlaybackKey(rating_key.to_owned()))
    }
}

impl PartialEq for Serie {
    /// Two series are the same series when they have the same TVDB id.
    fn eq(&self, other: &Self) -> (r: bool) {
        self.tvdb_id == other.tvdb_id
    }
}

impl PartialEqSpecImpl for Serie {
    open spec fn obeys_eq_spec() -> bool {
        true
    }

    open spec fn eq_spec(&self, other: &Self) -> bool {
        self.tvdb_id == other.tvdb_id
    }
}

} // verus!
