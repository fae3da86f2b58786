//! Movies, as callers of the catalog see them.

use vstd::prelude::*;
use vstd::std_specs::cmp::PartialEqSpecImpl;
use crate::catalog::{candidates, find, lemma_find, stored, title_views, Catalog, RefView, TitleRef};
use crate::error::SyncError;
use crate::activity::MediaKind;
use crate::facts::{acquired_entry, read_acquired};
use crate::json::{json_content, JsonTree};
use crate::title::{CanonicalTitle, TitleView};

verus! {

/// A movie of the catalog. Its identity is its TMDB id.
#[derive(Debug)]
pub struct Movie {
    pub tmdb_id: i32,
    pub name: String,
    pub path_hd: String,
    pub path_4k: String,
    pub rating_key: String,
    pub last_view: i32,
    pub protected: bool,
}

impl View for Movie {
    type V = TitleView;

    open spec fn view(&self) -> TitleView {
        TitleView {
            external_id: self.tmdb_id,
            name: self.name@,
            path_hd: self.path_hd@,
            path_4k: self.path_4k@,
            playback_key: self.rating_key@,
            last_view: self.last_view,
            protected: self.protected,
        }
    }
}

/// The views of a run of movies, in order.
pub open spec fn movie_views(movies: Seq<Movie>) -> Seq<TitleView> {
    Seq::new(movies.len(), |i: int| movies[i]@)
}

/// The movie that an entry of a movie service's list describes, if the entry
/// has an integer `tmdbId`, a `title` and a `rootFolderPath`.
pub open spec fn radarr_movie(entry: JsonTree, is4k: bool) -> Option<TitleView> {
    acquired_entry(entry, MediaKind::Movie, is4k)
}

impl Movie {
    /// The movie that a canonical record stands for.
    pub fn from_title(title: &CanonicalTitle) -> (r: Self)
        ensures
            r@ == title@,
    {
        Movie {
            tmdb_id: title.external_id,
            name: title.name.clone(),
            path_hd: title.path_hd.clone(),
            path_4k: title.path_4k.clone(),
            rating_key: title.playback_key.clone(),
            last_view: title.last_view,
            protected: title.protected,
        }
    }

    /// The canonical record of this movie.
    pub fn to_title(&self) -> (r: CanonicalTitle)
        ensures
            r@ == self@,
    {
        CanonicalTitle {
            external_id: self.tmdb_id,
            name: self.name.clone(),
            path_hd: self.path_hd.clone(),
            path_4k: self.path_4k.clone(),
            playback_key: self.rating_key.clone(),
            last_view: self.last_view,
            protected: self.protected,
        }
    }

    /// The canonical records of a run of movies, in order.
    pub fn titles_of(movies: &Vec<Movie>) -> (r: Vec<CanonicalTitle>)
        ensures
            title_views(r@) == movie_views(movies@),
    {
        let mut out: Vec<CanonicalTitle> = Vec::new();
        let mut i: usize = 0;
        while i < movies.len()
            invariant
                i <= movies.len(),
                out.len() == i,
                forall|k: int| 0 <= k < i ==> out[k]@ == movies[k]@,
            decreases movies.len() - i,
        {
            out.push(movies[i].to_title());
            i += 1;
        }
        out
    }

    /// The movies that a run of canonical records stands for, in order.
    pub fn movies_of(titles: &Vec<CanonicalTitle>) -> (r: Vec<Movie>)
        ensures
            movie_views(r@) == title_views(titles@),
    {
        let mut out: Vec<Movie> = Vec::new();
        let mut i: usize = 0;
        while i < titles.len()
            invariant
                i <= titles.len(),
                out.len() == i,
                forall|k: int| 0 <= k < i ==> out[k]@ == titles[k]@,
            decreases titles.len() - i,
        {
            out.push(Movie::from_title(&titles[i]));
            i += 1;
        }
        out
    }

    /// Stores the movie in the catalog under its id, in place of the record
    /// that the catalog has under that id, if it has one.
    pub fn save(&self, catalog: &mut Catalog)
        requires
            old(catalog).wf(),
        ensures
            final(catalog).wf(),
            final(catalog)@ == stored(old(catalog)@, self@),
    {
        catalog.save(self.to_title());
    }

    /// All movies of the catalog, in catalog order.
    pub fn get_all(catalog: &Catalog) -> (r: Vec<Movie>)
        ensures
            movie_views(r@) == catalog@,
    {
        Movie::movies_of(catalog.rows())
    }

    /// Reads a movie from an entry of a movie service's list. An entry that
    /// lacks one of the values is malformed upstream data.
    pub fn from_radarr_json(json: &serde_json::Value, is4k: bool) -> (r: Result<Self, SyncError>)
        ensures
            match radarr_movie(json_content(*json), is4k) {
                Some(t) => r matches Ok(movie) && movie@ == t,
                None => r == Err::<Movie, SyncError>(SyncError::UpstreamUnavailable),
            },
    {
        match read_acquired(json, MediaKind::Movie, is4k) {
            Some(title) => Ok(Movie::from_title(&title)),
            None => Err(SyncError::UpstreamUnavailable),
        }
    }

    fn found(catalog: &Catalog, reference: &TitleRef) -> (r: Result<Self, SyncError>)
        ensures
            match find(catalog@, reference@) {
                Some(i) => r matches Ok(movie) && movie@ == catalog@[i],
                None => r == Err::<Movie, SyncError>(SyncError::NotFound),
            },
    {
        match catalog.position(reference) {
            Some(i) => {
                proof {
                    lemma_find(catalog@, reference@);
                }
                Ok(Movie::from_title(catalog.row(i)))
            },
            None => Err(SyncError::NotFound),
        }
    }

    /// The first movie whose name matches a free-text title, case and
    /// surrounding blanks apart.
    pub fn get_by_title(catalog: &Catalog, title: &str) -> (r: Result<Self, SyncError>)
        ensures
            match find(catalog@, RefView::Name(title@)) {
                Some(i) => r matches Ok(movie) && movie@ == catalog@[i],
                None => r == Err::<Movie, SyncError>(SyncError::NotFound),
            },
    {
        Movie::found(catalog, &TitleRef::Name(title.to_owned()))
    }

    /// The movies to delete: those that are not protected and were last
    /// viewed before `last_view`, in catalog order.
    pub fn get_movies_to_delete(catalog: &Catalog, last_view: i32) -> (r: Vec<Movie>)
        ensures
            movie_views(r@) == candidates(catalog@, last_view),
    {
        Movie::movies_of(&catalog.classify(last_view))
    }

    /// The first movie that the playback system knows under a key.
    pub fn get_by_rating_key(catalog: &Catalog, rating_key: &str) -> (r: Result<Self, SyncError>)
        ensures
            match find(catalog@, RefView::PlaybackKey(rating_key@)) {
                Some(i) => r matches Ok(movie) && movie@ == catalog@[i],
                None => r == Err::<Movie, SyncError>(SyncError::NotFound),
            },
    {
        Movie::found(catalog, &TitleRef::PlaybackKey(rating_key.to_owned()))
    }
}

impl PartialEq for Movie {
    /// Two movies are the same movie when they have the same TMDB id.
    fn eq(&self, other: &Self) -> (r: bool) {
        self.tmdb_id == other.tmdb_id
    }
}

impl PartialEqSpecImpl for Movie {
    open spec fn obeys_eq_spec() -> bool {
        true
    }

    open spec fn eq_spec(&self, other: &Self) -> bool {
        self.tmdb_id == other.tmdb_id
    }
}

} // verus!
