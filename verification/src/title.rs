//! The canonical record of a title and the rules by which an inbound fact is
//! merged into it.

use vstd::prelude::*;

verus! {

/// The `last_view` of a title that was never played.
pub const NEVER_VIEWED: i32 = i32::MIN;

/// The quality in which an acquisition service holds its files.
#[derive(Clone, Copy, Debug, PartialEq, Eq, Structural)]
pub enum QualityTier {
    Hd,
    UltraHd,
}

/// The single stored representation of a movie or a series.
#[derive(Debug)]
pub struct CanonicalTitle {
    /// The catalog id that identifies the title; it never changes.
    pub external_id: i32,
    pub name: String,
    pub path_hd: String,
    pub path_4k: String,
    /// The key under which the playback system knows the title; empty until observed.
    pub playback_key: String,
    /// Unix time of the last observed playback, or `NEVER_VIEWED`.
    pub last_view: i32,
    pub protected: bool,
}

/// What a `CanonicalTitle` holds, as mathematical values.
pub struct TitleView {
    pub external_id: i32,
    pub name: Seq<char>,
    pub path_hd: Seq<char>,
    pub path_4k: Seq<char>,
    pub playback_key: Seq<char>,
    pub last_view: i32,
    pub protected: bool,
}

impl View for CanonicalTitle {
    type V = TitleView;

    open spec fn view(&self) -> TitleView {
        TitleView {
            external_id: self.external_id,
            name: self.name@,
            path_hd: self.path_hd@,
            path_4k: self.path_4k@,
            playback_key: self.playback_key@,
            last_view: self.last_view,
            protected: self.protected,
        }
    }
}

/// The record of a title of which nothing is known but its id.
pub open spec fn blank_title(external_id: i32) -> TitleView {
    TitleView {
        external_id,
        name: Seq::empty(),
        path_hd: Seq::empty(),
        path_4k: Seq::empty(),
        playback_key: Seq::empty(),
        last_view: NEVER_VIEWED,
        protected: false,
    }
}

/// The later of two playback times.
pub open spec fn later(a: i32, b: i32) -> i32 {
    if b > a {
        b
    } else {
        a
    }
}

/// The record that results from merging `inbound` into `canon`.
///
/// The name is taken from the inbound fact. A path is taken from it only for
/// the tier that the fact comes from. A playback key is taken only if the fact
/// has one. The last view only moves forward. Identity and protection stay.
pub open spec fn merged(canon: TitleView, inbound: TitleView, tier: Option<QualityTier>) -> TitleView {
    TitleView {
        external_id: canon.external_id,
        name: inbound.name,
        path_hd: if tier == Some(QualityTier::Hd) {
            inbound.path_hd
        } else {
            canon.path_hd
        },
        path_4k: if tier == Some(QualityTier::UltraHd) {
            inbound.path_4k
        } else {
            canon.path_4k
        },
        playback_key: if inbound.playback_key.len() > 0 {
            inbound.playback_key
        } else {
            canon.playback_key
        },
        last_view: later(canon.last_view, inbound.last_view),
        protected: canon.protected,
    }
}

/// The record that results from taking a fact of the discovery service into
/// `canon`. Such a fact tells the playback key and the time at which the title
/// was first seen, and nothing else: a playback key is taken only if the fact
/// has one, the last view only moves forward, and the name, both paths,
/// identity and protection stay.
pub open spec fn refreshed(canon: TitleView, inbound: TitleView) -> TitleView {
    TitleView {
        playback_key: if inbound.playback_key.len() > 0 {
            inbound.playback_key
        } else {
            canon.playback_key
        },
        last_view: later(canon.last_view, inbound.last_view),
        ..canon
    }
}

/// The record after a playback at `seen_at` was observed: only `last_view`
/// can change, and only forward.
pub open spec fn viewed(canon: TitleView, seen_at: i32) -> TitleView {
    TitleView { last_view: later(canon.last_view, seen_at), ..canon }
}

/// A title is a deletion candidate when it is not protected and was last
/// viewed before the threshold.
pub open spec fn is_candidate(t: TitleView, threshold: i32) -> bool {
    !t.protected && t.last_view < threshold
}

impl Clone for CanonicalTitle {
    fn clone(&self) -> (r: Self)
        ensures
            r@ == self@,
    {
        CanonicalTitle {
            external_id: self.external_id,
            name: self.name.clone(),
            path_hd: self.path_hd.clone(),
            path_4k: self.path_4k.clone(),
            playback_key: self.playback_key.clone(),
            last_view: self.last_view,
            protected: self.protected,
        }
    }
}

impl CanonicalTitle {
    /// A record of which nothing is known but its id.
    pub fn blank(external_id: i32) -> (r: Self)
        ensures
            r@ == blank_title(external_id),
    {
        CanonicalTitle {
            external_id,
            name: String::new(),
            path_hd: String::new(),
            path_4k: String::new(),
            playback_key: String::new(),
            last_view: NEVER_VIEWED,
            protected: false,
        }
    }

    /// Merges an inbound fact into this record. The result is to be stored by the caller.
    pub fn merge(&self, inbound: &CanonicalTitle, tier: Option<QualityTier>) -> (r: Self)
        ensures
            r@ == merged(self@, inbound@, tier),
    {
        let from_hd = match tier {
            Some(QualityTier::Hd) => true,
            _ => false,
        };
        let from_4k = match tier {
            Some(QualityTier::UltraHd) => true,
            _ => false,
        };
        CanonicalTitle {
            external_id: self.external_id,
            name: inbound.name.clone(),
            path_hd: if from_hd {
                inbound.path_hd.clone()
            } else {
                self.path_hd.clone()
            },
            path_4k: if from_4k {
                inbound.path_4k.clone()
            } else {
                self.path_4k.clone()
            },
            playback_key: if inbound.playback_key.as_str().is_empty() {
                self.playback_key.clone()
            } else {
                inbound.playback_key.clone()
            },
            last_view: if inbound.last_view > self.last_view {
                inbound.last_view
            } else {
                self.last_view
            },
            protected: self.protected,
        }
    }

    /// Takes a fact of the discovery service into this record. The result is
    /// to be stored by the caller.
    pub fn refresh(&self, inbound: &CanonicalTitle) -> (r: Self)
        ensures
            r@ == refreshed(self@, inbound@),
    {
        let mut r = self.clone();
        if !inbound.playback_key.as_str().is_empty() {
            r.playback_key = inbound.playback_key.clone();
        }
        if inbound.last_view > self.last_view {
            r.last_view = inbound.last_view;
        }
        r
    }

    /// Records a playback observed at `seen_at`.
    pub fn observe(&self, seen_at: i32) -> (r: Self)
        ensures
            r@ == viewed(self@, seen_at),
    {
        let mut r = self.clone();
        if seen_at > self.last_view {
            r.last_view = seen_at;
        }
        r
    }

    /// Whether two records hold the same values.
    pub fn same_as(&self, other: &CanonicalTitle) -> (r: bool)
        ensures
            r == (self@ == other@),
    {
        self.external_id == other.external_id && self.name == other.name && self.path_hd
            == other.path_hd && self.path_4k == other.path_4k && self.playback_key
            == other.playback_key && self.last_view == other.last_view && self.protected
            == other.protected
    }

    /// Whether the retention rule selects this record for deletion.
    pub fn is_deletion_candidate(&self, threshold: i32) -> (r: bool)
        ensures
            r == is_candidate(self@, threshold),
    {
        !self.protected && self.last_view < threshold
    }
}

} // verus!
