//! Playback histories: the entries that the watch-activity services report,
//! and what replaying them does to the catalogs.

use vstd::prelude::*;
use crate::catalog::{
    advanced, find, pass_start, watch, Applied, Catalog, Change, Outcome, PassView, RefView,
    SyncReport, TitleRef,
};
use crate::error::SyncError;
use crate::title::TitleView;

verus! {

/// The two kinds of media, each with a catalog of its own.
#[derive(Clone, Copy, Debug, PartialEq, Eq, Structural)]
pub enum MediaKind {
    Movie,
    Series,
}

/// One entry of a playback history, as it was read.
#[derive(Debug)]
pub enum PlaybackRow {
    /// An entry that does not say which title was played.
    Malformed,
    /// A playback of the title that `reference` names. `seen_at` is absent
    /// where the entry's time cannot be read.
    Seen { kind: MediaKind, reference: TitleRef, seen_at: Option<i32> },
}

/// What a `PlaybackRow` holds.
pub enum RowView {
    Malformed,
    Seen { kind: MediaKind, reference: RefView, seen_at: Option<i32> },
}

impl View for PlaybackRow {
    type V = RowView;

    open spec fn view(&self) -> RowView {
        match self {
            PlaybackRow::Malformed => RowView::Malformed,
            PlaybackRow::Seen { kind, reference, seen_at } => RowView::Seen {
                kind: *kind,
                reference: reference@,
                seen_at: *seen_at,
            },
        }
    }
}

/// The views of a run of history entries, in order.
pub open spec fn row_views(history: Seq<PlaybackRow>) -> Seq<RowView> {
    Seq::new(history.len(), |i: int| history[i]@)
}

/// The effect of one playback whose time may be unreadable. A playback of a
/// title that the catalog does not hold is skipped, whatever its time. A
/// playback of a title that it holds needs its time: without it there is no
/// effect to speak of, and the data is malformed.
pub open spec fn replay(rows: Seq<TitleView>, r: RefView, seen_at: Option<i32>) -> Option<Change> {
    match find(rows, r) {
        None => Some(Change { rows, outcome: Outcome::Skipped, written: None }),
        Some(i) => match seen_at {
            Some(t) => Some(watch(rows, r, t)),
            None => None,
        },
    }
}

/// The state of a replay over one catalog: the pass so far, and whether it
/// met malformed data. A replay that failed does nothing more.
pub struct Replay {
    pub pass: PassView,
    pub failed: bool,
}

/// A replay after one more entry.
pub open spec fn replay_step(s: Replay, row: RowView) -> Replay {
    if s.failed {
        s
    } else {
        match row {
            RowView::Malformed => Replay { pass: s.pass, failed: true },
            RowView::Seen { kind, reference, seen_at } => match replay(
                s.pass.rows,
                reference,
                seen_at,
            ) {
                Some(change) => Replay { pass: advanced(s.pass, change), failed: false },
                None => Replay { pass: s.pass, failed: true },
            },
        }
    }
}

/// A replay of a history over one catalog, entry by entry.
pub open spec fn replay_all(rows: Seq<TitleView>, history: Seq<RowView>) -> Replay
    decreases history.len(),
{
    if history.len() == 0 {
        Replay { pass: pass_start(rows), failed: false }
    } else {
        replay_step(replay_all(rows, history.drop_last()), history.last())
    }
}

/// The state of a replay over the catalogs of both kinds.
pub struct TwinReplay {
    pub movies: PassView,
    pub series: PassView,
    pub failed: bool,
}

/// A replay over both catalogs after one more entry: the entry is replayed
/// over the catalog of its kind.
pub open spec fn twin_step(s: TwinReplay, row: RowView) -> TwinReplay {
    if s.failed {
        s
    } else {
        match row {
            RowView::Malformed => TwinReplay { failed: true, ..s },
            RowView::Seen { kind, reference, seen_at } => match kind {
                MediaKind::Movie => match replay(s.movies.rows, reference, seen_at) {
                    Some(change) => TwinReplay { movies: advanced(s.movies, change), ..s },
                    None => TwinReplay { failed: true, ..s },
                },
                MediaKind::Series => match replay(s.series.rows, reference, seen_at) {
                    Some(change) => TwinReplay { series: advanced(s.series, change), ..s },
                    None => TwinReplay { failed: true, ..s },
                },
            },
        }
    }
}

/// A replay of a history over both catalogs, entry by entry.
pub open spec fn twin_replay(movies: Seq<TitleView>, series: Seq<TitleView>, history: Seq<RowView>) -> TwinReplay
    decreases history.len(),
{
    if history.len() == 0 {
        TwinReplay { movies: pass_start(movies), series: pass_start(series), failed: false }
    } else {
        twin_step(twin_replay(movies, series, history.drop_last()), history.last())
    }
}

/// What a replay over one catalog did. After a failure the report tells what
/// was done before it, which stands.
#[derive(Debug)]
pub struct ReplayOutcome {
    pub report: SyncReport,
    pub failure: Option<SyncError>,
}

/// What a replay over both catalogs did.
#[derive(Debug)]
pub struct TwinOutcome {
    pub movies: SyncReport,
    pub series: SyncReport,
    pub failure: Option<SyncError>,
}

/// The failure that a replay reports.
pub open spec fn failure_of(failed: bool) -> Option<SyncError> {
    if failed {
        Some(SyncError::UpstreamUnavailable)
    } else {
        None
    }
}

impl Catalog {
    /// Applies one playback whose time may be unreadable.
    pub fn apply_playback(&mut self, reference: &TitleRef, seen_at: Option<i32>) -> (r: Result<
        Applied,
        SyncError,
    >)
        requires
            old(self).wf(),
        ensures
            final(self).wf(),
            match replay(old(self)@, reference@, seen_at) {
                Some(change) => {
                    &&& final(self)@ == change.rows
                    &&& r matches Ok(applied) && applied.tells(change)
                },
                None => {
                    &&& final(self)@ == old(self)@
                    &&& r matches Err(e) && e == SyncError::UpstreamUnavailable
                },
            },
    {
        match seen_at {
            Some(t) => Ok(self.apply_activity(reference, t)),
            None => match self.position(reference) {
                Some(_) => Err(SyncError::UpstreamUnavailable),
                None => Ok(Applied { outcome: Outcome::Skipped, written: None }),
            },
        }
    }

    /// Replays a playback history over this catalog, entry by entry, up to
    /// the first entry that is malformed. Every entry is taken to be about a
    /// title of this catalog, whatever kind it names.
    pub fn replay(&mut self, history: &Vec<PlaybackRow>) -> (r: ReplayOutcome)
        requires
            old(self).wf(),
        ensures
            final(self).wf(),
            final(self)@ == replay_all(old(self)@, row_views(history@)).pass.rows,
            r.report@ == replay_all(old(self)@, row_views(history@)).pass.report,
            r.failure == failure_of(replay_all(old(self)@, row_views(history@)).failed),
    {
        let mut report = SyncReport::new();
        let mut failed = false;
        let ghost all = row_views(history@);
        let mut i: usize = 0;
        while i < history.len()
            invariant
                i <= history.len(),
                self.wf(),
                all == row_views(history@),
                report.handled() <= i,
                (Replay { pass: PassView { rows: self@, report: report@ }, failed }) == replay_all(
                    old(self)@,
                    all.take(i as int),
                ),
            decreases history.len() - i,
        {
            proof {
                assert(all.take(i + 1).drop_last() =~= all.take(i as int));
            }
            if !failed {
                match &history[i] {
                    PlaybackRow::Malformed => {
                        failed = true;
                    },
                    PlaybackRow::Seen { kind, reference, seen_at } => {
                        let ghost before = self@;
                        match self.apply_playback(reference, *seen_at) {
                            Ok(applied) => {
                                report.tally(
                                    applied,
                                    Ghost(replay(before, reference@, *seen_at).unwrap()),
                                );
                            },
                            Err(_) => {
                                failed = true;
                            },
                        }
                    },
                }
            }
            i += 1;
        }
        assert(all.take(i as int) =~= all);
        ReplayOutcome {
            report,
            failure: if failed {
                Some(SyncError::UpstreamUnavailable)
            } else {
                None
            },
        }
    }
}

/// Replays a playback history over the catalogs of both kinds, entry by
/// entry, up to the first entry that is malformed. Each entry is replayed
/// over the catalog of its kind.
pub fn replay_history(movies: &mut Catalog, series: &mut Catalog, history: &Vec<PlaybackRow>) -> (r:
    TwinOutcome)
    requires
        old(movies).wf(),
        old(series).wf(),
    ensures
        final(movies).wf(),
        final(series).wf(),
        final(movies)@ == twin_replay(old(movies)@, old(series)@, row_views(history@)).movies.rows,
        final(series)@ == twin_replay(old(movies)@, old(series)@, row_views(history@)).series.rows,
        r.movies@ == twin_replay(old(movies)@, old(series)@, row_views(history@)).movies.report,
        r.series@ == twin_replay(old(movies)@, old(series)@, row_views(history@)).series.report,
        r.failure == failure_of(
            twin_replay(old(movies)@, old(series)@, row_views(history@)).failed,
        ),
{
    let mut movie_report = SyncReport::new();
    let mut series_report = SyncReport::new();
    let mut failed = false;
    let ghost all = row_views(history@);
    let mut i: usize = 0;
    while i < history.len()
        invariant
            i <= history.len(),
            movies.wf(),
            series.wf(),
            all == row_views(history@),
            movie_report.handled() <= i,
            series_report.handled() <= i,
            (TwinReplay {
                movies: PassView { rows: movies@, report: movie_report@ },
                series: PassView { rows: series@, report: series_report@ },
                failed,
            }) == twin_replay(old(movies)@, old(series)@, all.take(i as int)),
        decreases history.len() - i,
    {
        proof {
            assert(all.take(i + 1).drop_last() =~= all.take(i as int));
        }
        if !failed {
            match &history[i] {
                PlaybackRow::Malformed => {
                    failed = true;
                },
                PlaybackRow::Seen { kind, reference, seen_at } => {
                    match kind {
                        MediaKind::Movie => {
                            let ghost before = movies@;
                            match movies.apply_playback(reference, *seen_at) {
                                Ok(applied) => {
                                    movie_report.tally(
                                        applied,
                                        Ghost(replay(before, reference@, *seen_at).unwrap()),
                                    );
                                },
                                Err(_) => {
                                    failed = true;
                                },
                            }
                        },
                        MediaKind::Series => {
                            let ghost before = series@;
                            match series.apply_playback(reference, *seen_at) {
                                Ok(applied) => {
                                    series_report.tally(
                                        applied,
                                        Ghost(replay(before, reference@, *seen_at).unwrap()),
                                    );
                                },
                                Err(_) => {
                                    failed = true;
                                },
                            }
                        },
                    }
                },
            }
        }
        i += 1;
    }
    assert(all.take(i as int) =~= all);
    TwinOutcome {
        movies: movie_report,
        series: series_report,
        failure: if failed {
            Some(SyncError::UpstreamUnavailable)
        } else {
            None
        },
    }
}

} // verus!
