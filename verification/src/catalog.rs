//! The catalog of canonical records: how an inbound fact finds its record,
//! what a sync pass does to the records, and which records the retention
//! rule selects.

use vstd::prelude::*;
use crate::text::{normalize, normalized, same_chars, titles_match};
use crate::title::{
    blank_title, is_candidate, merged, refreshed, viewed, CanonicalTitle, QualityTier, TitleView,
};

verus! {

/// How an inbound fact names the title that it is about.
#[derive(Debug)]
pub enum TitleRef {
    /// The catalog id: the strong key.
    ExternalId(i32),
    /// The key that the playback system issued.
    PlaybackKey(String),
    /// A free-text title, as an activity log gives it.
    Name(String),
}

/// What a `TitleRef` holds.
pub enum RefView {
    ExternalId(i32),
    PlaybackKey(Seq<char>),
    Name(Seq<char>),
}

impl View for TitleRef {
    type V = RefView;

    open spec fn view(&self) -> RefView {
        match self {
            TitleRef::ExternalId(id) => RefView::ExternalId(*id),
            TitleRef::PlaybackKey(key) => RefView::PlaybackKey(key@),
            TitleRef::Name(name) => RefView::Name(name@),
        }
    }
}

/// The views of a run of records, in order.
pub open spec fn title_views(rows: Seq<CanonicalTitle>) -> Seq<TitleView> {
    Seq::new(rows.len(), |i: int| rows[i]@)
}

/// Whether the record `t` is the one that `r` names. An id and a playback key
/// must be equal; a name is compared in normalized form.
pub open spec fn answers_to(t: TitleView, r: RefView) -> bool {
    match r {
        RefView::ExternalId(id) => t.external_id == id,
        RefView::PlaybackKey(key) => t.playback_key == key,
        RefView::Name(name) => titles_match(t.name, name),
    }
}

/// The position of the first record at or after `from` that answers to `r`.
pub open spec fn find_from(rows: Seq<TitleView>, r: RefView, from: int) -> Option<int>
    decreases rows.len() - from,
{
    if from < 0 || from >= rows.len() {
        None
    } else if answers_to(rows[from], r) {
        Some(from)
    } else {
        find_from(rows, r, from + 1)
    }
}

/// The position of the first record that answers to `r`.
pub open spec fn find(rows: Seq<TitleView>, r: RefView) -> Option<int> {
    find_from(rows, r, 0)
}

/// No two records have the same id.
pub open spec fn distinct_ids(rows: Seq<TitleView>) -> bool {
    forall|i: int, j: int|
        0 <= i < j < rows.len() ==> (#[trigger] rows[i]).external_id != (
        #[trigger] rows[j]).external_id
}

/// What `find_from` returns is the first answering position, and it returns
/// nothing only where no record answers.
pub proof fn lemma_find_from(rows: Seq<TitleView>, r: RefView, from: int)
    requires
        0 <= from,
    ensures
        match find_from(rows, r, from) {
            Some(i) => from <= i < rows.len() && answers_to(rows[i], r) && forall|j: int|
                from <= j < i ==> !answers_to(#[trigger] rows[j], r),
            None => forall|j: int| from <= j < rows.len() ==> !answers_to(#[trigger] rows[j], r),
        },
    decreases rows.len() - from,
{
    if from < rows.len() && !answers_to(rows[from], r) {
        lemma_find_from(rows, r, from + 1);
    }
}

/// `find` returns the first answering position, and nothing only where no
/// record answers.
pub proof fn lemma_find(rows: Seq<TitleView>, r: RefView)
    ensures
        match find(rows, r) {
            Some(i) => 0 <= i < rows.len() && answers_to(rows[i], r) && forall|j: int|
                0 <= j < i ==> !answers_to(#[trigger] rows[j], r),
            None => forall|j: int| 0 <= j < rows.len() ==> !answers_to(#[trigger] rows[j], r),
        },
{
    lemma_find_from(rows, r, 0);
}

/// A position is the one that `find` returns if its record answers and none before it does.
pub proof fn lemma_find_is(rows: Seq<TitleView>, r: RefView, i: int)
    requires
        0 <= i < rows.len(),
        answers_to(rows[i], r),
        forall|j: int| 0 <= j < i ==> !answers_to(#[trigger] rows[j], r),
    ensures
        find(rows, r) == Some(i),
{
    lemma_find(rows, r);
}

/// What the identity resolver says of an inbound fact.
#[derive(Clone, Copy, Debug, PartialEq, Eq, Structural)]
pub enum Resolution {
    /// The fact is about the record at this position.
    Existing(usize),
    /// The fact carries an id that the catalog does not know: a new title.
    New,
    /// The fact carries no id and matches no record: it is to be dropped.
    NotFound,
}

/// What became of one inbound fact.
#[derive(Clone, Copy, Debug, PartialEq, Eq, Structural)]
pub enum Outcome {
    /// A record was created for it.
    Created,
    /// Its record changed.
    Updated,
    /// Its record already held what it says.
    Unchanged,
    /// It matched no record and was dropped.
    Skipped,
}

/// The effect of one inbound fact: the records after it, what became of the
/// fact, and the record to persist, if one was written.
pub struct Change {
    pub rows: Seq<TitleView>,
    pub outcome: Outcome,
    pub written: Option<TitleView>,
}

/// The effect of a fact that an acquisition service of the given tier reports.
/// A known id has the fact merged into its record, which is written only if
/// the merge changed it; an unknown id has a record created from the fact.
pub open spec fn acquire(rows: Seq<TitleView>, fact: TitleView, tier: QualityTier) -> Change {
    match find(rows, RefView::ExternalId(fact.external_id)) {
        Some(i) => {
            let m = merged(rows[i], fact, Some(tier));
            if m == rows[i] {
                Change { rows, outcome: Outcome::Unchanged, written: None }
            } else {
                Change { rows: rows.update(i, m), outcome: Outcome::Updated, written: Some(m) }
            }
        },
        None => {
            let m = merged(blank_title(fact.external_id), fact, Some(tier));
            Change { rows: rows.push(m), outcome: Outcome::Created, written: Some(m) }
        },
    }
}

/// The effect of a fact that the discovery service reports. A known id has
/// the fact's playback key and first-seen time taken into its record, which
/// is written only if that changed it; an unknown id has a record created
/// from the fact.
pub open spec fn discover(rows: Seq<TitleView>, fact: TitleView) -> Change {
    match find(rows, RefView::ExternalId(fact.external_id)) {
        Some(i) => {
            let m = refreshed(rows[i], fact);
            if m == rows[i] {
                Change { rows, outcome: Outcome::Unchanged, written: None }
            } else {
                Change { rows: rows.update(i, m), outcome: Outcome::Updated, written: Some(m) }
            }
        },
        None => {
            let m = merged(blank_title(fact.external_id), fact, None);
            Change { rows: rows.push(m), outcome: Outcome::Created, written: Some(m) }
        },
    }
}

/// The effect of an observed playback: the record that the reference names
/// has its last view moved forward; a reference that names none is skipped.
pub open spec fn watch(rows: Seq<TitleView>, r: RefView, seen_at: i32) -> Change {
    match find(rows, r) {
        Some(i) => {
            let v = viewed(rows[i], seen_at);
            if v == rows[i] {
                Change { rows, outcome: Outcome::Unchanged, written: None }
            } else {
                Change { rows: rows.update(i, v), outcome: Outcome::Updated, written: Some(v) }
            }
        },
        None => Change { rows, outcome: Outcome::Skipped, written: None },
    }
}

/// The records after `t` was stored under its id: it replaces the record with
/// that id, or is added at the end.
pub open spec fn stored(rows: Seq<TitleView>, t: TitleView) -> Seq<TitleView> {
    match find(rows, RefView::ExternalId(t.external_id)) {
        Some(i) => rows.update(i, t),
        None => rows.push(t),
    }
}

/// The records that answer to a reference, in catalog order. More than one
/// can answer to a name or a key: the match is then ambiguous, and the first
/// is taken.
pub open spec fn matching(rows: Seq<TitleView>, r: RefView) -> Seq<TitleView> {
    rows.filter(|t: TitleView| answers_to(t, r))
}

/// The records that the retention rule selects, in catalog order.
pub open spec fn candidates(rows: Seq<TitleView>, threshold: i32) -> Seq<TitleView> {
    rows.filter(|t: TitleView| is_candidate(t, threshold))
}

/// What a pass did, for the operator and for the store.
#[derive(Debug)]
pub struct SyncReport {
    pub created: usize,
    pub updated: usize,
    pub skipped: usize,
    /// The records to persist, in the order in which they were written.
    pub writes: Vec<CanonicalTitle>,
}

/// What a `SyncReport` holds.
pub struct ReportView {
    pub created: nat,
    pub updated: nat,
    pub skipped: nat,
    pub writes: Seq<TitleView>,
}

impl View for SyncReport {
    type V = ReportView;

    open spec fn view(&self) -> ReportView {
        ReportView {
            created: self.created as nat,
            updated: self.updated as nat,
            skipped: self.skipped as nat,
            writes: title_views(self.writes@),
        }
    }
}

/// The report of a pass in which nothing has happened yet.
pub open spec fn empty_report() -> ReportView {
    ReportView { created: 0, updated: 0, skipped: 0, writes: Seq::empty() }
}

/// The report after one more fact had the given effect.
pub open spec fn tallied(report: ReportView, change: Change) -> ReportView {
    ReportView {
        created: if change.outcome == Outcome::Created {
            report.created + 1
        } else {
            report.created
        },
        updated: if change.outcome == Outcome::Updated {
            report.updated + 1
        } else {
            report.updated
        },
        skipped: if change.outcome == Outcome::Skipped {
            report.skipped + 1
        } else {
            report.skipped
        },
        writes: match change.written {
            Some(w) => report.writes.push(w),
            None => report.writes,
        },
    }
}

/// The state of a pass: the records and the report so far.
pub struct PassView {
    pub rows: Seq<TitleView>,
    pub report: ReportView,
}

/// A pass at its start.
pub open spec fn pass_start(rows: Seq<TitleView>) -> PassView {
    PassView { rows, report: empty_report() }
}

/// A pass after one more fact had the given effect.
pub open spec fn advanced(p: PassView, change: Change) -> PassView {
    PassView { rows: change.rows, report: tallied(p.report, change) }
}

/// An acquisition pass over `facts`, taken in order.
pub open spec fn acquire_all(rows: Seq<TitleView>, facts: Seq<TitleView>, tier: QualityTier) -> PassView
    decreases facts.len(),
{
    if facts.len() == 0 {
        pass_start(rows)
    } else {
        let before = acquire_all(rows, facts.drop_last(), tier);
        advanced(before, acquire(before.rows, facts.last(), tier))
    }
}

/// A discovery pass over `facts`, taken in order.
pub open spec fn discover_all(rows: Seq<TitleView>, facts: Seq<TitleView>) -> PassView
    decreases facts.len(),
{
    if facts.len() == 0 {
        pass_start(rows)
    } else {
        let before = discover_all(rows, facts.drop_last());
        advanced(before, discover(before.rows, facts.last()))
    }
}

/// One observed playback.
#[derive(Debug)]
pub struct ActivityFact {
    pub reference: TitleRef,
    pub seen_at: i32,
}

/// What an `ActivityFact` holds.
pub struct ActivityView {
    pub reference: RefView,
    pub seen_at: i32,
}

impl View for ActivityFact {
    type V = ActivityView;

    open spec fn view(&self) -> ActivityView {
        ActivityView { reference: self.reference@, seen_at: self.seen_at }
    }
}

/// The views of a run of activity facts, in order.
pub open spec fn activity_views(facts: Seq<ActivityFact>) -> Seq<ActivityView> {
    Seq::new(facts.len(), |i: int| facts[i]@)
}

/// An activity pass over `facts`, taken in order.
pub open spec fn watch_all(rows: Seq<TitleView>, facts: Seq<ActivityView>) -> PassView
    decreases facts.len(),
{
    if facts.len() == 0 {
        pass_start(rows)
    } else {
        let before = watch_all(rows, facts.drop_last());
        advanced(before, watch(before.rows, facts.last().reference, facts.last().seen_at))
    }
}

/// What one fact did: what became of it, and the record to persist, if any.
#[derive(Debug)]
pub struct Applied {
    pub outcome: Outcome,
    pub written: Option<CanonicalTitle>,
}

impl Applied {
    /// The record to persist, as a mathematical value.
    pub open spec fn written_view(&self) -> Option<TitleView> {
        match self.written {
            Some(t) => Some(t@),
            None => None,
        }
    }

    /// Whether this is what `change` says happened.
    pub open spec fn tells(&self, change: Change) -> bool {
        self.outcome == change.outcome && self.written_view() == change.written
    }
}

impl SyncReport {
    /// The report of a pass in which nothing has happened yet.
    pub fn new() -> (r: Self)
        ensures
            r@ == empty_report(),
    {
        let r = SyncReport { created: 0, updated: 0, skipped: 0, writes: Vec::new() };
        assert(r@.writes =~= Seq::empty());
        r
    }

    /// How many facts the report accounts for.
    pub open spec fn handled(&self) -> nat {
        self@.created + self@.updated + self@.skipped
    }

    pub(crate) fn tally(&mut self, applied: Applied, Ghost(change): Ghost<Change>)
        requires
            applied.tells(change),
            old(self).handled() < usize::MAX,
        ensures
            final(self)@ == tallied(old(self)@, change),
            final(self).handled() <= old(self).handled() + 1,
    {
        match applied.outcome {
            Outcome::Created => {
                self.created = self.created + 1;
            },
            Outcome::Updated => {
                self.updated = self.updated + 1;
            },
            Outcome::Skipped => {
                self.skipped = self.skipped + 1;
            },
            Outcome::Unchanged => {},
        }
        match applied.written {
            Some(t) => {
                self.writes.push(t);
            },
            None => {},
        }
        assert(self@.writes =~= tallied(old(self)@, change).writes);
    }
}

/// The canonical records of one media kind, in a stable order.
pub struct Catalog {
    rows: Vec<CanonicalTitle>,
}

impl View for Catalog {
    type V = Seq<TitleView>;

    closed spec fn view(&self) -> Seq<TitleView> {
        title_views(self.rows@)
    }
}

/// The normalized form of the name that a reference gives, if it gives one.
fn needle_of(reference: &TitleRef) -> (needle: Vec<char>)
    ensures
        reference@ matches RefView::Name(name) ==> needle@ == normalized(name),
{
    match reference {
        TitleRef::Name(name) => normalize(name.as_str()),
        _ => Vec::new(),
    }
}

fn answers(row: &CanonicalTitle, reference: &TitleRef, needle: &Vec<char>) -> (r: bool)
    requires
        reference@ matches RefView::Name(name) ==> needle@ == normalized(name),
    ensures
        r == answers_to(row@, reference@),
{
    match reference {
        TitleRef::ExternalId(id) => row.external_id == *id,
        TitleRef::PlaybackKey(key) => row.playback_key == *key,
        TitleRef::Name(_) => {
            let own = normalize(row.name.as_str());
            same_chars(&own, needle)
        },
    }
}

impl Catalog {
    /// The catalog's invariant: an id identifies one record.
    pub open spec fn wf(&self) -> bool {
        distinct_ids(self@)
    }

    /// A catalog without records.
    pub fn new() -> (r: Self)
        ensures
            r@ == Seq::<TitleView>::empty(),
            r.wf(),
    {
        Catalog { rows: Vec::new() }
    }

    /// The number of records.
    pub fn len(&self) -> (r: usize)
        ensures
            r == self@.len(),
    {
        self.rows.len()
    }

    /// The record at a position.
    pub fn row(&self, i: usize) -> (r: &CanonicalTitle)
        requires
            i < self@.len(),
        ensures
            r@ == self@[i as int],
    {
        &self.rows[i]
    }

    /// All records, in catalog order.
    pub fn rows(&self) -> (r: &Vec<CanonicalTitle>)
        ensures
            title_views(r@) == self@,
    {
        &self.rows
    }

    /// The position of the first record that answers to a reference.
    pub fn position(&self, reference: &TitleRef) -> (r: Option<usize>)
        ensures
            match r {
                Some(i) => find(self@, reference@) == Some(i as int),
                None => find(self@, reference@) is None,
            },
    {
        let needle = needle_of(reference);
        let mut i: usize = 0;
        while i < self.rows.len()
            invariant
                i <= self.rows.len(),
                reference@ matches RefView::Name(name) ==> needle@ == normalized(name),
                find(self@, reference@) == find_from(self@, reference@, i as int),
            decreases self.rows.len() - i,
        {
            if answers(&self.rows[i], reference, &needle) {
                return Some(i);
            }
            i += 1;
        }
        None
    }

    /// The number of records that answer to a reference. A caller that wants
    /// to report an ambiguous match finds it here: the number is then above 1.
    pub fn match_count(&self, reference: &TitleRef) -> (n: usize)
        ensures
            n == matching(self@, reference@).len(),
    {
        let needle = needle_of(reference);
        let ghost pred = |t: TitleView| answers_to(t, reference@);
        let mut n: usize = 0;
        let mut i: usize = 0;
        proof {
            reveal(Seq::filter);
        }
        while i < self.rows.len()
            invariant
                i <= self.rows.len(),
                n <= i,
                reference@ matches RefView::Name(name) ==> needle@ == normalized(name),
                pred == |t: TitleView| answers_to(t, reference@),
                n == self@.take(i as int).filter(pred).len(),
            decreases self.rows.len() - i,
        {
            proof {
                reveal(Seq::filter);
                assert(self@.take(i + 1).drop_last() =~= self@.take(i as int));
            }
            if answers(&self.rows[i], reference, &needle) {
                n += 1;
            }
            i += 1;
        }
        assert(self@.take(i as int) =~= self@);
        n
    }

    /// Resolves the identity of an inbound fact. A fact that carries an id is
    /// looked up by that id alone, and an unknown id means a new title. A fact
    /// without an id that matches no record is not found.
    pub fn resolve(&self, reference: &TitleRef) -> (r: Resolution)
        ensures
            match r {
                Resolution::Existing(i) => find(self@, reference@) == Some(i as int),
                Resolution::New => find(self@, reference@) is None && reference@ is ExternalId,
                Resolution::NotFound => find(self@, reference@) is None && !(
                reference@ is ExternalId),
            },
    {
        match self.position(reference) {
            Some(i) => Resolution::Existing(i),
            None => match reference {
                TitleRef::ExternalId(_) => Resolution::New,
                _ => Resolution::NotFound,
            },
        }
    }

    fn position_of_id(&self, external_id: i32) -> (r: Option<usize>)
        ensures
            match r {
                Some(i) => find(self@, RefView::ExternalId(external_id)) == Some(i as int),
                None => find(self@, RefView::ExternalId(external_id)) is None,
            },
    {
        let reference = TitleRef::ExternalId(external_id);
        self.position(&reference)
    }

    fn put(&mut self, i: usize, title: CanonicalTitle)
        requires
            old(self).wf(),
            i < old(self)@.len(),
            old(self)@[i as int].external_id == title@.external_id,
        ensures
            final(self).wf(),
            final(self)@ == old(self)@.update(i as int, title@),
    {
        self.rows.set(i, title);
        assert(self@ =~= old(self)@.update(i as int, title@));
    }

    fn append(&mut self, title: CanonicalTitle)
        requires
            old(self).wf(),
            find(old(self)@, RefView::ExternalId(title@.external_id)) is None,
        ensures
            final(self).wf(),
            final(self)@ == old(self)@.push(title@),
    {
        proof {
            lemma_find(self@, RefView::ExternalId(title@.external_id));
        }
        self.rows.push(title);
    }

    /// Stores a record under its id: it replaces the record with that id, or
    /// is added at the end. Returns whether the id was new.
    pub fn save(&mut self, title: CanonicalTitle) -> (created: bool)
        requires
            old(self).wf(),
        ensures
            final(self).wf(),
            final(self)@ == stored(old(self)@, title@),
            created == (find(old(self)@, RefView::ExternalId(title@.external_id)) is None),
    {
        match self.position_of_id(title.external_id) {
            Some(i) => {
                proof {
                    lemma_find(self@, RefView::ExternalId(title@.external_id));
                }
                self.put(i, title);
                false
            },
            None => {
                self.append(title);
                true
            },
        }
    }

    /// Applies one fact that an acquisition service of the given tier reports.
    pub fn apply_report(&mut self, fact: &CanonicalTitle, tier: QualityTier) -> (r: Applied)
        requires
            old(self).wf(),
        ensures
            final(self).wf(),
            final(self)@ == acquire(old(self)@, fact@, tier).rows,
            r.tells(acquire(old(self)@, fact@, tier)),
    {
        match self.position_of_id(fact.external_id) {
            Some(i) => {
                proof {
                    lemma_find(self@, RefView::ExternalId(fact@.external_id));
                }
                let m = self.rows[i].merge(fact, Some(tier));
                if m.same_as(&self.rows[i]) {
                    Applied { outcome: Outcome::Unchanged, written: None }
                } else {
                    self.put(i, m.clone());
                    Applied { outcome: Outcome::Updated, written: Some(m) }
                }
            },
            None => {
                let m = CanonicalTitle::blank(fact.external_id).merge(fact, Some(tier));
                self.append(m.clone());
                Applied { outcome: Outcome::Created, written: Some(m) }
            },
        }
    }

    /// Applies one fact that the discovery service reports. A title that the
    /// catalog holds takes the fact's playback key, if the fact has one, and
    /// moves its last view forward to the fact's first-seen time; a title
    /// that it does not hold is created.
    pub fn apply_discovery(&mut self, fact: &CanonicalTitle) -> (r: Applied)
        requires
            old(self).wf(),
        ensures
            final(self).wf(),
            final(self)@ == discover(old(self)@, fact@).rows,
            r.tells(discover(old(self)@, fact@)),
    {
        match self.position_of_id(fact.external_id) {
            Some(i) => {
                proof {
                    lemma_find(self@, RefView::ExternalId(fact@.external_id));
                }
                let m = self.rows[i].refresh(fact);
                if m.same_as(&self.rows[i]) {
                    Applied { outcome: Outcome::Unchanged, written: None }
                } else {
                    self.put(i, m.clone());
                    Applied { outcome: Outcome::Updated, written: Some(m) }
                }
            },
            None => {
                let m = CanonicalTitle::blank(fact.external_id).merge(fact, None);
                self.append(m.clone());
                Applied { outcome: Outcome::Created, written: Some(m) }
            },
        }
    }

    /// Applies one observed playback.
    pub fn apply_activity(&mut self, reference: &TitleRef, seen_at: i32) -> (r: Applied)
        requires
            old(self).wf(),
        ensures
            final(self).wf(),
            final(self)@ == watch(old(self)@, reference@, seen_at).rows,
            r.tells(watch(old(self)@, reference@, seen_at)),
    {
        match self.position(reference) {
            Some(i) => {
                proof {
                    lemma_find(self@, reference@);
                }
                let v = self.rows[i].observe(seen_at);
                if v.same_as(&self.rows[i]) {
                    Applied { outcome: Outcome::Unchanged, written: None }
                } else {
                    self.put(i, v.clone());
                    Applied { outcome: Outcome::Updated, written: Some(v) }
                }
            },
            None => Applied { outcome: Outcome::Skipped, written: None },
        }
    }

    /// Runs an acquisition pass: every fact is applied, in order.
    pub fn sync_acquisition(&mut self, facts: &Vec<CanonicalTitle>, tier: QualityTier) -> (report:
        SyncReport)
        requires
            old(self).wf(),
        ensures
            final(self).wf(),
            (PassView { rows: final(self)@, report: report@ }) == acquire_all(
                old(self)@,
                title_views(facts@),
                tier,
            ),
    {
        let mut report = SyncReport::new();
        let ghost all = title_views(facts@);
        let mut i: usize = 0;
        while i < facts.len()
            invariant
                i <= facts.len(),
                self.wf(),
                all == title_views(facts@),
                report.handled() <= i,
                (PassView { rows: self@, report: report@ }) == acquire_all(
                    old(self)@,
                    all.take(i as int),
                    tier,
                ),
            decreases facts.len() - i,
        {
            let ghost before = self@;
            let applied = self.apply_report(&facts[i], tier);
            proof {
                assert(all.take(i + 1).drop_last() =~= all.take(i as int));
            }
            report.tally(applied, Ghost(acquire(before, facts[i as int]@, tier)));
            i += 1;
        }
        assert(all.take(i as int) =~= all);
        report
    }

    /// Runs a discovery pass: every fact is applied, in order. Records are
    /// created for the titles that the catalog does not hold; the others take
    /// the playback keys and first-seen times that the facts tell.
    pub fn sync_discovery(&mut self, facts: &Vec<CanonicalTitle>) -> (report: SyncReport)
        requires
            old(self).wf(),
        ensures
            final(self).wf(),
            (PassView { rows: final(self)@, report: report@ }) == discover_all(
                old(self)@,
                title_views(facts@),
            ),
    {
        let mut report = SyncReport::new();
        let ghost all = title_views(facts@);
        let mut i: usize = 0;
        while i < facts.len()
            invariant
                i <= facts.len(),
                self.wf(),
                all == title_views(facts@),
                report.handled() <= i,
                (PassView { rows: self@, report: report@ }) == discover_all(
                    old(self)@,
                    all.take(i as int),
                ),
            decreases facts.len() - i,
        {
            let ghost before = self@;
            let applied = self.apply_discovery(&facts[i]);
            proof {
                assert(all.take(i + 1).drop_last() =~= all.take(i as int));
            }
            report.tally(applied, Ghost(discover(before, facts[i as int]@)));
            i += 1;
        }
        assert(all.take(i as int) =~= all);
        report
    }

    /// Runs an activity pass: every observed playback is applied, in order.
    /// A playback of a title that the catalog does not hold is counted as
    /// skipped and changes nothing.
    pub fn sync_activity(&mut self, facts: &Vec<ActivityFact>) -> (report: SyncReport)
        requires
            old(self).wf(),
        ensures
            final(self).wf(),
            (PassView { rows: final(self)@, report: report@ }) == watch_all(
                old(self)@,
                activity_views(facts@),
            ),
    {
        let mut report = SyncReport::new();
        let ghost all = activity_views(facts@);
        let mut i: usize = 0;
        while i < facts.len()
            invariant
                i <= facts.len(),
                self.wf(),
                all == activity_views(facts@),
                report.handled() <= i,
                (PassView { rows: self@, report: report@ }) == watch_all(
                    old(self)@,
                    all.take(i as int),
                ),
            decreases facts.len() - i,
        {
            let ghost before = self@;
            let applied = self.apply_activity(&facts[i].reference, facts[i].seen_at);
            proof {
                assert(all.take(i + 1).drop_last() =~= all.take(i as int));
            }
            report.tally(
                applied,
                Ghost(watch(before, facts[i as int]@.reference, facts[i as int]@.seen_at)),
            );
            i += 1;
        }
        assert(all.take(i as int) =~= all);
        report
    }

    /// Lists the deletion candidates: the records that are not protected and
    /// were last viewed before `threshold`, in catalog order. The catalog is
    /// left as it is.
    pub fn classify(&self, threshold: i32) -> (out: Vec<CanonicalTitle>)
        ensures
            title_views(out@) == candidates(self@, threshold),
    {
        let mut out: Vec<CanonicalTitle> = Vec::new();
        let ghost pred = |t: TitleView| is_candidate(t, threshold);
        let mut i: usize = 0;
        proof {
            reveal(Seq::filter);
        }
        while i < self.rows.len()
            invariant
                i <= self.rows.len(),
                pred == |t: TitleView| is_candidate(t, threshold),
                title_views(out@) == self@.take(i as int).filter(pred),
            decreases self.rows.len() - i,
        {
            proof {
                reveal(Seq::filter);
                assert(self@.take(i + 1).drop_last() =~= self@.take(i as int));
            }
            if self.rows[i].is_deletion_candidate(threshold) {
                out.push(self.rows[i].clone());
            }
            i += 1;
        }
        assert(self@.take(i as int) =~= self@);
        out
    }
}

} // verus!
