//! What holds of the reconciliation rules for all inputs.

use vstd::prelude::*;
use crate::activity::{replay, replay_all, twin_replay, MediaKind, Replay, RowView, TwinReplay};
use crate::catalog::{
    acquire, acquire_all, answers_to, candidates, discover, discover_all, distinct_ids, find,
    find_from, lemma_find, lemma_find_is, stored, watch, watch_all, ActivityView, Change, Outcome,
    RefView,
};
use crate::facts::{collected, readings_of, text_facts, Reading, Source};
use crate::json::json_parsed;
use crate::storage::{
    find_disk, lemma_find_disk, pooled, registered, registered_binding, Acquirer, DiskKey,
    RegistryView,
};
use crate::title::{is_candidate, later, merged, refreshed, QualityTier, TitleView, NEVER_VIEWED};

verus! {

/// Two runs of records that differ at most in the last views of their records.
pub open spec fn same_but_views(a: Seq<TitleView>, b: Seq<TitleView>) -> bool {
    a.len() == b.len() && forall|i: int|
        0 <= i < a.len() ==> #[trigger] b[i] == (TitleView { last_view: b[i].last_view, ..a[i] })
}

/// The greatest playback time among `facts`, or `NEVER_VIEWED` if there is none.
pub open spec fn greatest_seen(facts: Seq<ActivityView>) -> i32
    decreases facts.len(),
{
    if facts.len() == 0 {
        NEVER_VIEWED
    } else {
        later(greatest_seen(facts.drop_last()), facts.last().seen_at)
    }
}

/// The last view of the record at `i` once the playbacks among `facts` that
/// name it have been taken into account.
pub open spec fn latest_view(rows: Seq<TitleView>, facts: Seq<ActivityView>, i: int) -> i32
    decreases facts.len(),
{
    if facts.len() == 0 {
        rows[i].last_view
    } else {
        let before = latest_view(rows, facts.drop_last(), i);
        if find(rows, facts.last().reference) == Some(i) {
            later(before, facts.last().seen_at)
        } else {
            before
        }
    }
}

/// Which record a reference names does not depend on the last views.
pub proof fn lemma_find_ignores_views(a: Seq<TitleView>, b: Seq<TitleView>, r: RefView, from: int)
    requires
        same_but_views(a, b),
        0 <= from,
    ensures
        find_from(a, r, from) == find_from(b, r, from),
    decreases a.len() - from,
{
    if from < a.len() {
        if !answers_to(a[from], r) {
            lemma_find_ignores_views(a, b, r, from + 1);
        }
    }
}

/// One observed playback changes nothing but the last view of the record that
/// it names, and moves that one forward only.
pub proof fn lemma_watch_effect(rows: Seq<TitleView>, r: RefView, seen_at: i32)
    ensures
        same_but_views(rows, watch(rows, r, seen_at).rows),
        forall|i: int|
            0 <= i < rows.len() ==> (#[trigger] watch(rows, r, seen_at).rows[i]).last_view == (if find(
                rows,
                r,
            ) == Some(i) {
                later(rows[i].last_view, seen_at)
            } else {
                rows[i].last_view
            }),
{
    lemma_find(rows, r);
}

/// An activity pass changes nothing but last views, and the last view of each
/// record becomes the latest among its own and the playbacks that name it.
pub proof fn lemma_watch_all_effect(rows: Seq<TitleView>, facts: Seq<ActivityView>)
    ensures
        same_but_views(rows, watch_all(rows, facts).rows),
        forall|i: int|
            0 <= i < rows.len() ==> (#[trigger] watch_all(rows, facts).rows[i]).last_view
                == latest_view(rows, facts, i),
    decreases facts.len(),
{
    if facts.len() > 0 {
        let head = facts.drop_last();
        let fact = facts.last();
        let mid = watch_all(rows, head).rows;
        lemma_watch_all_effect(rows, head);
        lemma_watch_effect(mid, fact.reference, fact.seen_at);
        lemma_find_ignores_views(rows, mid, fact.reference, 0);
    }
}

/// The latest view of a record is at least its own last view and at least
/// every playback that names it, and it is one of these.
pub proof fn lemma_latest_view_is_greatest(rows: Seq<TitleView>, facts: Seq<ActivityView>, i: int)
    ensures
        latest_view(rows, facts, i) >= rows[i].last_view,
        forall|k: int|
            0 <= k < facts.len() && find(rows, (#[trigger] facts[k]).reference) == Some(i)
                ==> latest_view(rows, facts, i) >= facts[k].seen_at,
        latest_view(rows, facts, i) == rows[i].last_view || exists|k: int|
            0 <= k < facts.len() && find(rows, (#[trigger] facts[k]).reference) == Some(i)
                && facts[k].seen_at == latest_view(rows, facts, i),
    decreases facts.len(),
{
    if facts.len() > 0 {
        let head = facts.drop_last();
        lemma_latest_view_is_greatest(rows, head, i);
        assert forall|k: int|
            0 <= k < facts.len() && find(rows, (#[trigger] facts[k]).reference) == Some(
                i,
            ) implies latest_view(rows, facts, i) >= facts[k].seen_at by {
            if k < head.len() {
                assert(head[k] == facts[k]);
            }
        }
    }
}

/// Monotonicity. Where every playback in a pass names the same record, that
/// record's last view after the pass is the later of its last view before the
/// pass and the greatest playback time in the pass. So it is that greatest
/// time whenever the record was not viewed later than that before.
pub proof fn law_last_view_is_latest(rows: Seq<TitleView>, facts: Seq<ActivityView>, i: int)
    requires
        0 <= i < rows.len(),
        forall|k: int| 0 <= k < facts.len() ==> find(rows, (#[trigger] facts[k]).reference) == Some(i),
    ensures
        watch_all(rows, facts).rows[i].last_view == later(rows[i].last_view, greatest_seen(facts)),
        rows[i].last_view <= greatest_seen(facts) ==> watch_all(rows, facts).rows[i].last_view
            == greatest_seen(facts),
        watch_all(rows, facts).rows[i].last_view >= rows[i].last_view,
    decreases facts.len(),
{
    lemma_watch_all_effect(rows, facts);
    lemma_latest_is_later(rows, facts, i);
}

proof fn lemma_latest_is_later(rows: Seq<TitleView>, facts: Seq<ActivityView>, i: int)
    requires
        forall|k: int| 0 <= k < facts.len() ==> find(rows, (#[trigger] facts[k]).reference) == Some(i),
    ensures
        latest_view(rows, facts, i) == later(rows[i].last_view, greatest_seen(facts)),
    decreases facts.len(),
{
    if facts.len() > 0 {
        let head = facts.drop_last();
        lemma_latest_is_later(rows, head, i);
    }
}

/// Monotonicity, whatever the order. Two activity passes over the same
/// playbacks, taken in any two orders, leave the same records.
pub proof fn law_activity_order_is_irrelevant(
    rows: Seq<TitleView>,
    first: Seq<ActivityView>,
    second: Seq<ActivityView>,
)
    requires
        first.to_multiset() == second.to_multiset(),
    ensures
        watch_all(rows, first).rows == watch_all(rows, second).rows,
{
    lemma_same_elements(first, second);
    lemma_same_playbacks_same_records(rows, first, second);
}

proof fn lemma_latest_covers(
    rows: Seq<TitleView>,
    first: Seq<ActivityView>,
    second: Seq<ActivityView>,
    i: int,
)
    requires
        forall|k: int| 0 <= k < first.len() ==> second.contains(#[trigger] first[k]),
    ensures
        latest_view(rows, first, i) <= latest_view(rows, second, i),
{
    lemma_latest_view_is_greatest(rows, first, i);
    lemma_latest_view_is_greatest(rows, second, i);
    let top = latest_view(rows, first, i);
    if top != rows[i].last_view {
    }
}

/// Two runs with the same elements, each as often as in the other, hold each
/// other's elements.
proof fn lemma_same_elements<A>(first: Seq<A>, second: Seq<A>)
    requires
        first.to_multiset() == second.to_multiset(),
    ensures
        forall|k: int| 0 <= k < first.len() ==> second.contains(#[trigger] first[k]),
        forall|k: int| 0 <= k < second.len() ==> first.contains(#[trigger] second[k]),
{
    first.to_multiset_ensures();
    second.to_multiset_ensures();
    assert forall|k: int| 0 <= k < first.len() implies second.contains(#[trigger] first[k]) by {
        assert(second.to_multiset().count(first[k]) > 0);
    }
    assert forall|k: int| 0 <= k < second.len() implies first.contains(#[trigger] second[k]) by {
        assert(first.to_multiset().count(second[k]) > 0);
    }
}

/// Two activity passes over playbacks of which each run holds the other's
/// leave the same records.
proof fn lemma_same_playbacks_same_records(
    rows: Seq<TitleView>,
    first: Seq<ActivityView>,
    second: Seq<ActivityView>,
)
    requires
        forall|k: int| 0 <= k < first.len() ==> second.contains(#[trigger] first[k]),
        forall|k: int| 0 <= k < second.len() ==> first.contains(#[trigger] second[k]),
    ensures
        watch_all(rows, first).rows == watch_all(rows, second).rows,
{
    let a = watch_all(rows, first).rows;
    let b = watch_all(rows, second).rows;
    lemma_watch_all_effect(rows, first);
    lemma_watch_all_effect(rows, second);
    assert forall|i: int| 0 <= i < rows.len() implies a[i] == b[i] by {
        lemma_latest_covers(rows, first, second, i);
        lemma_latest_covers(rows, second, first, i);
    }
}

/// Monotonicity, on repetition. An activity pass that is run a second time
/// over the same playbacks leaves the records as the first run left them.
pub proof fn law_activity_pass_is_idempotent(rows: Seq<TitleView>, facts: Seq<ActivityView>)
    ensures
        watch_all(watch_all(rows, facts).rows, facts).rows == watch_all(rows, facts).rows,
{
    let once = watch_all(rows, facts).rows;
    let twice = watch_all(once, facts).rows;
    lemma_watch_all_effect(rows, facts);
    lemma_watch_all_effect(once, facts);
    assert forall|i: int| 0 <= i < rows.len() implies twice[i] == once[i] by {
        lemma_latest_view_is_greatest(rows, facts, i);
        lemma_latest_view_is_greatest(once, facts, i);
        let top = latest_view(once, facts, i);
        if top != once[i].last_view {
            let k = choose|k: int|
                0 <= k < facts.len() && find(once, (#[trigger] facts[k]).reference) == Some(i)
                    && facts[k].seen_at == top;
            lemma_find_ignores_views(rows, once, facts[k].reference, 0);
        }
    }
}

/// Monotonicity of every record: an activity pass never moves a last view back.
pub proof fn law_last_view_never_regresses(rows: Seq<TitleView>, facts: Seq<ActivityView>)
    ensures
        watch_all(rows, facts).rows.len() == rows.len(),
        forall|i: int|
            0 <= i < rows.len() ==> (#[trigger] watch_all(rows, facts).rows[i]).last_view
                >= rows[i].last_view,
{
    lemma_watch_all_effect(rows, facts);
    assert forall|i: int| 0 <= i < rows.len() implies (#[trigger] watch_all(
        rows,
        facts,
    ).rows[i]).last_view >= rows[i].last_view by {
        lemma_latest_view_is_greatest(rows, facts, i);
    }
}

/// Tier isolation, of one merge. A fact of the HD tier leaves the 4K path as
/// it was, and a fact of the 4K tier leaves the HD path as it was.
pub proof fn law_tier_isolation(canon: TitleView, inbound: TitleView)
    ensures
        merged(canon, inbound, Some(QualityTier::Hd)).path_4k == canon.path_4k,
        merged(canon, inbound, Some(QualityTier::UltraHd)).path_hd == canon.path_hd,
        merged(canon, inbound, None).path_hd == canon.path_hd,
        merged(canon, inbound, None).path_4k == canon.path_4k,
{
}

/// The path that a tier does not write.
pub open spec fn sibling_path(t: TitleView, tier: QualityTier) -> Seq<char> {
    match tier {
        QualityTier::Hd => t.path_4k,
        QualityTier::UltraHd => t.path_hd,
    }
}

/// Tier isolation, of a whole pass. An acquisition pass of one tier keeps
/// every record at its position and leaves the other tier's path of each as
/// it was; the records that it creates have no path of the other tier.
pub proof fn law_pass_tier_isolation(rows: Seq<TitleView>, facts: Seq<TitleView>, tier: QualityTier)
    ensures
        acquire_all(rows, facts, tier).rows.len() >= rows.len(),
        forall|i: int|
            0 <= i < rows.len() ==> sibling_path(
                #[trigger] acquire_all(rows, facts, tier).rows[i],
                tier,
            ) == sibling_path(rows[i], tier),
        forall|i: int|
            rows.len() <= i < acquire_all(rows, facts, tier).rows.len() ==> sibling_path(
                #[trigger] acquire_all(rows, facts, tier).rows[i],
                tier,
            ) == Seq::<char>::empty(),
    decreases facts.len(),
{
    if facts.len() > 0 {
        let mid = acquire_all(rows, facts.drop_last(), tier).rows;
        law_pass_tier_isolation(rows, facts.drop_last(), tier);
        lemma_find(mid, RefView::ExternalId(facts.last().external_id));
    }
}

/// Identity stability. Two facts with the same id resolve to the same record,
/// whatever their names: the second creates none, and the record carries the
/// second fact's name.
pub proof fn law_identity_is_stable(
    rows: Seq<TitleView>,
    first: TitleView,
    second: TitleView,
    first_tier: QualityTier,
    second_tier: QualityTier,
)
    requires
        first.external_id == second.external_id,
    ensures
        ({
            let id = RefView::ExternalId(first.external_id);
            let a = acquire(rows, first, first_tier).rows;
            let b = acquire(a, second, second_tier);
            &&& find(a, id) is Some
            &&& find(b.rows, id) == find(a, id)
            &&& b.outcome != Outcome::Created
            &&& b.rows.len() == a.len()
            &&& b.rows[find(a, id).unwrap()].name == second.name
            &&& b.rows[find(a, id).unwrap()].external_id == first.external_id
        }),
{
    let id = RefView::ExternalId(first.external_id);
    let a = acquire(rows, first, first_tier).rows;
    lemma_find(rows, id);
    match find(rows, id) {
        Some(i) => {
            lemma_find_is(a, id, i);
        },
        None => {
            let i = rows.len() as int;
            lemma_find_is(a, id, i);
        },
    }
    let i = find(a, id).unwrap();
    let b = acquire(a, second, second_tier);
    lemma_find(a, id);
    lemma_find_is(b.rows, id, i);
}

/// An acquisition pass keeps the catalog's invariant: an id still identifies
/// one record.
pub proof fn law_acquisition_keeps_ids_distinct(
    rows: Seq<TitleView>,
    facts: Seq<TitleView>,
    tier: QualityTier,
)
    requires
        distinct_ids(rows),
    ensures
        distinct_ids(acquire_all(rows, facts, tier).rows),
    decreases facts.len(),
{
    if facts.len() > 0 {
        let mid = acquire_all(rows, facts.drop_last(), tier).rows;
        law_acquisition_keeps_ids_distinct(rows, facts.drop_last(), tier);
        lemma_find(mid, RefView::ExternalId(facts.last().external_id));
    }
}

/// Protection override. A protected title is never among the deletion
/// candidates, whatever the threshold; every candidate is unprotected and was
/// last viewed before the threshold.
pub proof fn law_protected_is_never_a_candidate(rows: Seq<TitleView>, threshold: i32)
    ensures
        forall|k: int|
            0 <= k < candidates(rows, threshold).len() ==> is_candidate(
                #[trigger] candidates(rows, threshold)[k],
                threshold,
            ),
        forall|t: TitleView| t.protected ==> !candidates(rows, threshold).contains(t),
        forall|i: int|
            0 <= i < rows.len() && is_candidate(#[trigger] rows[i], threshold) ==> candidates(
                rows,
                threshold,
            ).contains(rows[i]),
{
    let pred = |t: TitleView| is_candidate(t, threshold);
    let out = rows.filter(pred);
    broadcast use vstd::seq_lib::group_filter_ensures;
    assert forall|i: int|
        0 <= i < rows.len() && is_candidate(#[trigger] rows[i], threshold) implies out.contains(
        rows[i],
    ) by {}
}

/// No fabrication, of one playback. A playback that names no record is
/// skipped: no record is created, none changes, nothing is written.
pub proof fn law_unmatched_activity_is_dropped(rows: Seq<TitleView>, r: RefView, seen_at: i32)
    requires
        forall|i: int| 0 <= i < rows.len() ==> !answers_to(#[trigger] rows[i], r),
    ensures
        watch(rows, r, seen_at).rows == rows,
        watch(rows, r, seen_at).outcome == Outcome::Skipped,
        watch(rows, r, seen_at).written is None,
{
    lemma_find(rows, r);
}

/// No fabrication, of a whole pass. An activity pass creates no record: the
/// catalog holds as many records after it as before, each with the identity,
/// name, paths, key and protection that it had. It writes only records that
/// it updated, and accounts for every playback.
pub proof fn law_activity_creates_nothing(rows: Seq<TitleView>, facts: Seq<ActivityView>)
    ensures
        same_but_views(rows, watch_all(rows, facts).rows),
        watch_all(rows, facts).report.created == 0,
        watch_all(rows, facts).report.writes.len() == watch_all(rows, facts).report.updated,
        watch_all(rows, facts).report.updated + watch_all(rows, facts).report.skipped
            <= facts.len(),
    decreases facts.len(),
{
    lemma_watch_all_effect(rows, facts);
    if facts.len() > 0 {
        law_activity_creates_nothing(rows, facts.drop_last());
    }
}

/// No fabrication, of a playback whose time cannot be read. A playback that
/// names no record is skipped and never fails the pass, whether or not its
/// time can be read.
pub proof fn law_unmatched_playback_never_fails(
    rows: Seq<TitleView>,
    r: RefView,
    seen_at: Option<i32>,
)
    requires
        forall|i: int| 0 <= i < rows.len() ==> !answers_to(#[trigger] rows[i], r),
    ensures
        replay(rows, r, seen_at) == Some(
            Change { rows, outcome: Outcome::Skipped, written: None },
        ),
{
    lemma_find(rows, r);
}

/// No fabrication, of a replay. A replay creates no record, whether or not it
/// fails: the catalog holds as many records after it as before, each with the
/// identity, name, paths, key and protection that it had, and no last view
/// has moved back.
pub proof fn law_replay_creates_nothing(rows: Seq<TitleView>, history: Seq<RowView>)
    ensures
        same_but_views(rows, replay_all(rows, history).pass.rows),
        replay_all(rows, history).pass.report.created == 0,
        forall|i: int|
            0 <= i < rows.len() ==> (#[trigger] replay_all(rows, history).pass.rows[i]).last_view
                >= rows[i].last_view,
    decreases history.len(),
{
    if history.len() > 0 {
        let before = replay_all(rows, history.drop_last());
        law_replay_creates_nothing(rows, history.drop_last());
        match history.last() {
            RowView::Seen { kind, reference, seen_at } => {
                match seen_at {
                    Some(t) => {
                        lemma_watch_effect(before.pass.rows, reference, t);
                    },
                    None => {},
                }
            },
            RowView::Malformed => {},
        }
    }
}

/// The playbacks of a history of which every entry names a title and gives a time.
pub open spec fn timed_playbacks(history: Seq<RowView>) -> Seq<ActivityView> {
    Seq::new(
        history.len(),
        |i: int|
            ActivityView {
                reference: history[i]->reference,
                seen_at: history[i]->seen_at.unwrap(),
            },
    )
}

/// A replay of a history of which every entry names a title and gives a time
/// does not fail, and is the activity pass over its playbacks. So what holds
/// of an activity pass holds of the passes that the watch-activity services
/// drive.
pub proof fn law_readable_replay_is_an_activity_pass(rows: Seq<TitleView>, history: Seq<RowView>)
    requires
        forall|i: int|
            0 <= i < history.len() ==> (#[trigger] history[i]) is Seen && history[i]->seen_at
                is Some,
    ensures
        replay_all(rows, history) == (Replay {
            pass: watch_all(rows, timed_playbacks(history)),
            failed: false,
        }),
    decreases history.len(),
{
    if history.len() > 0 {
        let head = history.drop_last();
        assert forall|i: int| 0 <= i < head.len() implies (#[trigger] head[i]) is Seen
            && head[i]->seen_at is Some by {}
        law_readable_replay_is_an_activity_pass(rows, head);
        assert(timed_playbacks(history).drop_last() =~= timed_playbacks(head));
        let mid = watch_all(rows, timed_playbacks(head)).rows;
        lemma_find(mid, history.last()->reference);
    } else {
    }
}

/// Idempotence of an acquisition fact. Applying a fact a second time changes
/// nothing and writes nothing.
pub proof fn law_acquisition_is_idempotent(rows: Seq<TitleView>, fact: TitleView, tier: QualityTier)
    ensures
        ({
            let once = acquire(rows, fact, tier).rows;
            &&& acquire(once, fact, tier).rows == once
            &&& acquire(once, fact, tier).outcome == Outcome::Unchanged
            &&& acquire(once, fact, tier).written is None
        }),
{
    let id = RefView::ExternalId(fact.external_id);
    let once = acquire(rows, fact, tier).rows;
    lemma_find(rows, id);
    let i = match find(rows, id) {
        Some(i) => i,
        None => rows.len() as int,
    };
    lemma_find_is(once, id, i);
}

/// Two reports of the same free capacity resolve to one shared pool, whatever
/// the instances and the folders that they come from: the second creates no
/// pool, and both folders are bound to the same one.
pub proof fn law_equal_capacity_shares_pool(
    reg: RegistryView,
    first_kind: Acquirer,
    first_id: i32,
    first_path: Seq<char>,
    second_kind: Acquirer,
    second_id: i32,
    second_path: Seq<char>,
    capacity: u64,
)
    ensures
        ({
            let once = registered(reg, first_kind, first_id, first_path, capacity);
            let twice = registered(once, second_kind, second_id, second_path, capacity);
            &&& twice.disks == once.disks
            &&& registered_binding(once, second_id, second_path, capacity).disk_id
                == registered_binding(reg, first_id, first_path, capacity).disk_id
            &&& once.disks.len() <= reg.disks.len() + 1
        }),
{
    let key = DiskKey::Capacity(capacity);
    let once = pooled(reg.disks, capacity);
    lemma_find_disk(reg.disks, key);
    lemma_find_disk(once, key);
    match find_disk(reg.disks, key) {
        Some(i) => {},
        None => {
            match find_disk(once, key) {
                Some(k) => {
                },
                None => {
                },
            }
        },
    }
}

/// The records after each of `writes` was stored, in order.
pub open spec fn stored_all(rows: Seq<TitleView>, writes: Seq<TitleView>) -> Seq<TitleView>
    decreases writes.len(),
{
    if writes.len() == 0 {
        rows
    } else {
        stored(stored_all(rows, writes.drop_last()), writes.last())
    }
}

/// Whether the record that a change wrote accounts for the whole change:
/// storing it gives the records after the change, and a change that wrote
/// nothing left the records as they were.
pub open spec fn accounted(rows: Seq<TitleView>, change: Change) -> bool {
    match change.written {
        Some(w) => change.rows == stored(rows, w),
        None => change.rows == rows,
    }
}

/// What an acquisition fact writes accounts for what it changes.
pub proof fn lemma_acquire_accounted(rows: Seq<TitleView>, fact: TitleView, tier: QualityTier)
    ensures
        accounted(rows, acquire(rows, fact, tier)),
{
    lemma_find(rows, RefView::ExternalId(fact.external_id));
}

/// What a discovery fact writes accounts for what it changes.
pub proof fn lemma_discover_accounted(rows: Seq<TitleView>, fact: TitleView)
    ensures
        accounted(rows, discover(rows, fact)),
        distinct_ids(rows) ==> distinct_ids(discover(rows, fact).rows),
{
    lemma_find(rows, RefView::ExternalId(fact.external_id));
}

/// What an observed playback writes accounts for what it changes, in a
/// catalog in which an id identifies one record.
pub proof fn lemma_watch_accounted(rows: Seq<TitleView>, r: RefView, seen_at: i32)
    requires
        distinct_ids(rows),
    ensures
        accounted(rows, watch(rows, r, seen_at)),
        distinct_ids(watch(rows, r, seen_at).rows),
{
    lemma_find(rows, r);
    match find(rows, r) {
        Some(i) => {
            let id = RefView::ExternalId(rows[i].external_id);
            lemma_find_is(rows, id, i);
        },
        None => {},
    }
}

proof fn lemma_stored_all_push(rows: Seq<TitleView>, writes: Seq<TitleView>, w: TitleView)
    ensures
        stored_all(rows, writes.push(w)) == stored(stored_all(rows, writes), w),
{
    assert(writes.push(w).drop_last() =~= writes);
}

/// The writes of an acquisition pass are all that it changed: storing them,
/// in order, in the catalog as it was before the pass gives the catalog as
/// it is after the pass.
pub proof fn law_acquisition_writes_are_the_changes(
    rows: Seq<TitleView>,
    facts: Seq<TitleView>,
    tier: QualityTier,
)
    ensures
        stored_all(rows, acquire_all(rows, facts, tier).report.writes) == acquire_all(
            rows,
            facts,
            tier,
        ).rows,
    decreases facts.len(),
{
    if facts.len() > 0 {
        let before = acquire_all(rows, facts.drop_last(), tier);
        law_acquisition_writes_are_the_changes(rows, facts.drop_last(), tier);
        lemma_acquire_accounted(before.rows, facts.last(), tier);
        match acquire(before.rows, facts.last(), tier).written {
            Some(w) => lemma_stored_all_push(rows, before.report.writes, w),
            None => {},
        }
    }
}

/// The writes of a discovery pass are all that it changed.
pub proof fn law_discovery_writes_are_the_changes(rows: Seq<TitleView>, facts: Seq<TitleView>)
    ensures
        stored_all(rows, discover_all(rows, facts).report.writes) == discover_all(rows, facts).rows,
    decreases facts.len(),
{
    if facts.len() > 0 {
        let before = discover_all(rows, facts.drop_last());
        law_discovery_writes_are_the_changes(rows, facts.drop_last());
        lemma_discover_accounted(before.rows, facts.last());
        match discover(before.rows, facts.last()).written {
            Some(w) => lemma_stored_all_push(rows, before.report.writes, w),
            None => {},
        }
    }
}

/// The writes of an activity pass are all that it changed, in a catalog in
/// which an id identifies one record; and an id still identifies one record
/// after the pass.
pub proof fn law_activity_writes_are_the_changes(rows: Seq<TitleView>, facts: Seq<ActivityView>)
    requires
        distinct_ids(rows),
    ensures
        stored_all(rows, watch_all(rows, facts).report.writes) == watch_all(rows, facts).rows,
        distinct_ids(watch_all(rows, facts).rows),
    decreases facts.len(),
{
    if facts.len() > 0 {
        let before = watch_all(rows, facts.drop_last());
        law_activity_writes_are_the_changes(rows, facts.drop_last());
        lemma_watch_accounted(before.rows, facts.last().reference, facts.last().seen_at);
        match watch(before.rows, facts.last().reference, facts.last().seen_at).written {
            Some(w) => lemma_stored_all_push(rows, before.report.writes, w),
            None => {},
        }
    }
}

/// The writes of a replay are all that it changed, whether or not it failed,
/// in a catalog in which an id identifies one record.
pub proof fn law_replay_writes_are_the_changes(rows: Seq<TitleView>, history: Seq<RowView>)
    requires
        distinct_ids(rows),
    ensures
        stored_all(rows, replay_all(rows, history).pass.report.writes) == replay_all(
            rows,
            history,
        ).pass.rows,
        distinct_ids(replay_all(rows, history).pass.rows),
    decreases history.len(),
{
    if history.len() > 0 {
        let before = replay_all(rows, history.drop_last());
        law_replay_writes_are_the_changes(rows, history.drop_last());
        if !before.failed {
            match history.last() {
                RowView::Seen { kind, reference, seen_at } => {
                    match replay(before.pass.rows, reference, seen_at) {
                        Some(change) => {
                            match seen_at {
                                Some(t) => {
                                    lemma_watch_accounted(before.pass.rows, reference, t);
                                },
                                None => {},
                            }
                            match change.written {
                                Some(w) => lemma_stored_all_push(
                                    rows,
                                    before.pass.report.writes,
                                    w,
                                ),
                                None => {},
                            }
                        },
                        None => {},
                    }
                },
                RowView::Malformed => {},
            }
        }
    }
}

/// What discovery takes into a known record is what the merge table lets a
/// fact without name and paths change: the playback key, if the fact has
/// one, and the last view, forward only.
pub proof fn law_discovery_follows_the_merge_table(canon: TitleView, inbound: TitleView)
    ensures
        refreshed(canon, inbound) == (TitleView {
            name: canon.name,
            ..merged(canon, inbound, None)
        }),
        inbound.playback_key.len() > 0 ==> refreshed(canon, inbound).playback_key
            == inbound.playback_key,
        inbound.playback_key.len() == 0 ==> refreshed(canon, inbound).playback_key
            == canon.playback_key,
        refreshed(canon, inbound).last_view == later(canon.last_view, inbound.last_view),
{
}

/// A discovery fact about a title that the catalog holds creates no record
/// and changes no other: its record takes the fact's playback key, if it has
/// one, and moves its last view forward to the fact's, and keeps the rest.
pub proof fn law_discovery_of_a_known_title(rows: Seq<TitleView>, fact: TitleView, i: int)
    requires
        find(rows, RefView::ExternalId(fact.external_id)) == Some(i),
    ensures
        discover(rows, fact).rows.len() == rows.len(),
        discover(rows, fact).rows[i] == refreshed(rows[i], fact),
        forall|j: int| 0 <= j < rows.len() && j != i ==> #[trigger] discover(rows, fact).rows[j] == rows[j],
        discover(rows, fact).outcome != Outcome::Created,
        discover(rows, fact).outcome == Outcome::Unchanged <==> refreshed(rows[i], fact) == rows[i],
{
    lemma_find(rows, RefView::ExternalId(fact.external_id));
}

/// Whether a fact tells neither a playback key nor a view, as the facts of
/// the acquisition services do.
pub open spec fn is_bare(fact: TitleView) -> bool {
    fact.playback_key.len() == 0 && fact.last_view == NEVER_VIEWED
}

/// Whether none of `facts` tells a playback key or a view.
pub open spec fn all_bare(facts: Seq<TitleView>) -> bool {
    forall|k: int| 0 <= k < facts.len() ==> is_bare(#[trigger] facts[k])
}

/// Whether a fact among `facts` is about the title with the given id.
pub open spec fn names_id(facts: Seq<TitleView>, id: i32) -> bool {
    exists|k: int| 0 <= k < facts.len() && (#[trigger] facts[k]).external_id == id
}

proof fn lemma_collected_bare(readings: Seq<Reading>)
    requires
        forall|k: int|
            0 <= k < readings.len() ==> ((#[trigger] readings[k]) matches Reading::Fact(t)
                ==> is_bare(t)),
    ensures
        collected(readings) matches Some(facts) ==> all_bare(facts),
    decreases readings.len(),
{
    if readings.len() > 0 {
        let head = readings.drop_last();
        lemma_collected_bare(head);
    }
}

/// The facts that a document of an acquisition service reports tell neither
/// a playback key nor a view.
pub proof fn law_acquisition_facts_are_bare(source: Source, text: Seq<char>)
    requires
        source is Radarr || source is Sonarr,
    ensures
        text_facts(source, text) matches Some(facts) ==> all_bare(facts),
{
    match json_parsed(text) {
        Some(document) => {
            match document.as_items() {
                Some(entries) => {
                    lemma_collected_bare(readings_of(source, entries));
                },
                None => {},
            }
        },
        None => {},
    }
}

/// An acquisition pass over facts that tell neither a playback key nor a view
/// keeps every record at its position with its identity, last view, playback
/// key and protection, leaves a record that no fact is about as it was, and
/// creates records that were never viewed, have no playback key and are not
/// protected.
pub proof fn law_acquisition_keeps_views_keys_and_protection(
    rows: Seq<TitleView>,
    facts: Seq<TitleView>,
    tier: QualityTier,
)
    requires
        all_bare(facts),
    ensures
        acquire_all(rows, facts, tier).rows.len() >= rows.len(),
        forall|i: int|
            0 <= i < rows.len() ==> {
                let after = #[trigger] acquire_all(rows, facts, tier).rows[i];
                &&& after.external_id == rows[i].external_id
                &&& after.last_view == rows[i].last_view
                &&& after.playback_key == rows[i].playback_key
                &&& after.protected == rows[i].protected
                &&& !names_id(facts, rows[i].external_id) ==> after == rows[i]
            },
        forall|i: int|
            rows.len() <= i < acquire_all(rows, facts, tier).rows.len() ==> {
                let made = #[trigger] acquire_all(rows, facts, tier).rows[i];
                &&& made.last_view == NEVER_VIEWED
                &&& made.playback_key.len() == 0
                &&& !made.protected
            },
    decreases facts.len(),
{
    if facts.len() > 0 {
        let head = facts.drop_last();
        let fact = facts.last();
        law_acquisition_keeps_views_keys_and_protection(rows, head, tier);
        let mid = acquire_all(rows, head, tier).rows;
        lemma_find(mid, RefView::ExternalId(fact.external_id));
    }
}

/// An acquisition pass from a document keeps the last view, the playback key
/// and the protection of every record, and leaves a record that the
/// document does not name as it was.
pub proof fn law_acquisition_from_a_document_keeps_views_keys_and_protection(
    rows: Seq<TitleView>,
    source: Source,
    text: Seq<char>,
    tier: QualityTier,
)
    requires
        source is Radarr || source is Sonarr,
        text_facts(source, text) is Some,
    ensures
        ({
            let facts = text_facts(source, text).unwrap();
            let after = acquire_all(rows, facts, tier).rows;
            &&& after.len() >= rows.len()
            &&& forall|i: int|
                0 <= i < rows.len() ==> {
                    &&& (#[trigger] after[i]).external_id == rows[i].external_id
                    &&& after[i].last_view == rows[i].last_view
                    &&& after[i].playback_key == rows[i].playback_key
                    &&& after[i].protected == rows[i].protected
                    &&& !names_id(facts, rows[i].external_id) ==> after[i] == rows[i]
                }
        }),
{
    law_acquisition_facts_are_bare(source, text);
    law_acquisition_keeps_views_keys_and_protection(rows, text_facts(source, text).unwrap(), tier);
}

/// No fabrication, of a replay over both catalogs. It creates no record in
/// either, whether or not it fails: each catalog holds as many records after
/// it as before, each with the identity, name, paths, key and protection that
/// it had, and no last view has moved back.
pub proof fn law_twin_replay_creates_nothing(
    movies: Seq<TitleView>,
    series: Seq<TitleView>,
    history: Seq<RowView>,
)
    ensures
        same_but_views(movies, twin_replay(movies, series, history).movies.rows),
        same_but_views(series, twin_replay(movies, series, history).series.rows),
        twin_replay(movies, series, history).movies.report.created == 0,
        twin_replay(movies, series, history).series.report.created == 0,
        forall|i: int|
            0 <= i < movies.len() ==> (#[trigger] twin_replay(
                movies,
                series,
                history,
            ).movies.rows[i]).last_view >= movies[i].last_view,
        forall|i: int|
            0 <= i < series.len() ==> (#[trigger] twin_replay(
                movies,
                series,
                history,
            ).series.rows[i]).last_view >= series[i].last_view,
    decreases history.len(),
{
    if history.len() > 0 {
        let before = twin_replay(movies, series, history.drop_last());
        law_twin_replay_creates_nothing(movies, series, history.drop_last());
        let end = twin_replay(movies, series, history);
        match history.last() {
            RowView::Seen { kind, reference, seen_at } => {
                match seen_at {
                    Some(t) => {
                        lemma_watch_effect(before.movies.rows, reference, t);
                        lemma_watch_effect(before.series.rows, reference, t);
                    },
                    None => {},
                }
            },
            RowView::Malformed => {},
        }
        assert forall|i: int| 0 <= i < movies.len() implies #[trigger] end.movies.rows[i] == (
        TitleView { last_view: end.movies.rows[i].last_view, ..movies[i] })
            && end.movies.rows[i].last_view >= movies[i].last_view by {}
        assert forall|i: int| 0 <= i < series.len() implies #[trigger] end.series.rows[i] == (
        TitleView { last_view: end.series.rows[i].last_view, ..series[i] })
            && end.series.rows[i].last_view >= series[i].last_view by {}
    }
}

/// Whether every entry of a history names a title and gives a time.
pub open spec fn readable(history: Seq<RowView>) -> bool {
    forall|i: int|
        0 <= i < history.len() ==> (#[trigger] history[i]) is Seen && history[i]->seen_at is Some
}

/// The playbacks of the titles of one kind in a history, in order.
pub open spec fn playbacks_of(history: Seq<RowView>, kind: MediaKind) -> Seq<ActivityView>
    decreases history.len(),
{
    if history.len() == 0 {
        Seq::empty()
    } else {
        let before = playbacks_of(history.drop_last(), kind);
        match history.last() {
            RowView::Seen { kind: of, reference, seen_at: Some(t) } => if of == kind {
                before.push(ActivityView { reference, seen_at: t })
            } else {
                before
            },
            _ => before,
        }
    }
}

/// A replay of a readable history over both catalogs does not fail, and is
/// the activity pass over the playbacks of movies on the catalog of movies
/// and the activity pass over the playbacks of series on the catalog of
/// series.
pub proof fn law_readable_twin_replay_is_two_activity_passes(
    movies: Seq<TitleView>,
    series: Seq<TitleView>,
    history: Seq<RowView>,
)
    requires
        readable(history),
    ensures
        twin_replay(movies, series, history) == (TwinReplay {
            movies: watch_all(movies, playbacks_of(history, MediaKind::Movie)),
            series: watch_all(series, playbacks_of(history, MediaKind::Series)),
            failed: false,
        }),
    decreases history.len(),
{
    if history.len() > 0 {
        let head = history.drop_last();
        assert forall|i: int| 0 <= i < head.len() implies (#[trigger] head[i]) is Seen
            && head[i]->seen_at is Some by {}
        law_readable_twin_replay_is_two_activity_passes(movies, series, head);
        let last = history.last();
        let m = watch_all(movies, playbacks_of(head, MediaKind::Movie)).rows;
        let s = watch_all(series, playbacks_of(head, MediaKind::Series)).rows;
        lemma_find(m, last->reference);
        lemma_find(s, last->reference);
        if last->kind == MediaKind::Movie {
            assert(playbacks_of(history, MediaKind::Movie).drop_last() =~= playbacks_of(
                head,
                MediaKind::Movie,
            ));
        } else {
            assert(playbacks_of(history, MediaKind::Series).drop_last() =~= playbacks_of(
                head,
                MediaKind::Series,
            ));
        }
    }
}

/// Every playback of a kind comes from an entry of the history, and every
/// readable entry of that kind gives a playback.
proof fn lemma_playbacks_are_the_entries(history: Seq<RowView>, kind: MediaKind)
    ensures
        forall|k: int|
            0 <= k < playbacks_of(history, kind).len() ==> history.contains(
                RowView::Seen {
                    kind,
                    reference: (#[trigger] playbacks_of(history, kind)[k]).reference,
                    seen_at: Some(playbacks_of(history, kind)[k].seen_at),
                },
            ),
        forall|j: int|
            0 <= j < history.len() && (#[trigger] history[j]) is Seen && history[j]->kind == kind
                && history[j]->seen_at is Some ==> playbacks_of(history, kind).contains(
                ActivityView {
                    reference: history[j]->reference,
                    seen_at: history[j]->seen_at.unwrap(),
                },
            ),
    decreases history.len(),
{
    if history.len() > 0 {
        let head = history.drop_last();
        let before = playbacks_of(head, kind);
        let all = playbacks_of(history, kind);
        lemma_playbacks_are_the_entries(head, kind);
        assert forall|j: int|
            0 <= j < history.len() && (#[trigger] history[j]) is Seen && history[j]->kind == kind
                && history[j]->seen_at is Some implies all.contains(
            ActivityView {
                reference: history[j]->reference,
                seen_at: history[j]->seen_at.unwrap(),
            },
        ) by {
            let fact = ActivityView {
                reference: history[j]->reference,
                seen_at: history[j]->seen_at.unwrap(),
            };
            if j < head.len() {
                assert(head[j] == history[j]);
                let k = choose|k: int| 0 <= k < before.len() && before[k] == fact;
                assert(all[k] == fact);
            } else {
                assert(all[all.len() - 1] == fact);
            }
        }
    }
}

proof fn lemma_playbacks_of_same_entries(first: Seq<RowView>, second: Seq<RowView>, kind: MediaKind)
    requires
        forall|k: int| 0 <= k < first.len() ==> second.contains(#[trigger] first[k]),
    ensures
        forall|k: int|
            0 <= k < playbacks_of(first, kind).len() ==> playbacks_of(second, kind).contains(
                #[trigger] playbacks_of(first, kind)[k],
            ),
{
    lemma_playbacks_are_the_entries(first, kind);
    lemma_playbacks_are_the_entries(second, kind);
}

/// Monotonicity of a replay over both catalogs, whatever the order. Two
/// replays of the same readable entries, taken in any two orders, leave the
/// same records in both catalogs.
pub proof fn law_twin_replay_order_is_irrelevant(
    movies: Seq<TitleView>,
    series: Seq<TitleView>,
    first: Seq<RowView>,
    second: Seq<RowView>,
)
    requires
        readable(first),
        first.to_multiset() == second.to_multiset(),
    ensures
        !twin_replay(movies, series, first).failed,
        !twin_replay(movies, series, second).failed,
        twin_replay(movies, series, first).movies.rows == twin_replay(
            movies,
            series,
            second,
        ).movies.rows,
        twin_replay(movies, series, first).series.rows == twin_replay(
            movies,
            series,
            second,
        ).series.rows,
{
    lemma_same_elements(first, second);
    assert forall|i: int| 0 <= i < second.len() implies (#[trigger] second[i]) is Seen
        && second[i]->seen_at is Some by {
    }
    law_readable_twin_replay_is_two_activity_passes(movies, series, first);
    law_readable_twin_replay_is_two_activity_passes(movies, series, second);
    lemma_playbacks_of_same_entries(first, second, MediaKind::Movie);
    lemma_playbacks_of_same_entries(second, first, MediaKind::Movie);
    lemma_playbacks_of_same_entries(first, second, MediaKind::Series);
    lemma_playbacks_of_same_entries(second, first, MediaKind::Series);
    lemma_same_playbacks_same_records(
        movies,
        playbacks_of(first, MediaKind::Movie),
        playbacks_of(second, MediaKind::Movie),
    );
    lemma_same_playbacks_same_records(
        series,
        playbacks_of(first, MediaKind::Series),
        playbacks_of(second, MediaKind::Series),
    );
}

/// Monotonicity of a replay over both catalogs, on repetition. A replay of a
/// readable history that is run a second time leaves the records of both
/// catalogs as the first run left them.
pub proof fn law_twin_replay_is_idempotent(
    movies: Seq<TitleView>,
    series: Seq<TitleView>,
    history: Seq<RowView>,
)
    requires
        readable(history),
    ensures
        ({
            let once = twin_replay(movies, series, history);
            let twice = twin_replay(once.movies.rows, once.series.rows, history);
            &&& !once.failed && !twice.failed
            &&& twice.movies.rows == once.movies.rows
            &&& twice.series.rows == once.series.rows
        }),
{
    let once = twin_replay(movies, series, history);
    law_readable_twin_replay_is_two_activity_passes(movies, series, history);
    law_readable_twin_replay_is_two_activity_passes(once.movies.rows, once.series.rows, history);
    law_activity_pass_is_idempotent(movies, playbacks_of(history, MediaKind::Movie));
    law_activity_pass_is_idempotent(series, playbacks_of(history, MediaKind::Series));
}

/// Monotonicity of a replay, whatever the order. Two replays of the same
/// readable entries over one catalog, taken in any two orders, leave the same
/// records.
pub proof fn law_replay_order_is_irrelevant(
    rows: Seq<TitleView>,
    first: Seq<RowView>,
    second: Seq<RowView>,
)
    requires
        readable(first),
        first.to_multiset() == second.to_multiset(),
    ensures
        !replay_all(rows, first).failed,
        !replay_all(rows, second).failed,
        replay_all(rows, first).pass.rows == replay_all(rows, second).pass.rows,
{
    lemma_same_elements(first, second);
    assert forall|i: int| 0 <= i < second.len() implies (#[trigger] second[i]) is Seen
        && second[i]->seen_at is Some by {
    }
    law_readable_replay_is_an_activity_pass(rows, first);
    law_readable_replay_is_an_activity_pass(rows, second);
    let a = timed_playbacks(first);
    let b = timed_playbacks(second);
    assert forall|k: int| 0 <= k < a.len() implies b.contains(#[trigger] a[k]) by {
        let m = choose|m: int| 0 <= m < second.len() && second[m] == first[k];
        assert(b[m] == a[k]);
    }
    assert forall|k: int| 0 <= k < b.len() implies a.contains(#[trigger] b[k]) by {
        let m = choose|m: int| 0 <= m < first.len() && first[m] == second[k];
        assert(a[m] == b[k]);
    }
    lemma_same_playbacks_same_records(rows, a, b);
}

/// Monotonicity of a replay, on repetition. A replay of a readable history
/// that is run a second time leaves the records as the first run left them.
pub proof fn law_replay_is_idempotent(rows: Seq<TitleView>, history: Seq<RowView>)
    requires
        readable(history),
    ensures
        !replay_all(rows, history).failed,
        replay_all(replay_all(rows, history).pass.rows, history).pass.rows == replay_all(
            rows,
            history,
        ).pass.rows,
{
    law_readable_replay_is_an_activity_pass(rows, history);
    law_readable_replay_is_an_activity_pass(replay_all(rows, history).pass.rows, history);
    law_activity_pass_is_idempotent(rows, timed_playbacks(history));
}

} // verus!
