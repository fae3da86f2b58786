//! A pass that is run again over the same facts leaves the catalog as the
//! first run left it.

use vstd::prelude::*;
use crate::catalog::{acquire_all, discover_all, distinct_ids, find, lemma_find, RefView};
use crate::title::{blank_title, later, merged, refreshed, QualityTier, TitleView, NEVER_VIEWED};

verus! {

/// The record `c` once the facts with its id, among `facts`, were merged into
/// it, in order.
pub open spec fn absorbed(c: TitleView, facts: Seq<TitleView>, tier: QualityTier) -> TitleView
    decreases facts.len(),
{
    if facts.len() == 0 {
        c
    } else {
        let before = absorbed(c, facts.drop_last(), tier);
        if facts.last().external_id == c.external_id {
            merged(before, facts.last(), Some(tier))
        } else {
            before
        }
    }
}

/// What the facts about one title say in the end.
pub struct Digest {
    /// Whether there is a fact about the title.
    pub any: bool,
    /// The name that the last fact gives.
    pub name: Seq<char>,
    /// The path that the last fact gives.
    pub path: Seq<char>,
    /// The last playback key that a fact gives; empty if none gives one.
    pub key: Seq<char>,
    /// The latest view that a fact gives.
    pub latest: i32,
}

/// The path of a record in a tier.
pub open spec fn tier_path(t: TitleView, tier: QualityTier) -> Seq<char> {
    match tier {
        QualityTier::Hd => t.path_hd,
        QualityTier::UltraHd => t.path_4k,
    }
}

/// What the facts with the given id, among `facts`, say in the end.
pub open spec fn digest(id: i32, facts: Seq<TitleView>, tier: QualityTier) -> Digest
    decreases facts.len(),
{
    if facts.len() == 0 {
        Digest {
            any: false,
            name: Seq::empty(),
            path: Seq::empty(),
            key: Seq::empty(),
            latest: NEVER_VIEWED,
        }
    } else {
        let before = digest(id, facts.drop_last(), tier);
        let fact = facts.last();
        if fact.external_id == id {
            Digest {
                any: true,
                name: fact.name,
                path: tier_path(fact, tier),
                key: if fact.playback_key.len() > 0 {
                    fact.playback_key
                } else {
                    before.key
                },
                latest: later(before.latest, fact.last_view),
            }
        } else {
            before
        }
    }
}

/// The record `c` once a digest of facts about it was taken into it.
pub open spec fn digested(c: TitleView, d: Digest, tier: QualityTier) -> TitleView {
    if !d.any {
        c
    } else {
        TitleView {
            external_id: c.external_id,
            name: d.name,
            path_hd: if tier == QualityTier::Hd {
                d.path
            } else {
                c.path_hd
            },
            path_4k: if tier == QualityTier::UltraHd {
                d.path
            } else {
                c.path_4k
            },
            playback_key: if d.key.len() > 0 {
                d.key
            } else {
                c.playback_key
            },
            last_view: later(c.last_view, d.latest),
            protected: c.protected,
        }
    }
}

/// Merging the facts about a title one by one comes to taking their digest.
pub proof fn lemma_absorbed_is_digested(c: TitleView, facts: Seq<TitleView>, tier: QualityTier)
    ensures
        absorbed(c, facts, tier) == digested(c, digest(c.external_id, facts, tier), tier),
        !digest(c.external_id, facts, tier).any ==> digest(c.external_id, facts, tier).key.len()
            == 0 && digest(c.external_id, facts, tier).latest == NEVER_VIEWED,
        absorbed(c, facts, tier).external_id == c.external_id,
    decreases facts.len(),
{
    if facts.len() > 0 {
        lemma_absorbed_is_digested(c, facts.drop_last(), tier);
    }
}

/// A record that absorbed facts has nothing more to take from them.
pub proof fn lemma_absorbed_twice(c: TitleView, facts: Seq<TitleView>, tier: QualityTier)
    ensures
        absorbed(absorbed(c, facts, tier), facts, tier) == absorbed(c, facts, tier),
{
    lemma_absorbed_is_digested(c, facts, tier);
    lemma_absorbed_is_digested(absorbed(c, facts, tier), facts, tier);
}

/// A record takes nothing from facts that are about other titles.
pub proof fn lemma_absorbed_nothing(c: TitleView, facts: Seq<TitleView>, tier: QualityTier)
    requires
        forall|k: int| 0 <= k < facts.len() ==> (#[trigger] facts[k]).external_id != c.external_id,
    ensures
        absorbed(c, facts, tier) == c,
    decreases facts.len(),
{
    if facts.len() > 0 {
        let head = facts.drop_last();
        assert forall|k: int| 0 <= k < head.len() implies (#[trigger] head[k]).external_id
            != c.external_id by {}
        lemma_absorbed_nothing(c, head, tier);
    }
}

/// The record from which the record at `i` of a catalog after a pass grew:
/// the record that was there before the pass, or a blank one.
pub open spec fn origin(rows: Seq<TitleView>, after: Seq<TitleView>, i: int) -> TitleView {
    if i < rows.len() {
        rows[i]
    } else {
        blank_title(after[i].external_id)
    }
}

/// Whether every fact is about a title that the catalog holds.
pub open spec fn all_known(rows: Seq<TitleView>, facts: Seq<TitleView>) -> bool {
    forall|k: int|
        0 <= k < facts.len() ==> find(rows, RefView::ExternalId((#[trigger] facts[k]).external_id))
            is Some
}

/// A catalog that holds a record with an id knows that id.
proof fn lemma_known_by_id(rows: Seq<TitleView>, id: i32, i: int)
    requires
        0 <= i < rows.len(),
        rows[i].external_id == id,
    ensures
        find(rows, RefView::ExternalId(id)) is Some,
{
    lemma_find(rows, RefView::ExternalId(id));
}

/// What an acquisition pass makes of a catalog in which an id identifies one
/// record: every record absorbed the facts about its title, the records that
/// were created grew from blank ones, and every fact is about a title that
/// the catalog holds after the pass.
pub proof fn lemma_acquire_all_effect(rows: Seq<TitleView>, facts: Seq<TitleView>, tier: QualityTier)
    requires
        distinct_ids(rows),
    ensures
        ({
            let after = acquire_all(rows, facts, tier).rows;
            &&& after.len() >= rows.len()
            &&& distinct_ids(after)
            &&& all_known(after, facts)
            &&& forall|i: int|
                0 <= i < after.len() ==> #[trigger] after[i] == absorbed(
                    origin(rows, after, i),
                    facts,
                    tier,
                )
        }),
    decreases facts.len(),
{
    let after = acquire_all(rows, facts, tier).rows;
    if facts.len() > 0 {
        let head = facts.drop_last();
        let fact = facts.last();
        let mid = acquire_all(rows, head, tier).rows;
        let id = RefView::ExternalId(fact.external_id);
        lemma_acquire_all_effect(rows, head, tier);
        lemma_find(mid, id);
        assert forall|i: int| 0 <= i < mid.len() implies (#[trigger] mid[i]).external_id == origin(
            rows,
            mid,
            i,
        ).external_id by {
            lemma_absorbed_is_digested(origin(rows, mid, i), head, tier);
        }
        match find(mid, id) {
            Some(at) => {
                assert forall|k: int| 0 <= k < facts.len() implies find(
                    after,
                    RefView::ExternalId((#[trigger] facts[k]).external_id),
                ) is Some by {
                    if k < head.len() {
                        assert(head[k] == facts[k]);
                        let key = RefView::ExternalId(facts[k].external_id);
                        lemma_find(mid, key);
                        let j = find(mid, key).unwrap();
                        lemma_known_by_id(after, facts[k].external_id, j);
                    } else {
                        lemma_known_by_id(after, fact.external_id, at);
                    }
                }
            },
            None => {
                assert forall|k: int| 0 <= k < head.len() implies (#[trigger] head[k]).external_id
                    != fact.external_id by {
                    let key = RefView::ExternalId(head[k].external_id);
                    lemma_find(mid, key);
                }
                lemma_absorbed_nothing(blank_title(fact.external_id), head, tier);
                assert forall|k: int| 0 <= k < facts.len() implies find(
                    after,
                    RefView::ExternalId((#[trigger] facts[k]).external_id),
                ) is Some by {
                    if k < head.len() {
                        assert(head[k] == facts[k]);
                        let key = RefView::ExternalId(facts[k].external_id);
                        lemma_find(mid, key);
                        let j = find(mid, key).unwrap();
                        lemma_known_by_id(after, facts[k].external_id, j);
                    } else {
                        lemma_known_by_id(after, fact.external_id, mid.len() as int);
                    }
                }
            },
        }
    }
}

/// A pass over facts that are all about titles that the catalog holds creates nothing.
pub proof fn lemma_known_facts_create_nothing(
    rows: Seq<TitleView>,
    facts: Seq<TitleView>,
    taken: Seq<TitleView>,
    tier: QualityTier,
)
    requires
        all_known(rows, facts),
        forall|k: int| 0 <= k < taken.len() ==> facts.contains(#[trigger] taken[k]),
    ensures
        acquire_all(rows, taken, tier).rows.len() == rows.len(),
        acquire_all(rows, taken, tier).report.created == 0,
        forall|i: int|
            0 <= i < rows.len() ==> (#[trigger] acquire_all(rows, taken, tier).rows[i]).external_id
                == rows[i].external_id,
    decreases taken.len(),
{
    if taken.len() > 0 {
        let head = taken.drop_last();
        let fact = taken.last();
        lemma_known_facts_create_nothing(rows, facts, head, tier);
        let mid = acquire_all(rows, head, tier).rows;
        let id = RefView::ExternalId(fact.external_id);
        lemma_find(rows, id);
        let at = find(rows, id).unwrap();
        lemma_known_by_id(mid, fact.external_id, at);
        lemma_find(mid, id);
    }
}

/// Idempotence of an acquisition pass. In a catalog in which an id identifies
/// one record, a pass that is run again over the same facts leaves every
/// record as the first run left it, and creates none.
pub proof fn law_acquisition_pass_is_idempotent(
    rows: Seq<TitleView>,
    facts: Seq<TitleView>,
    tier: QualityTier,
)
    requires
        distinct_ids(rows),
    ensures
        acquire_all(acquire_all(rows, facts, tier).rows, facts, tier).rows == acquire_all(
            rows,
            facts,
            tier,
        ).rows,
        acquire_all(acquire_all(rows, facts, tier).rows, facts, tier).report.created == 0,
{
    let once = acquire_all(rows, facts, tier).rows;
    let twice = acquire_all(once, facts, tier).rows;
    lemma_acquire_all_effect(rows, facts, tier);
    lemma_acquire_all_effect(once, facts, tier);
    lemma_known_facts_create_nothing(once, facts, facts, tier);
    assert forall|i: int| 0 <= i < once.len() implies twice[i] == once[i] by {
        lemma_absorbed_twice(origin(rows, once, i), facts, tier);
    }
}

/// The record `c` once the discovery facts with its id, among `facts`, were
/// taken into it, in order.
pub open spec fn soaked(c: TitleView, facts: Seq<TitleView>) -> TitleView
    decreases facts.len(),
{
    if facts.len() == 0 {
        c
    } else {
        let before = soaked(c, facts.drop_last());
        if facts.last().external_id == c.external_id {
            refreshed(before, facts.last())
        } else {
            before
        }
    }
}

/// The record `c` once the playback key and the latest view of a digest of
/// facts about it were taken into it.
pub open spec fn noted(c: TitleView, d: Digest) -> TitleView {
    TitleView {
        playback_key: if d.key.len() > 0 {
            d.key
        } else {
            c.playback_key
        },
        last_view: later(c.last_view, d.latest),
        ..c
    }
}

/// Taking the discovery facts about a title one by one comes to taking the
/// playback key and the latest view of their digest.
pub proof fn lemma_soaked_is_noted(c: TitleView, facts: Seq<TitleView>)
    ensures
        soaked(c, facts) == noted(c, digest(c.external_id, facts, QualityTier::Hd)),
        soaked(c, facts).external_id == c.external_id,
        soaked(c, facts).name == c.name,
    decreases facts.len(),
{
    if facts.len() > 0 {
        lemma_soaked_is_noted(c, facts.drop_last());
    }
}

/// A record that took discovery facts in has nothing more to take from them.
pub proof fn lemma_soaked_twice(c: TitleView, facts: Seq<TitleView>)
    ensures
        soaked(soaked(c, facts), facts) == soaked(c, facts),
{
    lemma_soaked_is_noted(c, facts);
    lemma_soaked_is_noted(soaked(c, facts), facts);
}

/// A record takes nothing from discovery facts that are about other titles.
pub proof fn lemma_soaked_nothing(c: TitleView, facts: Seq<TitleView>)
    requires
        forall|k: int| 0 <= k < facts.len() ==> (#[trigger] facts[k]).external_id != c.external_id,
    ensures
        soaked(c, facts) == c,
    decreases facts.len(),
{
    if facts.len() > 0 {
        let head = facts.drop_last();
        assert forall|k: int| 0 <= k < head.len() implies (#[trigger] head[k]).external_id
            != c.external_id by {}
        lemma_soaked_nothing(c, head);
    }
}

/// The record from which the record at `i` of a catalog after a discovery
/// pass grew: the record that was there before the pass, or a record that has
/// nothing but its id and its name.
pub open spec fn seed(rows: Seq<TitleView>, after: Seq<TitleView>, i: int) -> TitleView {
    if i < rows.len() {
        rows[i]
    } else {
        TitleView { name: after[i].name, ..blank_title(after[i].external_id) }
    }
}

/// What a discovery pass makes of a catalog in which an id identifies one
/// record: every record took in the facts about its title, the records that
/// were created grew from records with nothing but an id and a name, and
/// every fact is about a title that the catalog holds after the pass.
pub proof fn lemma_discover_all_effect(rows: Seq<TitleView>, facts: Seq<TitleView>)
    requires
        distinct_ids(rows),
    ensures
        ({
            let after = discover_all(rows, facts).rows;
            &&& after.len() >= rows.len()
            &&& distinct_ids(after)
            &&& all_known(after, facts)
            &&& forall|i: int|
                0 <= i < after.len() ==> #[trigger] after[i] == soaked(seed(rows, after, i), facts)
        }),
    decreases facts.len(),
{
    let after = discover_all(rows, facts).rows;
    if facts.len() > 0 {
        let head = facts.drop_last();
        let fact = facts.last();
        let mid = discover_all(rows, head).rows;
        let id = RefView::ExternalId(fact.external_id);
        lemma_discover_all_effect(rows, head);
        lemma_find(mid, id);
        assert forall|i: int| 0 <= i < mid.len() implies (#[trigger] mid[i]).external_id == seed(
            rows,
            mid,
            i,
        ).external_id && mid[i].name == seed(rows, mid, i).name by {
            lemma_soaked_is_noted(seed(rows, mid, i), head);
        }
        match find(mid, id) {
            Some(at) => {
                assert forall|k: int| 0 <= k < facts.len() implies find(
                    after,
                    RefView::ExternalId((#[trigger] facts[k]).external_id),
                ) is Some by {
                    if k < head.len() {
                        assert(head[k] == facts[k]);
                        let key = RefView::ExternalId(facts[k].external_id);
                        lemma_find(mid, key);
                        let j = find(mid, key).unwrap();
                        lemma_known_by_id(after, facts[k].external_id, j);
                    } else {
                        lemma_known_by_id(after, fact.external_id, at);
                    }
                }
            },
            None => {
                let from = TitleView { name: fact.name, ..blank_title(fact.external_id) };
                assert forall|k: int| 0 <= k < head.len() implies (#[trigger] head[k]).external_id
                    != fact.external_id by {
                    let key = RefView::ExternalId(head[k].external_id);
                    lemma_find(mid, key);
                }
                lemma_soaked_nothing(from, head);
                assert forall|k: int| 0 <= k < facts.len() implies find(
                    after,
                    RefView::ExternalId((#[trigger] facts[k]).external_id),
                ) is Some by {
                    if k < head.len() {
                        assert(head[k] == facts[k]);
                        let key = RefView::ExternalId(facts[k].external_id);
                        lemma_find(mid, key);
                        let j = find(mid, key).unwrap();
                        lemma_known_by_id(after, facts[k].external_id, j);
                    } else {
                        lemma_known_by_id(after, fact.external_id, mid.len() as int);
                    }
                }
            },
        }
    }
}

/// A discovery pass over facts that are all about titles that the catalog
/// holds creates nothing.
pub proof fn lemma_known_facts_discover_nothing(
    rows: Seq<TitleView>,
    facts: Seq<TitleView>,
    taken: Seq<TitleView>,
)
    requires
        all_known(rows, facts),
        forall|k: int| 0 <= k < taken.len() ==> facts.contains(#[trigger] taken[k]),
    ensures
        discover_all(rows, taken).rows.len() == rows.len(),
        discover_all(rows, taken).report.created == 0,
        forall|i: int|
            0 <= i < rows.len() ==> (#[trigger] discover_all(rows, taken).rows[i]).external_id
                == rows[i].external_id,
    decreases taken.len(),
{
    if taken.len() > 0 {
        let head = taken.drop_last();
        let fact = taken.last();
        lemma_known_facts_discover_nothing(rows, facts, head);
        let mid = discover_all(rows, head).rows;
        let id = RefView::ExternalId(fact.external_id);
        lemma_find(rows, id);
        let at = find(rows, id).unwrap();
        lemma_known_by_id(mid, fact.external_id, at);
        lemma_find(mid, id);
    }
}

/// Idempotence of a discovery pass. In a catalog in which an id identifies
/// one record, a pass that is run again over the same facts leaves every
/// record as the first run left it, and creates none. Where two facts about
/// one title differ, the second run may write that title's record on the way.
pub proof fn law_discovery_pass_is_idempotent(rows: Seq<TitleView>, facts: Seq<TitleView>)
    requires
        distinct_ids(rows),
    ensures
        discover_all(discover_all(rows, facts).rows, facts).rows == discover_all(rows, facts).rows,
        discover_all(discover_all(rows, facts).rows, facts).report.created == 0,
{
    let once = discover_all(rows, facts).rows;
    let twice = discover_all(once, facts).rows;
    lemma_discover_all_effect(rows, facts);
    lemma_discover_all_effect(once, facts);
    lemma_known_facts_discover_nothing(once, facts, facts);
    assert forall|i: int| 0 <= i < once.len() implies twice[i] == once[i] by {
        lemma_soaked_twice(seed(rows, once, i), facts);
    }
}

} // verus!
