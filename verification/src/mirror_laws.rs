//! What holds of every refresh, proved over the model of [`crate::mirror`].

use crate::entity::{key_of, EntityView, Local, Summary};
use crate::mirror::{
    absorbed, absorbed_one, absorption, absorptions, evictions, ids, refresh_changes, refreshed,
    reported, survivors, ChangeView,
};
use vstd::prelude::*;

verus! {

/// Whether a listing holds a snapshot with the given ID that the mirror is to take in.
pub open spec fn offered<S: Summary>(response: Seq<S::V>, id: Seq<char>) -> bool {
    exists|k: int|
        0 <= k < response.len() && S::listed(#[trigger] response[k]) && S::key(response[k]) == id
}

/// The last snapshot that a listing offers for the given ID; `otherwise` where it offers
/// none.
pub open spec fn latest<S: Summary>(response: Seq<S::V>, id: Seq<char>, otherwise: S::V) -> S::V
    decreases response.len(),
{
    if response.len() == 0 {
        otherwise
    } else if S::listed(response.last()) && S::key(response.last()) == id {
        response.last()
    } else {
        latest::<S>(response.drop_last(), id, otherwise)
    }
}

/// The last snapshot offered for an ID carries that ID, and does not depend on what
/// stands in for a missing one; where none is offered the stand-in is the result.
pub proof fn lemma_latest<S: Summary>(
    response: Seq<S::V>,
    id: Seq<char>,
    otherwise: S::V,
    other: S::V,
)
    ensures
        offered::<S>(response, id) ==> {
            &&& latest::<S>(response, id, otherwise) == latest::<S>(response, id, other)
            &&& S::key(latest::<S>(response, id, otherwise)) == id
        },
        !offered::<S>(response, id) ==> latest::<S>(response, id, otherwise) == otherwise,
    decreases response.len(),
{
    if response.len() > 0 {
        let earlier = response.drop_last();
        lemma_latest::<S>(earlier, id, otherwise, other);
        lemma_offered_step::<S>(response, id);
    }
}

/// A listing offers an ID where its last snapshot does or an earlier one does.
pub proof fn lemma_offered_step<S: Summary>(response: Seq<S::V>, id: Seq<char>)
    requires
        response.len() > 0,
    ensures
        offered::<S>(response, id) <==> (S::listed(response.last()) && S::key(response.last())
            == id) || offered::<S>(response.drop_last(), id),
{
    let earlier = response.drop_last();
    if offered::<S>(response, id) {
        let k = choose|k: int|
            0 <= k < response.len() && S::listed(#[trigger] response[k]) && S::key(response[k])
                == id;
        if k < response.len() - 1 {
            assert(earlier[k] == response[k]);
        }
    }
    if offered::<S>(earlier, id) {
        let k = choose|k: int|
            0 <= k < earlier.len() && S::listed(#[trigger] earlier[k]) && S::key(earlier[k]) == id;
        assert(response[k] == earlier[k]);
    }
    if S::listed(response.last()) && S::key(response.last()) == id {
        assert(response[response.len() - 1] == response.last());
    }
}

/// What absorbing a listing makes of a mirror without duplicate IDs: no ID is duplicated;
/// every entity that was there stays at its position, with its local state, under the last
/// snapshot offered for it; behind them stand new entities, each for an offered ID.
pub proof fn lemma_absorbed<S: Summary, L: Local>(
    entities: Seq<EntityView<S::V, L::V>>,
    response: Seq<S::V>,
)
    requires
        ids::<S, L>(entities).no_duplicates(),
    ensures
        ids::<S, L>(absorbed::<S, L>(entities, response)).no_duplicates(),
        absorbed::<S, L>(entities, response).len() >= entities.len(),
        forall|i: int|
            0 <= i < entities.len() ==> #[trigger] absorbed::<S, L>(entities, response)[i]
                == (EntityView {
                summary: latest::<S>(response, key_of::<S, L>(entities[i]), entities[i].summary),
                local: entities[i].local,
            }),
        forall|i: int|
            0 <= i < entities.len() ==> key_of::<S, L>(
                #[trigger] absorbed::<S, L>(entities, response)[i],
            ) == key_of::<S, L>(entities[i]),
        forall|i: int|
            entities.len() <= i < absorbed::<S, L>(entities, response).len() ==> {
                let entity = #[trigger] absorbed::<S, L>(entities, response)[i];
                &&& offered::<S>(response, key_of::<S, L>(entity))
                &&& entity.local == L::fresh_view()
                &&& entity.summary == latest::<S>(response, key_of::<S, L>(entity), entity.summary)
            },
        forall|id: Seq<char>|
            #[trigger] ids::<S, L>(absorbed::<S, L>(entities, response)).contains(id) <==> ids::<
                S,
                L,
            >(entities).contains(id) || offered::<S>(response, id),
    decreases response.len(),
{
    let after = absorbed::<S, L>(entities, response);
    if response.len() == 0 {
        assert forall|id: Seq<char>| !offered::<S>(response, id) by {}
    } else {
        let earlier = response.drop_last();
        let summary = response.last();
        let previous = absorbed::<S, L>(entities, earlier);
        let id = S::key(summary);
        lemma_absorbed::<S, L>(entities, earlier);
        assert(after == absorbed_one::<S, L>(previous, summary));
        assert forall|other: Seq<char>|
            offered::<S>(response, other) <==> (S::listed(summary) && S::key(summary) == other)
                || offered::<S>(earlier, other) by {
            lemma_offered_step::<S>(response, other);
        }
        if !S::listed(summary) {
        } else if ids::<S, L>(previous).contains(id) {
            let at = ids::<S, L>(previous).index_of(id);
            assert(key_of::<S, L>(previous[at]) == id);
            assert(ids::<S, L>(after) =~= ids::<S, L>(previous));
            assert forall|i: int| 0 <= i < previous.len() && i != at implies key_of::<S, L>(
                #[trigger] previous[i],
            ) != id by {
                assert(ids::<S, L>(previous)[i] != ids::<S, L>(previous)[at]);
            }
        } else {
            assert(ids::<S, L>(after) =~= ids::<S, L>(previous).push(id));
            assert forall|i: int| 0 <= i < previous.len() implies key_of::<S, L>(
                #[trigger] previous[i],
            ) != id by {
                assert(ids::<S, L>(previous)[i] == key_of::<S, L>(previous[i]));
            }
            assert forall|i: int, j: int|
                0 <= i < after.len() && 0 <= j < after.len() && i != j implies ids::<S, L>(
                after,
            )[i] != ids::<S, L>(after)[j] by {
                if i < previous.len() && j < previous.len() {
                    assert(ids::<S, L>(previous)[i] != ids::<S, L>(previous)[j]);
                } else if i < previous.len() {
                    assert(ids::<S, L>(previous)[i] == key_of::<S, L>(previous[i]));
                } else {
                    assert(ids::<S, L>(previous)[j] == key_of::<S, L>(previous[j]));
                }
            }
            assert forall|other: Seq<char>|
                #[trigger] ids::<S, L>(after).contains(other) <==> ids::<S, L>(entities).contains(
                    other,
                ) || offered::<S>(response, other) by {
                if ids::<S, L>(after).contains(other) {
                    let w = choose|w: int|
                        0 <= w < ids::<S, L>(after).len() && ids::<S, L>(after)[w] == other;
                    if w < previous.len() {
                        assert(ids::<S, L>(previous)[w] == other);
                    }
                }
                if ids::<S, L>(previous).contains(other) {
                    let w = choose|w: int|
                        0 <= w < ids::<S, L>(previous).len() && ids::<S, L>(previous)[w] == other;
                    assert(ids::<S, L>(after)[w] == other);
                }
                if other == id {
                    assert(ids::<S, L>(after)[previous.len() as int] == id);
                }
            }
        }
        assert forall|i: int| 0 <= i < entities.len() implies #[trigger] after[i] == (EntityView {
            summary: latest::<S>(response, key_of::<S, L>(entities[i]), entities[i].summary),
            local: entities[i].local,
        }) && key_of::<S, L>(after[i]) == key_of::<S, L>(entities[i]) by {
            assert(key_of::<S, L>(previous[i]) == key_of::<S, L>(entities[i]));
        }
        assert forall|i: int| entities.len() <= i < after.len() implies {
            let entity = #[trigger] after[i];
            &&& offered::<S>(response, key_of::<S, L>(entity))
            &&& entity.local == L::fresh_view()
            &&& entity.summary == latest::<S>(response, key_of::<S, L>(entity), entity.summary)
        } by {
            if i < previous.len() {
                let entity = previous[i];
                if S::listed(summary) && key_of::<S, L>(entity) != id {
                    assert(after[i] == entity);
                }
            }
        }
    }
}

/// What eviction leaves of a mirror without duplicate IDs: exactly the entities whose IDs
/// the listing mentions, still without duplicate IDs.
pub proof fn lemma_survivors<S: Summary, L: Local>(
    entities: Seq<EntityView<S::V, L::V>>,
    response: Seq<S::V>,
)
    requires
        ids::<S, L>(entities).no_duplicates(),
    ensures
        ids::<S, L>(survivors::<S, L>(entities, response)).no_duplicates(),
        survivors::<S, L>(entities, response).len() <= entities.len(),
        forall|i: int|
            0 <= i < survivors::<S, L>(entities, response).len() ==> {
                let entity = #[trigger] survivors::<S, L>(entities, response)[i];
                &&& reported::<S>(response, key_of::<S, L>(entity))
                &&& entities.contains(entity)
            },
        forall|id: Seq<char>|
            #[trigger] ids::<S, L>(survivors::<S, L>(entities, response)).contains(id) <==> ids::<
                S,
                L,
            >(entities).contains(id) && reported::<S>(response, id),
    decreases entities.len(),
{
    reveal(Seq::filter);
    let kept = survivors::<S, L>(entities, response);
    if entities.len() > 0 {
        let earlier = entities.drop_last();
        let entity = entities.last();
        let id = key_of::<S, L>(entity);
        let before = survivors::<S, L>(earlier, response);
        assert(ids::<S, L>(earlier) =~= ids::<S, L>(entities).drop_last());
        assert forall|i: int, j: int|
            0 <= i < earlier.len() && 0 <= j < earlier.len() && i != j implies ids::<S, L>(
            earlier,
        )[i] != ids::<S, L>(earlier)[j] by {
            assert(ids::<S, L>(entities)[i] != ids::<S, L>(entities)[j]);
        }
        lemma_survivors::<S, L>(earlier, response);
        assert(!ids::<S, L>(earlier).contains(id)) by {
            if ids::<S, L>(earlier).contains(id) {
                let w = choose|w: int|
                    0 <= w < ids::<S, L>(earlier).len() && ids::<S, L>(earlier)[w] == id;
                assert(ids::<S, L>(entities)[w] == ids::<S, L>(entities)[entities.len() - 1]);
            }
        }
        assert forall|i: int| 0 <= i < before.len() implies entities.contains(
            #[trigger] before[i],
        ) by {
            let w = choose|w: int| 0 <= w < earlier.len() && earlier[w] == before[i];
            assert(entities[w] == before[i]);
        }
        assert(entities[entities.len() - 1] == entity);
        if reported::<S>(response, id) {
            assert(kept == before.push(entity));
            assert(ids::<S, L>(kept) =~= ids::<S, L>(before).push(id));
            assert forall|i: int, j: int|
                0 <= i < kept.len() && 0 <= j < kept.len() && i != j implies ids::<S, L>(kept)[i]
                != ids::<S, L>(kept)[j] by {
                if i < before.len() && j < before.len() {
                    assert(ids::<S, L>(before)[i] != ids::<S, L>(before)[j]);
                } else if i < before.len() {
                    assert(ids::<S, L>(before).contains(ids::<S, L>(before)[i]));
                } else {
                    assert(ids::<S, L>(before).contains(ids::<S, L>(before)[j]));
                }
            }
        } else {
            assert(kept == before);
        }
        assert forall|other: Seq<char>|
            #[trigger] ids::<S, L>(kept).contains(other) <==> ids::<S, L>(entities).contains(other)
                && reported::<S>(response, other) by {
            if ids::<S, L>(kept).contains(other) {
                let w = choose|w: int|
                    0 <= w < ids::<S, L>(kept).len() && ids::<S, L>(kept)[w] == other;
                if w < before.len() {
                    assert(ids::<S, L>(before)[w] == other);
                    assert(ids::<S, L>(before).contains(other));
                    let v = choose|v: int|
                        0 <= v < ids::<S, L>(earlier).len() && ids::<S, L>(earlier)[v] == other;
                    assert(ids::<S, L>(entities)[v] == other);
                } else {
                    assert(ids::<S, L>(entities)[entities.len() - 1] == other);
                }
            }
            if ids::<S, L>(entities).contains(other) && reported::<S>(response, other) {
                let v = choose|v: int|
                    0 <= v < ids::<S, L>(entities).len() && ids::<S, L>(entities)[v] == other;
                if v < earlier.len() {
                    assert(ids::<S, L>(earlier)[v] == other);
                    assert(ids::<S, L>(before).contains(other));
                    let w = choose|w: int|
                        0 <= w < ids::<S, L>(before).len() && ids::<S, L>(before)[w] == other;
                    assert(ids::<S, L>(kept)[w] == other);
                } else {
                    assert(ids::<S, L>(kept)[kept.len() - 1] == other);
                }
            }
        }
    }
}

/// Where the listing mentions every entity, eviction removes nothing and reports nothing.
pub proof fn lemma_nothing_to_evict<S: Summary, L: Local>(
    entities: Seq<EntityView<S::V, L::V>>,
    response: Seq<S::V>,
)
    requires
        forall|i: int|
            0 <= i < entities.len() ==> reported::<S>(
                response,
                key_of::<S, L>(#[trigger] entities[i]),
            ),
    ensures
        survivors::<S, L>(entities, response) == entities,
        evictions::<S, L>(entities, response).len() == 0,
    decreases entities.len(),
{
    reveal(Seq::filter);
    if entities.len() > 0 {
        let earlier = entities.drop_last();
        assert forall|i: int| 0 <= i < earlier.len() implies reported::<S>(
            response,
            key_of::<S, L>(#[trigger] earlier[i]),
        ) by {
            assert(earlier[i] == entities[i]);
        }
        lemma_nothing_to_evict::<S, L>(earlier, response);
        assert(entities[entities.len() - 1] == entities.last());
        assert(earlier.push(entities.last()) =~= entities);
    } else {
        assert(survivors::<S, L>(entities, response) =~= entities);
    }
}

/// Where the mirror already holds every ID that the listing offers, absorbing the listing
/// adds nothing: the IDs stay as they are, and every change reported is an update.
pub proof fn lemma_nothing_to_add<S: Summary, L: Local>(
    entities: Seq<EntityView<S::V, L::V>>,
    response: Seq<S::V>,
)
    requires
        forall|id: Seq<char>|
            offered::<S>(response, id) ==> #[trigger] ids::<S, L>(entities).contains(id),
    ensures
        ids::<S, L>(absorbed::<S, L>(entities, response)) == ids::<S, L>(entities),
        forall|k: int|
            0 <= k < absorptions::<S, L>(entities, response).len()
                ==> #[trigger] absorptions::<S, L>(entities, response)[k] is Updated,
    decreases response.len(),
{
    if response.len() > 0 {
        let earlier = response.drop_last();
        let summary = response.last();
        let previous = absorbed::<S, L>(entities, earlier);
        assert forall|id: Seq<char>| offered::<S>(earlier, id) implies #[trigger] ids::<S, L>(
            entities,
        ).contains(id) by {
            lemma_offered_step::<S>(response, id);
        }
        lemma_nothing_to_add::<S, L>(entities, earlier);
        if S::listed(summary) {
            let id = S::key(summary);
            lemma_offered_step::<S>(response, id);
            assert(ids::<S, L>(entities).contains(id));
            let at = ids::<S, L>(previous).index_of(id);
            assert(key_of::<S, L>(previous[at]) == id);
            assert(ids::<S, L>(absorbed_one::<S, L>(previous, summary)) =~= ids::<S, L>(previous));
        }
    }
}

/// A refresh, with whatever listing, never makes a mirror hold two entities with the same
/// remote ID.
pub proof fn lemma_refresh_keeps_ids_distinct<S: Summary, L: Local>(
    entities: Seq<EntityView<S::V, L::V>>,
    full: bool,
    response: Seq<S::V>,
)
    requires
        ids::<S, L>(entities).no_duplicates(),
    ensures
        ids::<S, L>(refreshed::<S, L>(entities, full, response)).no_duplicates(),
{
    lemma_survivors::<S, L>(entities, response);
    if full {
        lemma_absorbed::<S, L>(survivors::<S, L>(entities, response), response);
    } else {
        lemma_absorbed::<S, L>(entities, response);
    }
}

/// A mirror after a sequence of successful refreshes, each given by whether it was full
/// and by its listing, first to last.
pub open spec fn refreshed_in_turn<S: Summary, L: Local>(
    entities: Seq<EntityView<S::V, L::V>>,
    refreshes: Seq<(bool, Seq<S::V>)>,
) -> Seq<EntityView<S::V, L::V>>
    decreases refreshes.len(),
{
    if refreshes.len() == 0 {
        entities
    } else {
        refreshed::<S, L>(
            refreshed_in_turn::<S, L>(entities, refreshes.drop_last()),
            refreshes.last().0,
            refreshes.last().1,
        )
    }
}

/// Whatever the sequence of refreshes, a mirror that starts empty never comes to hold two
/// entities with the same remote ID.
pub proof fn lemma_refreshes_keep_ids_distinct<S: Summary, L: Local>(
    refreshes: Seq<(bool, Seq<S::V>)>,
)
    ensures
        ids::<S, L>(refreshed_in_turn::<S, L>(Seq::empty(), refreshes)).no_duplicates(),
    decreases refreshes.len(),
{
    if refreshes.len() == 0 {
        assert(ids::<S, L>(Seq::<EntityView<S::V, L::V>>::empty()) =~= Seq::empty());
    } else {
        lemma_refreshes_keep_ids_distinct::<S, L>(refreshes.drop_last());
        lemma_refresh_keeps_ids_distinct::<S, L>(
            refreshed_in_turn::<S, L>(Seq::empty(), refreshes.drop_last()),
            refreshes.last().0,
            refreshes.last().1,
        );
    }
}

/// After a full refresh the mirror holds an ID exactly where the listing offers it, or
/// where the mirror held it before and the listing still mentions it.
pub proof fn lemma_full_refresh_holds<S: Summary, L: Local>(
    entities: Seq<EntityView<S::V, L::V>>,
    response: Seq<S::V>,
    id: Seq<char>,
)
    requires
        ids::<S, L>(entities).no_duplicates(),
    ensures
        ids::<S, L>(refreshed::<S, L>(entities, true, response)).contains(id) <==> offered::<S>(
            response,
            id,
        ) || (ids::<S, L>(entities).contains(id) && reported::<S>(response, id)),
{
    lemma_survivors::<S, L>(entities, response);
    lemma_absorbed::<S, L>(survivors::<S, L>(entities, response), response);
}

/// A full refresh deletes exactly the entities that the listing does not mention.
pub proof fn lemma_full_refresh_deletes_the_absent<S: Summary, L: Local>(
    entities: Seq<EntityView<S::V, L::V>>,
    response: Seq<S::V>,
    entity: EntityView<S::V, L::V>,
)
    ensures
        evictions::<S, L>(entities, response).contains(ChangeView::Deleted { entity })
            <==> entities.contains(entity) && !reported::<S>(response, key_of::<S, L>(entity)),
    decreases entities.len(),
{
    let log = evictions::<S, L>(entities, response);
    let wanted = ChangeView::<S::V, L::V>::Deleted { entity };
    if entities.len() > 0 {
        let earlier = entities.drop_last();
        let last = entities.last();
        let before = evictions::<S, L>(earlier, response);
        lemma_full_refresh_deletes_the_absent::<S, L>(earlier, response, entity);
        assert(entities[entities.len() - 1] == last);
        if earlier.contains(entity) {
            let w = choose|w: int| 0 <= w < earlier.len() && earlier[w] == entity;
            assert(entities[w] == entity);
        }
        if entities.contains(entity) {
            let w = choose|w: int| 0 <= w < entities.len() && entities[w] == entity;
            if w < earlier.len() {
                assert(earlier[w] == entity);
            }
        }
        if before.contains(wanted) {
            let w = choose|w: int| 0 <= w < before.len() && before[w] == wanted;
            assert(log[w] == wanted);
        }
        if !reported::<S>(response, key_of::<S, L>(last)) {
            assert(log[log.len() - 1] == ChangeView::<S::V, L::V>::Deleted { entity: last });
            if log.contains(wanted) {
                let w = choose|w: int| 0 <= w < log.len() && log[w] == wanted;
                if w < before.len() {
                    assert(before[w] == wanted);
                }
            }
        }
    }
}

/// A full refresh is idempotent: a second one with the same listing leaves every entity
/// as the first one left it, evicts nothing and adds nothing; all it reports is updates.
pub proof fn lemma_full_refresh_idempotent<S: Summary, L: Local>(
    entities: Seq<EntityView<S::V, L::V>>,
    response: Seq<S::V>,
)
    requires
        ids::<S, L>(entities).no_duplicates(),
    ensures
        refreshed::<S, L>(refreshed::<S, L>(entities, true, response), true, response)
            == refreshed::<S, L>(entities, true, response),
        forall|k: int|
            0 <= k < refresh_changes::<S, L>(
                refreshed::<S, L>(entities, true, response),
                true,
                response,
            ).len() ==> #[trigger] refresh_changes::<S, L>(
                refreshed::<S, L>(entities, true, response),
                true,
                response,
            )[k] is Updated,
{
    let kept = survivors::<S, L>(entities, response);
    let once = absorbed::<S, L>(kept, response);
    lemma_survivors::<S, L>(entities, response);
    lemma_absorbed::<S, L>(kept, response);
    assert forall|i: int| 0 <= i < once.len() implies reported::<S>(
        response,
        key_of::<S, L>(#[trigger] once[i]),
    ) by {
        let id = key_of::<S, L>(once[i]);
        if i < kept.len() {
            assert(key_of::<S, L>(kept[i]) == id);
        } else {
            let k = choose|k: int|
                0 <= k < response.len() && S::listed(#[trigger] response[k]) && S::key(
                    response[k],
                ) == id;
            assert(S::key(response[k]) == id);
        }
    }
    lemma_nothing_to_evict::<S, L>(once, response);
    lemma_nothing_to_add::<S, L>(once, response);
    lemma_absorbed::<S, L>(once, response);
    let twice = absorbed::<S, L>(once, response);
    assert(twice.len() == once.len()) by {
        assert(ids::<S, L>(twice).len() == ids::<S, L>(once).len());
    }
    assert forall|i: int| 0 <= i < once.len() implies twice[i] == once[i] by {
        let id = key_of::<S, L>(once[i]);
        if i < kept.len() {
            lemma_latest::<S>(response, id, once[i].summary, kept[i].summary);
        } else {
        }
        lemma_latest::<S>(response, id, once[i].summary, once[i].summary);
    }
    assert(twice =~= once);
    assert(refresh_changes::<S, L>(once, true, response) =~= absorptions::<S, L>(once, response));
}

/// Absorbing a listing that offers an ID which the mirror does not hold reports that ID
/// as added.
pub proof fn lemma_offer_is_added<S: Summary, L: Local>(
    entities: Seq<EntityView<S::V, L::V>>,
    response: Seq<S::V>,
    wanted: Seq<char>,
)
    requires
        ids::<S, L>(entities).no_duplicates(),
        !ids::<S, L>(entities).contains(wanted),
        offered::<S>(response, wanted),
    ensures
        exists|k: int|
            0 <= k < absorptions::<S, L>(entities, response).len() && (
            #[trigger] absorptions::<S, L>(entities, response)[k] matches ChangeView::Added {
                position,
                id,
            } && id == wanted),
    decreases response.len(),
{
    let log = absorptions::<S, L>(entities, response);
    if response.len() > 0 {
        let earlier = response.drop_last();
        let before = absorptions::<S, L>(entities, earlier);
        let previous = absorbed::<S, L>(entities, earlier);
        lemma_offered_step::<S>(response, wanted);
        if offered::<S>(earlier, wanted) {
            lemma_offer_is_added::<S, L>(entities, earlier, wanted);
            let k = choose|k: int|
                0 <= k < before.len() && (#[trigger] before[k] matches ChangeView::Added {
                    position,
                    id,
                } && id == wanted);
            assert(log[k] == before[k]);
        } else {
            lemma_absorbed::<S, L>(entities, earlier);
            assert(!ids::<S, L>(previous).contains(wanted));
            let last = absorption::<S, L>(previous, response.last());
            assert(last.len() == 1);
            assert(log[before.len() as int] == last[0]);
        }
    }
}

/// Absorbing a listing reports additions and updates only.
pub proof fn lemma_absorptions_add_or_update<S: Summary, L: Local>(
    entities: Seq<EntityView<S::V, L::V>>,
    response: Seq<S::V>,
)
    ensures
        forall|k: int|
            0 <= k < absorptions::<S, L>(entities, response).len() ==> (
            #[trigger] absorptions::<S, L>(entities, response)[k] is Added || absorptions::<S, L>(
                entities,
                response,
            )[k] is Updated),
    decreases response.len(),
{
    if response.len() > 0 {
        lemma_absorptions_add_or_update::<S, L>(entities, response.drop_last());
    }
}

} // verus!
