//! The entity mirror: the local, insertion-ordered copy of one remote collection.
//!
//! A mirror changes in two ways. A listing of the remote collection is absorbed by
//! [`Mirror::apply_refresh`]: entities that a full listing no longer reports are evicted,
//! new ones are appended, known ones are updated in place. A single entity is evicted by
//! [`Mirror::remove`]. Both report what they did as a sequence of [`Change`]s, in the order
//! in which an observer is to be told.

use crate::counting::{count, lemma_count_bounds, lemma_count_step};
use crate::entity::{
    created, key_of, marked_as, selected_as, updated, views, Entity, EntityView, Local, Summary,
};
use crate::ordered_map::OrderedMap;
use vstd::prelude::*;

verus! {

/// One observable change of a mirror.
pub enum Change<S, L> {
    /// A new entity was appended at `position`.
    Added { position: usize, id: String },
    /// The entity at `position` got a newer snapshot.
    Updated { position: usize, id: String },
    /// The entity that stood at `position` left the mirror.
    Removed { position: usize, id: String },
    /// The entity is gone for good; it is handed over for a last look.
    Deleted { entity: Entity<S, L> },
}

/// The mathematical value of a [`Change`].
pub ghost enum ChangeView<SV, LV> {
    Added { position: int, id: Seq<char> },
    Updated { position: int, id: Seq<char> },
    Removed { position: int, id: Seq<char> },
    Deleted { entity: EntityView<SV, LV> },
}

impl<S: View, L: View> View for Change<S, L> {
    type V = ChangeView<S::V, L::V>;

    open spec fn view(&self) -> Self::V {
        match *self {
            Change::Added { position, id } => ChangeView::Added {
                position: position as int,
                id: id@,
            },
            Change::Updated { position, id } => ChangeView::Updated {
                position: position as int,
                id: id@,
            },
            Change::Removed { position, id } => ChangeView::Removed {
                position: position as int,
                id: id@,
            },
            Change::Deleted { entity } => ChangeView::Deleted { entity: entity@ },
        }
    }
}

/// The remote IDs of a sequence of entities, in order.
pub open spec fn ids<S: Summary, L: Local>(entities: Seq<EntityView<S::V, L::V>>) -> Seq<
    Seq<char>,
> {
    Seq::new(entities.len(), |i: int| key_of::<S, L>(entities[i]))
}

/// The entity with the given ID, if there is one.
pub open spec fn find<S: Summary, L: Local>(
    entities: Seq<EntityView<S::V, L::V>>,
    id: Seq<char>,
) -> Option<EntityView<S::V, L::V>> {
    if ids::<S, L>(entities).contains(id) {
        Some(entities[ids::<S, L>(entities).index_of(id)])
    } else {
        None
    }
}

/// Whether a listing mentions the ID at all.
pub open spec fn reported<S: Summary>(response: Seq<S::V>, id: Seq<char>) -> bool {
    exists|k: int| 0 <= k < response.len() && S::key(#[trigger] response[k]) == id
}

/// What is left of `entities` once everything that `response` does not mention is evicted.
pub open spec fn survivors<S: Summary, L: Local>(
    entities: Seq<EntityView<S::V, L::V>>,
    response: Seq<S::V>,
) -> Seq<EntityView<S::V, L::V>> {
    entities.filter(|e: EntityView<S::V, L::V>| reported::<S>(response, key_of::<S, L>(e)))
}

/// The changes that evicting what `response` does not mention causes: for each evicted
/// entity, from the front, its removal at the position it has at that moment, then its
/// deletion.
pub open spec fn evictions<S: Summary, L: Local>(
    entities: Seq<EntityView<S::V, L::V>>,
    response: Seq<S::V>,
) -> Seq<ChangeView<S::V, L::V>>
    decreases entities.len(),
{
    if entities.len() == 0 {
        Seq::empty()
    } else {
        let earlier = entities.drop_last();
        let entity = entities.last();
        if reported::<S>(response, key_of::<S, L>(entity)) {
            evictions::<S, L>(earlier, response)
        } else {
            evictions::<S, L>(earlier, response) + removal::<S, L>(
                survivors::<S, L>(earlier, response).len() as int,
                entity,
            )
        }
    }
}

/// The two changes that one eviction causes.
pub open spec fn removal<S: Summary, L: Local>(
    position: int,
    entity: EntityView<S::V, L::V>,
) -> Seq<ChangeView<S::V, L::V>> {
    seq![
        ChangeView::Removed { position, id: key_of::<S, L>(entity) },
        ChangeView::Deleted { entity },
    ]
}

/// `entities` after one snapshot of a listing has been absorbed.
pub open spec fn absorbed_one<S: Summary, L: Local>(
    entities: Seq<EntityView<S::V, L::V>>,
    summary: S::V,
) -> Seq<EntityView<S::V, L::V>> {
    let id = S::key(summary);
    if !S::listed(summary) {
        entities
    } else if ids::<S, L>(entities).contains(id) {
        let i = ids::<S, L>(entities).index_of(id);
        entities.update(i, updated::<S, L>(entities[i], summary))
    } else {
        entities.push(created::<S, L>(summary))
    }
}

/// The change that absorbing one snapshot causes, if any.
pub open spec fn absorption<S: Summary, L: Local>(
    entities: Seq<EntityView<S::V, L::V>>,
    summary: S::V,
) -> Seq<ChangeView<S::V, L::V>> {
    let id = S::key(summary);
    if !S::listed(summary) {
        Seq::empty()
    } else if ids::<S, L>(entities).contains(id) {
        seq![ChangeView::Updated { position: ids::<S, L>(entities).index_of(id), id }]
    } else {
        seq![ChangeView::Added { position: entities.len() as int, id }]
    }
}

/// `entities` after the snapshots of a listing have been absorbed, first to last.
pub open spec fn absorbed<S: Summary, L: Local>(
    entities: Seq<EntityView<S::V, L::V>>,
    response: Seq<S::V>,
) -> Seq<EntityView<S::V, L::V>>
    decreases response.len(),
{
    if response.len() == 0 {
        entities
    } else {
        absorbed_one::<S, L>(absorbed::<S, L>(entities, response.drop_last()), response.last())
    }
}

/// The changes that absorbing a listing causes, in the listing's order.
pub open spec fn absorptions<S: Summary, L: Local>(
    entities: Seq<EntityView<S::V, L::V>>,
    response: Seq<S::V>,
) -> Seq<ChangeView<S::V, L::V>>
    decreases response.len(),
{
    if response.len() == 0 {
        Seq::empty()
    } else {
        absorptions::<S, L>(entities, response.drop_last()) + absorption::<S, L>(
            absorbed::<S, L>(entities, response.drop_last()),
            response.last(),
        )
    }
}

/// `entities` after a successful refresh. A full refresh first evicts what the listing
/// does not mention; one that asked for a single ID evicts nothing.
pub open spec fn refreshed<S: Summary, L: Local>(
    entities: Seq<EntityView<S::V, L::V>>,
    full: bool,
    response: Seq<S::V>,
) -> Seq<EntityView<S::V, L::V>> {
    absorbed::<S, L>(
        if full {
            survivors::<S, L>(entities, response)
        } else {
            entities
        },
        response,
    )
}

/// The changes that a successful refresh causes: the evictions, then the absorptions.
pub open spec fn refresh_changes<S: Summary, L: Local>(
    entities: Seq<EntityView<S::V, L::V>>,
    full: bool,
    response: Seq<S::V>,
) -> Seq<ChangeView<S::V, L::V>> {
    if full {
        evictions::<S, L>(entities, response) + absorptions::<S, L>(
            survivors::<S, L>(entities, response),
            response,
        )
    } else {
        absorptions::<S, L>(entities, response)
    }
}

/// What a mirror did on an event, and what it asks of its owner.
pub enum Reaction<S, L> {
    /// The event changes nothing and asks for nothing.
    Nothing,
    /// The entity that the event names was evicted, if the mirror held it; these are the
    /// changes.
    Evicted(Vec<Change<S, L>>),
    /// The mirror is now listing. The owner is to list the remote collection, all of it
    /// or the one ID given, and to hand the result to the mirror.
    Refresh(Option<String>),
    /// The owner is to inspect the entity with this ID again.
    Inspect(String),
    /// The tags of an entity were changed locally, if the mirror held it.
    Retagged { intermediates_changed: bool },
    /// The event lacks what its action needs. It is to be logged and ignored.
    Invalid,
    /// The action is not one that the mirror knows. It is to be logged and ignored.
    Unknown,
}

/// What a refresh did to a mirror.
pub struct Refreshed<S, L> {
    /// The changes, in the order in which observers are told.
    pub changes: Vec<Change<S, L>>,
    /// Whether the listing failed; the mirror's entities are then as they were.
    pub failed: bool,
    /// Whether the mirror stopped being marked as listing.
    pub listing_changed: bool,
    /// Whether this was the first refresh that came back.
    pub initialized_changed: bool,
}

/// The local copy of one remote collection: its entities in the order in which they were
/// first seen, each under its remote ID, and how far the mirror is with listing them.
pub struct Mirror<S, L> {
    entries: OrderedMap<Entity<S, L>>,
    listing: bool,
    initialized: bool,
}

impl<S: Summary, L: Local> View for Mirror<S, L> {
    type V = Seq<EntityView<S::V, L::V>>;

    closed spec fn view(&self) -> Self::V {
        views(self.entries.values())
    }
}

impl<S: Summary, L: Local> Mirror<S, L> {
    /// Each entity is filed under its own remote ID, and no ID is filed twice.
    pub closed spec fn wf(&self) -> bool {
        &&& self.entries.wf()
        &&& self.entries.keys() == ids::<S, L>(self@)
    }

    /// Whether a refresh is under way.
    pub closed spec fn is_listing(&self) -> bool {
        self.listing
    }

    /// Whether a refresh has ever come back, with a listing or with a failure.
    pub closed spec fn initialized(&self) -> bool {
        self.initialized
    }

    /// No two entities of a mirror have the same remote ID.
    pub proof fn lemma_ids_distinct(&self)
        requires
            self.wf(),
        ensures
            ids::<S, L>(self@).no_duplicates(),
    {
    }

    /// A mirror that holds nothing and has never listed anything.
    pub fn new() -> (mirror: Self)
        ensures
            mirror.wf(),
            mirror@ == Seq::<EntityView<S::V, L::V>>::empty(),
            !mirror.is_listing(),
            !mirror.initialized(),
    {
        let mirror = Mirror { entries: OrderedMap::new(), listing: false, initialized: false };
        assert(mirror@ =~= Seq::empty());
        assert(mirror.entries.keys() =~= ids::<S, L>(mirror@));
        mirror
    }

    /// The number of entities.
    pub fn len(&self) -> (n: usize)
        requires
            self.wf(),
        ensures
            n == self@.len(),
    {
        self.entries.len()
    }

    /// Whether a refresh is under way.
    pub fn listing(&self) -> (listing: bool)
        ensures
            listing == self.is_listing(),
    {
        self.listing
    }

    /// Whether a refresh has ever come back, with a listing or with a failure.
    pub fn is_initialized(&self) -> (initialized: bool)
        ensures
            initialized == self.initialized(),
    {
        self.initialized
    }

    /// The position of the entity with the given ID.
    pub fn position(&self, id: &str) -> (found: Option<usize>)
        requires
            self.wf(),
        ensures
            found is Some <==> ids::<S, L>(self@).contains(id@),
            found matches Some(i) ==> i == ids::<S, L>(self@).index_of(id@) && i < self@.len(),
    {
        self.entries.position(id)
    }

    /// The entity with the given ID.
    pub fn get(&self, id: &str) -> (found: Option<&Entity<S, L>>)
        requires
            self.wf(),
        ensures
            found is Some <==> ids::<S, L>(self@).contains(id@),
            found matches Some(entity) ==> find::<S, L>(self@, id@) == Some(entity@),
    {
        match self.entries.position(id) {
            Some(i) => self.entries.get_index(i),
            None => None,
        }
    }

    /// The entity at the given position.
    pub fn get_index(&self, position: usize) -> (found: Option<&Entity<S, L>>)
        requires
            self.wf(),
        ensures
            found is Some <==> position < self@.len(),
            found matches Some(entity) ==> entity@ == self@[position as int],
    {
        self.entries.get_index(position)
    }

    /// Marks the mirror as listing or not. Tells whether that changed the mark.
    pub fn set_listing(&mut self, value: bool) -> (changed: bool)
        ensures
            final(self)@ == old(self)@,
            final(self).wf() == old(self).wf(),
            final(self).is_listing() == value,
            final(self).initialized() == old(self).initialized(),
            changed == (old(self).is_listing() != value),
    {
        let changed = self.listing != value;
        self.listing = value;
        changed
    }

    /// Records that a refresh has come back. Tells whether that is the first time.
    pub fn set_as_initialized(&mut self) -> (changed: bool)
        ensures
            final(self)@ == old(self)@,
            final(self).wf() == old(self).wf(),
            final(self).is_listing() == old(self).is_listing(),
            final(self).initialized(),
            changed == !old(self).initialized(),
    {
        let changed = !self.initialized;
        self.initialized = true;
        changed
    }

    /// The entity at `position`, for a change that keeps its remote ID.
    pub(crate) fn entity_mut(&mut self, position: usize) -> (entity: &mut Entity<S, L>)
        requires
            old(self).wf(),
            position < old(self)@.len(),
        ensures
            entity@ == old(self)@[position as int],
            final(self)@ == old(self)@.update(position as int, final(entity)@),
            final(self).is_listing() == old(self).is_listing(),
            final(self).initialized() == old(self).initialized(),
            key_of::<S, L>(final(entity)@) == key_of::<S, L>(old(self)@[position as int])
                ==> final(self).wf(),
    {
        let entity = self.entries.get_index_mut(position);
        proof {
            let before = old(self).entries.values();
            assert forall|e: Entity<S, L>|
                #[trigger] views(before.update(position as int, e)) == views(before).update(
                    position as int,
                    e@,
                ) by {
                assert(views(before.update(position as int, e)) =~= views(before).update(
                    position as int,
                    e@,
                ));
            }
            assert forall|e: EntityView<S::V, L::V>|
                key_of::<S, L>(e) == key_of::<S, L>(views(before)[position as int])
                    implies #[trigger] ids::<S, L>(views(before).update(position as int, e))
                    == ids::<S, L>(views(before)) by {
                assert(ids::<S, L>(views(before).update(position as int, e)) =~= ids::<S, L>(
                    views(before),
                ));
            }
        }
        entity
    }

    /// The number of entities that the user has selected.
    pub fn num_selected(&self) -> (n: usize)
        requires
            self.wf(),
        ensures
            n == count(self@, |entity: EntityView<S::V, L::V>| L::selected(entity.local)),
    {
        let ghost wanted = |entity: EntityView<S::V, L::V>| L::selected(entity.local);
        let mut n: usize = 0;
        let mut i: usize = 0;
        proof {
            lemma_count_bounds(self@.take(0), wanted);
        }
        while i < self.entries.len()
            invariant
                self.wf(),
                wanted == |entity: EntityView<S::V, L::V>| L::selected(entity.local),
                i <= self@.len(),
                n == count(self@.take(i as int), wanted),
                n <= i,
            decreases self@.len() - i,
        {
            proof {
                lemma_count_step(self@, wanted, i as int);
            }
            match self.entries.get_index(i) {
                Some(entity) => {
                    if entity.selected() {
                        n = n + 1;
                    }
                },
                None => {},
            }
            i = i + 1;
        }
        proof {
            assert(self@.take(i as int) =~= self@);
        }
        n
    }

    /// Selects the entity with the given ID, or takes the selection from it. Tells whether
    /// the mirror holds such an entity.
    pub fn set_selected(&mut self, id: &str, value: bool) -> (found: bool)
        requires
            old(self).wf(),
        ensures
            final(self).wf(),
            final(self).is_listing() == old(self).is_listing(),
            final(self).initialized() == old(self).initialized(),
            found == ids::<S, L>(old(self)@).contains(id@),
            final(self)@ == if found {
                let i = ids::<S, L>(old(self)@).index_of(id@);
                old(self)@.update(i, selected_as::<S, L>(old(self)@[i], value))
            } else {
                old(self)@
            },
    {
        match self.entries.position(id) {
            Some(i) => {
                let entity = self.entity_mut(i);
                entity.local.set_selected(value);
                true
            },
            None => false,
        }
    }

    /// Marks the entity with the given ID as about to be deleted, or takes the mark from
    /// it. Tells whether the mirror holds such an entity.
    pub fn set_to_be_deleted(&mut self, id: &str, value: bool) -> (found: bool)
        requires
            old(self).wf(),
        ensures
            final(self).wf(),
            final(self).is_listing() == old(self).is_listing(),
            final(self).initialized() == old(self).initialized(),
            found == ids::<S, L>(old(self)@).contains(id@),
            final(self)@ == if found {
                let i = ids::<S, L>(old(self)@).index_of(id@);
                old(self)@.update(i, marked_as::<S, L>(old(self)@[i], value))
            } else {
                old(self)@
            },
    {
        match self.entries.position(id) {
            Some(i) => {
                let entity = self.entity_mut(i);
                entity.local.set_to_be_deleted(value);
                true
            },
            None => false,
        }
    }

    /// Evicts the entity with the given ID, if the mirror holds it: the entity is removed
    /// from the mirror, then deleted. Afterwards the mirror has no entity with that ID.
    pub fn remove(&mut self, id: &str) -> (changes: Vec<Change<S, L>>)
        requires
            old(self).wf(),
        ensures
            final(self).wf(),
            final(self).is_listing() == old(self).is_listing(),
            final(self).initialized() == old(self).initialized(),
            !ids::<S, L>(final(self)@).contains(id@),
            find::<S, L>(final(self)@, id@) is None,
            ids::<S, L>(old(self)@).contains(id@) ==> {
                let i = ids::<S, L>(old(self)@).index_of(id@);
                &&& final(self)@ == old(self)@.remove(i)
                &&& views(changes@) == removal::<S, L>(i, old(self)@[i])
            },
            !ids::<S, L>(old(self)@).contains(id@) ==> {
                &&& final(self)@ == old(self)@
                &&& changes@.len() == 0
            },
    {
        let mut changes: Vec<Change<S, L>> = Vec::new();
        match self.entries.remove(id) {
            Some((position, entity)) => {
                proof {
                    let before = old(self).entries.values();
                    assert(views(before.remove(position as int)) =~= views(before).remove(
                        position as int,
                    ));
                    assert(ids::<S, L>(old(self)@.remove(position as int)) =~= ids::<S, L>(
                        old(self)@,
                    ).remove(position as int));
                    lemma_remove_drops_key(ids::<S, L>(old(self)@), position as int);
                }
                let id = entity.id().clone();
                changes.push(Change::Removed { position, id });
                changes.push(Change::Deleted { entity });
                assert(views(changes@) =~= removal::<S, L>(
                    position as int,
                    old(self)@[position as int],
                ));
            },
            None => {},
        }
        changes
    }

    /// Evicts every entity whose ID the listing does not mention.
    pub fn evict_absent(&mut self, response: &Vec<S>) -> (changes: Vec<Change<S, L>>)
        requires
            old(self).wf(),
        ensures
            final(self).wf(),
            final(self).is_listing() == old(self).is_listing(),
            final(self).initialized() == old(self).initialized(),
            final(self)@ == survivors::<S, L>(old(self)@, views(response@)),
            views(changes@) == evictions::<S, L>(old(self)@, views(response@)),
    {
        let mut changes: Vec<Change<S, L>> = Vec::new();
        let ghost before = self@;
        let ghost listing = views(response@);
        let ghost done: int = 0;
        let mut i: usize = 0;
        proof {
            assert(before.take(0) =~= Seq::empty());
            assert(before.skip(0) =~= before);
            lemma_survivors_step::<S, L>(before, listing, 0);
            assert(self@ =~= survivors::<S, L>(before.take(0), listing) + before.skip(0));
            assert(views(changes@) =~= evictions::<S, L>(before.take(0), listing));
        }
        while i < self.entries.len()
            invariant
                self.wf(),
                self.is_listing() == old(self).is_listing(),
                self.initialized() == old(self).initialized(),
                before == old(self)@,
                listing == views(response@),
                0 <= done <= before.len(),
                i == survivors::<S, L>(before.take(done), listing).len(),
                self@ == survivors::<S, L>(before.take(done), listing) + before.skip(done),
                views(changes@) == evictions::<S, L>(before.take(done), listing),
            decreases before.len() - done,
        {
            proof {
                lemma_survivors_step::<S, L>(before, listing, done + 1);
                assert(self@[i as int] == before[done]);
                assert(before.take(done + 1).drop_last() =~= before.take(done));
                assert(before.take(done + 1).last() == before[done]);
            }
            let absent = match self.entries.get_index(i) {
                Some(entity) => {
                    if reports::<S>(response, entity.id()) {
                        None
                    } else {
                        Some(entity.id().clone())
                    }
                },
                None => None,
            };
            match absent {
                Some(id) => {
                    proof {
                        self.lemma_ids_distinct();
                        assert(ids::<S, L>(self@)[i as int] == id@);
                    }
                    let ghost current = self@;
                    let mut more = self.remove(id.as_str());
                    proof {
                        assert(current.remove(i as int) =~= survivors::<S, L>(
                            before.take(done + 1),
                            listing,
                        ) + before.skip(done + 1));
                        assert(views(changes@ + more@) =~= views(changes@) + views(more@));
                    }
                    changes.append(&mut more);
                },
                None => {
                    proof {
                        assert(self@ =~= survivors::<S, L>(before.take(done + 1), listing)
                            + before.skip(done + 1));
                    }
                    i = i + 1;
                },
            }
            proof {
                done = done + 1;
            }
        }
        proof {
            assert(before.take(done) =~= before);
            assert(self@ =~= survivors::<S, L>(before, listing));
        }
        changes
    }

    /// Absorbs the snapshots of a listing, first to last: a snapshot of a known entity
    /// updates it in place, one of an unknown entity appends a new entity.
    pub fn absorb(&mut self, response: Vec<S>) -> (changes: Vec<Change<S, L>>)
        requires
            old(self).wf(),
        ensures
            final(self).wf(),
            final(self).is_listing() == old(self).is_listing(),
            final(self).initialized() == old(self).initialized(),
            final(self)@ == absorbed::<S, L>(old(self)@, views(response@)),
            views(changes@) == absorptions::<S, L>(old(self)@, views(response@)),
    {
        let mut changes: Vec<Change<S, L>> = Vec::new();
        let ghost before = self@;
        let ghost listing = views(response@);
        proof {
            assert(listing.take(0) =~= Seq::empty());
            assert(views(changes@) =~= Seq::empty());
        }
        for summary in it: response
            invariant
                self.wf(),
                self.is_listing() == old(self).is_listing(),
                self.initialized() == old(self).initialized(),
                before == old(self)@,
                listing == views(it.seq()),
                self@ == absorbed::<S, L>(before, listing.take(it.index() as int)),
                views(changes@) == absorptions::<S, L>(before, listing.take(it.index() as int)),
        {
            let ghost k = it.index() as int;
            let ghost current = self@;
            proof {
                assert(listing.take(k + 1).drop_last() =~= listing.take(k));
                assert(listing.take(k + 1).last() == summary@);
                self.lemma_ids_distinct();
            }
            if summary.is_listed() {
                let id = summary.id().clone();
                match self.entries.position(id.as_str()) {
                    Some(position) => {
                        let entity = self.entity_mut(position);
                        entity.update(summary);
                        changes.push(Change::Updated { position, id });
                    },
                    None => {
                        let position = self.entries.len();
                        let ghost values = self.entries.values();
                        let entity = Entity::new(summary);
                        proof {
                            assert(views(values.push(entity)) =~= views(values).push(entity@));
                            assert(ids::<S, L>(current.push(entity@)) =~= ids::<S, L>(
                                current,
                            ).push(id@));
                        }
                        self.entries.insert(id.clone(), entity);
                        changes.push(Change::Added { position, id });
                    },
                }
                proof {
                    assert(views(changes@) =~= absorptions::<S, L>(before, listing.take(k))
                        + absorption::<S, L>(current, summary@));
                }
            } else {
                proof {
                    assert(views(changes@) =~= absorptions::<S, L>(before, listing.take(k))
                        + absorption::<S, L>(current, summary@));
                }
            }
        }
        proof {
            assert(listing.take(listing.len() as int) =~= listing);
        }
        changes
    }

    /// Takes in what a listing request came back with: `Some` listing, or `None` where the
    /// request failed. `full` says that the request asked for the whole collection.
    ///
    /// A failure leaves the entities untouched. Either way the mirror is no longer
    /// listing and counts as initialized.
    pub fn apply_refresh(&mut self, full: bool, result: Option<Vec<S>>) -> (done: Refreshed<
        S,
        L,
    >)
        requires
            old(self).wf(),
        ensures
            final(self).wf(),
            !final(self).is_listing(),
            final(self).initialized(),
            done.listing_changed == old(self).is_listing(),
            done.initialized_changed == !old(self).initialized(),
            done.failed == (result is None),
            result matches Some(response) ==> {
                &&& final(self)@ == refreshed::<S, L>(old(self)@, full, views(response@))
                &&& views(done.changes@) == refresh_changes::<S, L>(
                    old(self)@,
                    full,
                    views(response@),
                )
            },
            result is None ==> final(self)@ == old(self)@ && done.changes@.len() == 0,
    {
        let mut changes: Vec<Change<S, L>> = Vec::new();
        let failed = match result {
            Some(response) => {
                if full {
                    changes = self.evict_absent(&response);
                }
                let ghost evicted = changes@;
                let mut more = self.absorb(response);
                proof {
                    assert(views(evicted + more@) =~= views(evicted) + views(more@));
                    assert(views(evicted) + views(more@) =~= refresh_changes::<S, L>(
                        old(self)@,
                        full,
                        views(response@),
                    ));
                }
                changes.append(&mut more);
                false
            },
            None => true,
        };
        let listing_changed = self.set_listing(false);
        let initialized_changed = self.set_as_initialized();
        Refreshed { changes, failed, listing_changed, initialized_changed }
    }
}

/// Whether the listing holds a snapshot with the given ID.
pub fn reports<S: Summary>(response: &Vec<S>, id: &String) -> (found: bool)
    ensures
        found == reported::<S>(views(response@), id@),
{
    let mut k: usize = 0;
    while k < response.len()
        invariant
            k <= response.len(),
            forall|j: int| 0 <= j < k ==> S::key(#[trigger] views(response@)[j]) != id@,
        decreases response.len() - k,
    {
        if *response[k].id() == *id {
            assert(S::key(views(response@)[k as int]) == id@);
            return true;
        }
        k = k + 1;
    }
    false
}

/// How the survivors of a prefix grow when the prefix grows by one entity.
pub proof fn lemma_survivors_step<S: Summary, L: Local>(
    entities: Seq<EntityView<S::V, L::V>>,
    response: Seq<S::V>,
    n: int,
)
    requires
        0 <= n <= entities.len(),
    ensures
        n == 0 ==> survivors::<S, L>(entities.take(n), response).len() == 0,
        n > 0 ==> survivors::<S, L>(entities.take(n), response) == if reported::<S>(
            response,
            key_of::<S, L>(entities[n - 1]),
        ) {
            survivors::<S, L>(entities.take(n - 1), response).push(entities[n - 1])
        } else {
            survivors::<S, L>(entities.take(n - 1), response)
        },
        survivors::<S, L>(entities.take(n), response).len() <= n,
{
    reveal(Seq::filter);
    let keep = |e: EntityView<S::V, L::V>| reported::<S>(response, key_of::<S, L>(e));
    entities.take(n).lemma_filter_len(keep);
    if n > 0 {
        assert(entities.take(n).drop_last() =~= entities.take(n - 1));
    }
}

/// Removing the one occurrence of a key leaves a sequence that does not hold it.
pub proof fn lemma_remove_drops_key(keys: Seq<Seq<char>>, i: int)
    requires
        keys.no_duplicates(),
        0 <= i < keys.len(),
    ensures
        !keys.remove(i).contains(keys[i]),
        keys.remove(i).no_duplicates(),
{
    let rest = keys.remove(i);
    assert forall|j: int| 0 <= j < rest.len() implies rest[j] != keys[i] by {
        if j < i {
            assert(rest[j] == keys[j]);
        } else {
            assert(rest[j] == keys[j + 1]);
        }
    }
}

} // verus!
