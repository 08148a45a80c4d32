//! What a mirror holds: entities, each made of the snapshot that the runtime last reported
//! and of the state that only this client derives.

use vstd::prelude::*;

verus! {

/// A snapshot of one remote object, as a listing reports it.
pub trait Summary: View + Sized {
    /// The remote ID that the snapshot carries.
    spec fn key(v: Self::V) -> Seq<char>;

    /// Whether a listing makes the mirror hold this object. One that is not listed is
    /// never added or updated; it only shows that its ID still exists remotely.
    spec fn listed(v: Self::V) -> bool;

    /// The remote ID that the snapshot carries.
    fn id(&self) -> (id: &String)
        ensures
            id@ == Self::key(self@),
    ;

    /// Whether a listing makes the mirror hold this object.
    fn is_listed(&self) -> (listed: bool)
        ensures
            listed == Self::listed(self@),
    ;
}

/// The state that the client derives for an entity and that no listing overwrites: its
/// links to other entities, whether the user has selected it, and whether it is about to
/// be deleted.
pub trait Local: View + Sized {
    /// The local state of an entity that has just been seen for the first time.
    spec fn fresh_view() -> Self::V;

    /// Whether the user has selected the entity.
    spec fn selected(v: Self::V) -> bool;

    /// Whether the entity is about to be deleted.
    spec fn to_be_deleted(v: Self::V) -> bool;

    /// The local state with the selection set to `value`.
    spec fn with_selected(v: Self::V, value: bool) -> Self::V;

    /// The local state with the mark of coming deletion set to `value`.
    spec fn with_to_be_deleted(v: Self::V, value: bool) -> Self::V;

    /// The local state of an entity that has just been seen for the first time.
    fn fresh() -> (local: Self)
        ensures
            local@ == Self::fresh_view(),
    ;

    /// Whether the user has selected the entity.
    fn is_selected(&self) -> (selected: bool)
        ensures
            selected == Self::selected(self@),
    ;

    /// Selects the entity, or takes the selection from it.
    fn set_selected(&mut self, value: bool)
        ensures
            final(self)@ == Self::with_selected(old(self)@, value),
    ;

    /// Whether the entity is about to be deleted.
    fn is_to_be_deleted(&self) -> (to_be_deleted: bool)
        ensures
            to_be_deleted == Self::to_be_deleted(self@),
    ;

    /// Marks the entity as about to be deleted, or takes the mark from it.
    fn set_to_be_deleted(&mut self, value: bool)
        ensures
            final(self)@ == Self::with_to_be_deleted(old(self)@, value),
    ;
}

/// One mirrored remote object.
pub struct Entity<S, L> {
    pub summary: S,
    pub local: L,
}

/// The mathematical value of an [`Entity`].
pub ghost struct EntityView<SV, LV> {
    pub summary: SV,
    pub local: LV,
}

impl<S: View, L: View> View for Entity<S, L> {
    type V = EntityView<S::V, L::V>;

    open spec fn view(&self) -> Self::V {
        EntityView { summary: self.summary@, local: self.local@ }
    }
}

/// The mathematical values of a sequence of items, one for one.
pub open spec fn views<T: View>(items: Seq<T>) -> Seq<T::V> {
    Seq::new(items.len(), |i: int| items[i]@)
}

/// The entity that a listing creates from a snapshot it has not seen before.
pub open spec fn created<S: Summary, L: Local>(summary: S::V) -> EntityView<S::V, L::V> {
    EntityView { summary, local: L::fresh_view() }
}

/// The entity `entity` after a listing has reported `summary` for it: the snapshot is
/// replaced, the local state stays.
pub open spec fn updated<S: Summary, L: Local>(
    entity: EntityView<S::V, L::V>,
    summary: S::V,
) -> EntityView<S::V, L::V> {
    EntityView { summary, local: entity.local }
}

/// `entity` with the selection set to `value`.
pub open spec fn selected_as<S: Summary, L: Local>(
    entity: EntityView<S::V, L::V>,
    value: bool,
) -> EntityView<S::V, L::V> {
    EntityView { summary: entity.summary, local: L::with_selected(entity.local, value) }
}

/// `entity` with the mark of coming deletion set to `value`.
pub open spec fn marked_as<S: Summary, L: Local>(
    entity: EntityView<S::V, L::V>,
    value: bool,
) -> EntityView<S::V, L::V> {
    EntityView { summary: entity.summary, local: L::with_to_be_deleted(entity.local, value) }
}

/// The remote ID of an entity.
pub open spec fn key_of<S: Summary, L: Local>(entity: EntityView<S::V, L::V>) -> Seq<char> {
    S::key(entity.summary)
}

impl<S: Summary, L: Local> Entity<S, L> {
    /// The entity for a snapshot that is seen for the first time.
    pub fn new(summary: S) -> (entity: Self)
        ensures
            entity@ == created::<S, L>(summary@),
    {
        Entity { summary, local: L::fresh() }
    }

    /// The remote ID.
    pub fn id(&self) -> (id: &String)
        ensures
            id@ == key_of::<S, L>(self@),
    {
        self.summary.id()
    }

    /// Whether the user has selected the entity.
    pub fn selected(&self) -> (selected: bool)
        ensures
            selected == L::selected(self@.local),
    {
        self.local.is_selected()
    }

    /// Whether the entity is about to be deleted.
    pub fn to_be_deleted(&self) -> (to_be_deleted: bool)
        ensures
            to_be_deleted == L::to_be_deleted(self@.local),
    {
        self.local.is_to_be_deleted()
    }

    /// Replaces the snapshot by a newer one and keeps the local state.
    pub fn update(&mut self, summary: S)
        ensures
            final(self)@ == updated::<S, L>(old(self)@, summary@),
    {
        self.summary = summary;
    }
}

} // verus!
