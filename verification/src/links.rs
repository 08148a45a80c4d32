//! The cross-references between entities. A link names its target by remote ID and is
//! resolved by looking that ID up; a link whose target is gone simply does not resolve.

use crate::entity::Local;
use crate::text::{holds, insert_item, remove_item, text, texts, with_item, without_item};
use vstd::prelude::*;

verus! {

/// The local state of an image or a pod: the containers that belong to it, and the marks
/// that every entity has.
pub struct Members {
    containers: Vec<String>,
    selected: bool,
    to_be_deleted: bool,
}

/// The mathematical value of [`Members`].
pub ghost struct MembersView {
    pub containers: Seq<Seq<char>>,
    pub selected: bool,
    pub to_be_deleted: bool,
}

impl View for Members {
    type V = MembersView;

    closed spec fn view(&self) -> MembersView {
        MembersView {
            containers: texts(self.containers@),
            selected: self.selected,
            to_be_deleted: self.to_be_deleted,
        }
    }
}

impl Local for Members {
    open spec fn fresh_view() -> MembersView {
        MembersView { containers: Seq::empty(), selected: false, to_be_deleted: false }
    }

    open spec fn selected(v: MembersView) -> bool {
        v.selected
    }

    open spec fn to_be_deleted(v: MembersView) -> bool {
        v.to_be_deleted
    }

    open spec fn with_selected(v: MembersView, value: bool) -> MembersView {
        MembersView { selected: value, ..v }
    }

    open spec fn with_to_be_deleted(v: MembersView, value: bool) -> MembersView {
        MembersView { to_be_deleted: value, ..v }
    }

    fn fresh() -> (local: Self) {
        let local = Members { containers: Vec::new(), selected: false, to_be_deleted: false };
        assert(local@.containers =~= Seq::empty());
        local
    }

    fn is_selected(&self) -> (selected: bool) {
        self.selected
    }

    fn set_selected(&mut self, value: bool) {
        self.selected = value;
    }

    fn is_to_be_deleted(&self) -> (to_be_deleted: bool) {
        self.to_be_deleted
    }

    fn set_to_be_deleted(&mut self, value: bool) {
        self.to_be_deleted = value;
    }
}

impl Members {
    /// The IDs of the member containers, in the order in which they were linked.
    pub fn containers(&self) -> (list: &Vec<String>)
        ensures
            texts(list@) == self@.containers,
    {
        &self.containers
    }

    /// Whether the container with the given ID is a member.
    pub fn has_container(&self, id: &str) -> (found: bool)
        ensures
            found == self@.containers.contains(id@),
    {
        holds(&self.containers, id)
    }

    /// Links a container; linking one that is linked already changes nothing.
    pub fn add_container(&mut self, id: String)
        ensures
            final(self)@ == (MembersView {
                containers: with_item(old(self)@.containers, id@),
                ..old(self)@
            }),
    {
        insert_item(&mut self.containers, id);
    }

    /// Unlinks a container; unlinking one that is not linked changes nothing.
    pub fn remove_container(&mut self, id: &str)
        ensures
            final(self)@ == (MembersView {
                containers: without_item(old(self)@.containers, id@),
                ..old(self)@
            }),
    {
        remove_item(&mut self.containers, id);
    }
}

/// The local state of a container: the image it was made from and the pod it runs in, as
/// far as the client has linked them, and the marks that every entity has.
pub struct Owners {
    image: Option<String>,
    pod: Option<String>,
    selected: bool,
    to_be_deleted: bool,
}

/// The mathematical value of [`Owners`].
pub ghost struct OwnersView {
    pub image: Option<Seq<char>>,
    pub pod: Option<Seq<char>>,
    pub selected: bool,
    pub to_be_deleted: bool,
}

impl View for Owners {
    type V = OwnersView;

    closed spec fn view(&self) -> OwnersView {
        OwnersView {
            image: text(self.image),
            pod: text(self.pod),
            selected: self.selected,
            to_be_deleted: self.to_be_deleted,
        }
    }
}

impl Local for Owners {
    open spec fn fresh_view() -> OwnersView {
        OwnersView { image: None, pod: None, selected: false, to_be_deleted: false }
    }

    open spec fn selected(v: OwnersView) -> bool {
        v.selected
    }

    open spec fn to_be_deleted(v: OwnersView) -> bool {
        v.to_be_deleted
    }

    open spec fn with_selected(v: OwnersView, value: bool) -> OwnersView {
        OwnersView { selected: value, ..v }
    }

    open spec fn with_to_be_deleted(v: OwnersView, value: bool) -> OwnersView {
        OwnersView { to_be_deleted: value, ..v }
    }

    fn fresh() -> (local: Self) {
        Owners { image: None, pod: None, selected: false, to_be_deleted: false }
    }

    fn is_selected(&self) -> (selected: bool) {
        self.selected
    }

    fn set_selected(&mut self, value: bool) {
        self.selected = value;
    }

    fn is_to_be_deleted(&self) -> (to_be_deleted: bool) {
        self.to_be_deleted
    }

    fn set_to_be_deleted(&mut self, value: bool) {
        self.to_be_deleted = value;
    }
}

impl Owners {
    /// The ID of the image that the container is linked to.
    pub fn image(&self) -> (id: &Option<String>)
        ensures
            text(*id) == self@.image,
    {
        &self.image
    }

    /// The ID of the pod that the container is linked to.
    pub fn pod(&self) -> (id: &Option<String>)
        ensures
            text(*id) == self@.pod,
    {
        &self.pod
    }

    /// Links the container to an image, or to none.
    pub fn set_image(&mut self, id: Option<String>)
        ensures
            final(self)@ == (OwnersView { image: text(id), ..old(self)@ }),
    {
        self.image = id;
    }

    /// Links the container to a pod, or to none.
    pub fn set_pod(&mut self, id: Option<String>)
        ensures
            final(self)@ == (OwnersView { pod: text(id), ..old(self)@ }),
    {
        self.pod = id;
    }
}

} // verus!
