//! What holds of the links between the mirrors, proved over the model of
//! [`crate::wiring`] and [`crate::client`].
//!
//! The main laws: a container and its owner, be it an image or a pod, are linked in both
//! directions as soon as both are there, whichever arrives first; and linking a second
//! time changes nothing.

use crate::client::{containers_wired, images_wired, pods_wired};
use crate::container::{ContainerSummary, ContainerSummaryView, ContainerView};
use crate::entity::{key_of, EntityView, Summary};
use crate::image::{ImageSummary, ImageSummaryView};
use crate::links::{Members, MembersView, Owners, OwnersView};
use crate::mirror::{
    absorptions, evictions, find, ids, refresh_changes, refreshed, survivors, ChangeView,
};
use crate::mirror_laws::{
    lemma_absorbed, lemma_absorptions_add_or_update, lemma_offer_is_added, lemma_survivors,
    offered,
};
use crate::pod::{PodSummary, PodSummaryView};
use crate::text::with_item;
use crate::wiring::{
    adopting, belonging, claimed, container_added, image_added, image_of, lemma_with_one_item,
    link_of, owner_added, owner_id, owner_ids, pod_added, pod_of, with_items, Owner, World,
};
use vstd::prelude::*;

verus! {

/// Whether the owner with the given ID is there and counts the container among its
/// members.
pub open spec fn has_member<S: Summary>(
    owners: Seq<EntityView<S::V, MembersView>>,
    id: Seq<char>,
    member: Seq<char>,
) -> bool {
    find::<S, Members>(owners, id) matches Some(owner) && owner.local.containers.contains(member)
}

/// Whether the container at position `c` and its owner of the given kind, which has the
/// given ID, are linked in both directions: the container's link names the owner, the
/// owner's mirror holds the owner, and the owner counts the container among its members.
pub open spec fn linked_to(world: World, owner: Owner, c: int, id: Seq<char>) -> bool {
    &&& 0 <= c < world.containers.len()
    &&& owner_id(world.containers[c], owner) == Some(id)
    &&& link_of(world.containers[c], owner) == Some(id)
    &&& match owner {
        Owner::Image => has_member::<ImageSummary>(
            world.images,
            id,
            key_of::<ContainerSummary, Owners>(world.containers[c]),
        ),
        Owner::Pod => has_member::<PodSummary>(
            world.pods,
            id,
            key_of::<ContainerSummary, Owners>(world.containers[c]),
        ),
    }
}

/// Whether the lookup of the container's owner of the given kind finds the owner with the
/// given ID, and that owner counts the container among its members.
pub open spec fn resolves_to(
    world: World,
    owner: Owner,
    container: Seq<char>,
    id: Seq<char>,
) -> bool {
    match owner {
        Owner::Image => {
            &&& image_of(world, container) matches Some(image)
            &&& key_of::<ImageSummary, Members>(image) == id
            &&& image.local.containers.contains(container)
        },
        Owner::Pod => {
            &&& pod_of(world, container) matches Some(pod)
            &&& key_of::<PodSummary, Members>(pod) == id
            &&& pod.local.containers.contains(container)
        },
    }
}

/// A container that is linked to an owner in both directions has that owner, and the
/// owner has the container.
pub proof fn lemma_linked_resolves(world: World, owner: Owner, c: int, id: Seq<char>)
    requires
        linked_to(world, owner, c, id),
        ids::<ContainerSummary, Owners>(world.containers).no_duplicates(),
    ensures
        resolves_to(world, owner, key_of::<ContainerSummary, Owners>(world.containers[c]), id),
{
    let keys = ids::<ContainerSummary, Owners>(world.containers);
    let key = key_of::<ContainerSummary, Owners>(world.containers[c]);
    assert(keys[c] == key);
    assert(keys[keys.index_of(key)] == key);
    match owner {
        Owner::Image => {
            let found = ids::<ImageSummary, Members>(world.images).index_of(id);
            assert(ids::<ImageSummary, Members>(world.images)[found] == id);
        },
        Owner::Pod => {
            let found = ids::<PodSummary, Members>(world.pods).index_of(id);
            assert(ids::<PodSummary, Members>(world.pods)[found] == id);
        },
    }
}

/// Taking in more items loses none, and every one of them is held afterwards.
pub proof fn lemma_with_items(list: Seq<Seq<char>>, more: Seq<Seq<char>>)
    ensures
        forall|item: Seq<char>|
            list.contains(item) ==> #[trigger] with_items(list, more).contains(item),
        forall|item: Seq<char>|
            more.contains(item) ==> #[trigger] with_items(list, more).contains(item),
    decreases more.len(),
{
    if more.len() > 0 {
        let earlier = more.drop_last();
        let before = with_items(list, earlier);
        let after = with_items(list, more);
        lemma_with_items(list, earlier);
        assert(after == with_item(before, more.last()));
        assert forall|item: Seq<char>| before.contains(item) implies after.contains(item) by {
            let w = choose|w: int| 0 <= w < before.len() && before[w] == item;
            assert(after[w] == item);
        }
        assert(after.contains(more.last())) by {
            if !before.contains(more.last()) {
                assert(after[before.len() as int] == more.last());
            }
        }
        assert forall|item: Seq<char>| more.contains(item) implies #[trigger] after.contains(
            item,
        ) by {
            let w = choose|w: int| 0 <= w < more.len() && more[w] == item;
            if w < earlier.len() {
                assert(earlier[w] == item);
                assert(before.contains(item));
            }
        }
    }
}

/// Taking in items that are all held already changes nothing.
pub proof fn lemma_with_items_held(list: Seq<Seq<char>>, more: Seq<Seq<char>>)
    requires
        forall|k: int| 0 <= k < more.len() ==> list.contains(#[trigger] more[k]),
    ensures
        with_items(list, more) == list,
    decreases more.len(),
{
    if more.len() > 0 {
        let earlier = more.drop_last();
        assert forall|k: int| 0 <= k < earlier.len() implies list.contains(
            #[trigger] earlier[k],
        ) by {
            assert(earlier[k] == more[k]);
        }
        lemma_with_items_held(list, earlier);
        assert(more[more.len() - 1] == more.last());
    }
}

/// A container that belongs to an owner is among those that belong to it.
pub proof fn lemma_belonging(containers: Seq<ContainerView>, owner: Owner, id: Seq<char>, c: int)
    requires
        0 <= c < containers.len(),
        owner_id(containers[c], owner) == Some(id),
    ensures
        belonging(containers, owner, id).contains(
            key_of::<ContainerSummary, Owners>(containers[c]),
        ),
    decreases containers.len(),
{
    let earlier = containers.drop_last();
    let key = key_of::<ContainerSummary, Owners>(containers[c]);
    if c == containers.len() - 1 {
        let list = belonging(containers, owner, id);
        assert(list[list.len() - 1] == key);
    } else {
        assert(earlier[c] == containers[c]);
        lemma_belonging(earlier, owner, id, c);
        let before = belonging(earlier, owner, id);
        let w = choose|w: int| 0 <= w < before.len() && before[w] == key;
        assert(belonging(containers, owner, id)[w] == key);
    }
}

/// An owner that takes in containers keeps its place and has every one of them as a
/// member afterwards.
pub proof fn lemma_adopting_takes<S: Summary>(
    owners: Seq<EntityView<S::V, MembersView>>,
    id: Seq<char>,
    more: Seq<Seq<char>>,
    member: Seq<char>,
)
    requires
        ids::<S, Members>(owners).contains(id),
        more.contains(member),
    ensures
        ids::<S, Members>(adopting::<S>(owners, id, more)) == ids::<S, Members>(owners),
        has_member::<S>(adopting::<S>(owners, id, more), id, member),
{
    let after = adopting::<S>(owners, id, more);
    let at = ids::<S, Members>(owners).index_of(id);
    lemma_with_items(owners[at].local.containers, more);
    assert(ids::<S, Members>(after) =~= ids::<S, Members>(owners));
    assert(after[at].local.containers.contains(member));
}

/// An owner that takes in containers loses no member, and no other owner does.
pub proof fn lemma_adopting_keeps<S: Summary>(
    owners: Seq<EntityView<S::V, MembersView>>,
    id: Seq<char>,
    more: Seq<Seq<char>>,
    other: Seq<char>,
    member: Seq<char>,
)
    requires
        has_member::<S>(owners, other, member),
    ensures
        ids::<S, Members>(adopting::<S>(owners, id, more)) == ids::<S, Members>(owners),
        has_member::<S>(adopting::<S>(owners, id, more), other, member),
{
    let after = adopting::<S>(owners, id, more);
    assert(ids::<S, Members>(after) =~= ids::<S, Members>(owners));
    if ids::<S, Members>(owners).contains(id) {
        let at = ids::<S, Members>(owners).index_of(id);
        let found = ids::<S, Members>(owners).index_of(other);
        lemma_with_items(owners[at].local.containers, more);
        assert(ids::<S, Members>(owners)[found] == other);
        assert(ids::<S, Members>(owners)[at] == id);
    }
}

/// The rule for a new owner changes no ID and no snapshot of a container.
pub proof fn lemma_owner_added_frame(world: World, owner: Owner, id: Seq<char>)
    ensures
        owner_ids(owner_added(world, owner, id), Owner::Image) == owner_ids(world, Owner::Image),
        owner_ids(owner_added(world, owner, id), Owner::Pod) == owner_ids(world, Owner::Pod),
        owner_added(world, owner, id).containers.len() == world.containers.len(),
        forall|j: int|
            0 <= j < world.containers.len() ==> (#[trigger] owner_added(
                world,
                owner,
                id,
            ).containers[j]).summary == world.containers[j].summary,
        ids::<ContainerSummary, Owners>(owner_added(world, owner, id).containers) == ids::<
            ContainerSummary,
            Owners,
        >(world.containers),
{
    let after = owner_added(world, owner, id);
    assert(ids::<ImageSummary, Members>(after.images) =~= ids::<ImageSummary, Members>(
        world.images,
    ));
    assert(ids::<PodSummary, Members>(after.pods) =~= ids::<PodSummary, Members>(world.pods));
    assert(ids::<ContainerSummary, Owners>(after.containers) =~= ids::<ContainerSummary, Owners>(
        world.containers,
    ));
}

/// The rule for a new owner links every container that belongs to the owner.
pub proof fn lemma_owner_added_links(world: World, owner: Owner, id: Seq<char>, c: int)
    requires
        owner_ids(world, owner).contains(id),
        0 <= c < world.containers.len(),
        owner_id(world.containers[c], owner) == Some(id),
    ensures
        linked_to(owner_added(world, owner, id), owner, c, id),
{
    let key = key_of::<ContainerSummary, Owners>(world.containers[c]);
    lemma_belonging(world.containers, owner, id, c);
    match owner {
        Owner::Image => {
            lemma_adopting_takes::<ImageSummary>(
                world.images,
                id,
                belonging(world.containers, owner, id),
                key,
            );
        },
        Owner::Pod => {
            lemma_adopting_takes::<PodSummary>(
                world.pods,
                id,
                belonging(world.containers, owner, id),
                key,
            );
        },
    }
}

/// The rule for a new owner undoes no link between a container and an owner.
pub proof fn lemma_owner_added_keeps(
    world: World,
    added: Owner,
    id: Seq<char>,
    kept: Owner,
    c: int,
    target: Seq<char>,
)
    requires
        linked_to(world, kept, c, target),
    ensures
        linked_to(owner_added(world, added, id), kept, c, target),
{
    let key = key_of::<ContainerSummary, Owners>(world.containers[c]);
    let members = belonging(world.containers, added, id);
    if owner_ids(world, added).contains(id) {
        match added {
            Owner::Image => {
                if kept == Owner::Image {
                    lemma_adopting_keeps::<ImageSummary>(world.images, id, members, target, key);
                }
            },
            Owner::Pod => {
                if kept == Owner::Pod {
                    lemma_adopting_keeps::<PodSummary>(world.pods, id, members, target, key);
                }
            },
        }
    }
}

/// Applying the rule for new images for a whole sequence of changes changes no ID and no
/// snapshot of a container.
pub proof fn lemma_images_wired_frame(
    world: World,
    changes: Seq<ChangeView<ImageSummaryView, MembersView>>,
)
    ensures
        owner_ids(images_wired(world, changes), Owner::Image) == owner_ids(world, Owner::Image),
        images_wired(world, changes).containers.len() == world.containers.len(),
        forall|j: int|
            0 <= j < world.containers.len() ==> (#[trigger] images_wired(
                world,
                changes,
            ).containers[j]).summary == world.containers[j].summary,
        ids::<ContainerSummary, Owners>(images_wired(world, changes).containers) == ids::<
            ContainerSummary,
            Owners,
        >(world.containers),
    decreases changes.len(),
{
    if changes.len() > 0 {
        let earlier = images_wired(world, changes.drop_last());
        lemma_images_wired_frame(world, changes.drop_last());
        match changes.last() {
            ChangeView::Added { position, id } => {
                lemma_owner_added_frame(earlier, Owner::Image, id);
            },
            _ => {},
        }
    }
}

/// Applying the rule for new pods for a whole sequence of changes changes no ID and no
/// snapshot of a container.
pub proof fn lemma_pods_wired_frame(
    world: World,
    changes: Seq<ChangeView<PodSummaryView, MembersView>>,
)
    ensures
        owner_ids(pods_wired(world, changes), Owner::Pod) == owner_ids(world, Owner::Pod),
        pods_wired(world, changes).containers.len() == world.containers.len(),
        forall|j: int|
            0 <= j < world.containers.len() ==> (#[trigger] pods_wired(
                world,
                changes,
            ).containers[j]).summary == world.containers[j].summary,
        ids::<ContainerSummary, Owners>(pods_wired(world, changes).containers) == ids::<
            ContainerSummary,
            Owners,
        >(world.containers),
    decreases changes.len(),
{
    if changes.len() > 0 {
        let earlier = pods_wired(world, changes.drop_last());
        lemma_pods_wired_frame(world, changes.drop_last());
        match changes.last() {
            ChangeView::Added { position, id } => {
                lemma_owner_added_frame(earlier, Owner::Pod, id);
            },
            _ => {},
        }
    }
}

/// Where the changes add an image that the mirror holds, every container that was made
/// from it is linked to it once the rule for new images has been applied for all of them.
pub proof fn lemma_images_wired_links(
    world: World,
    changes: Seq<ChangeView<ImageSummaryView, MembersView>>,
    c: int,
    image: Seq<char>,
)
    requires
        ids::<ImageSummary, Members>(world.images).contains(image),
        0 <= c < world.containers.len(),
        world.containers[c].summary.image_id == Some(image),
        exists|k: int|
            0 <= k < changes.len() && (#[trigger] changes[k] matches ChangeView::Added {
                position,
                id,
            } && id == image),
    ensures
        linked_to(images_wired(world, changes), Owner::Image, c, image),
    decreases changes.len(),
{
    let k = choose|k: int|
        0 <= k < changes.len() && (#[trigger] changes[k] matches ChangeView::Added {
            position,
            id,
        } && id == image);
    let shorter = changes.drop_last();
    let earlier = images_wired(world, shorter);
    lemma_images_wired_frame(world, shorter);
    if k < shorter.len() {
        assert(shorter[k] == changes[k]);
        lemma_images_wired_links(world, shorter, c, image);
        match changes.last() {
            ChangeView::Added { position, id } => {
                lemma_owner_added_keeps(earlier, Owner::Image, id, Owner::Image, c, image);
            },
            _ => {},
        }
    } else {
        assert(changes.last() == changes[k]);
        lemma_owner_added_links(earlier, Owner::Image, image, c);
    }
}

/// Where the changes add a pod that the mirror holds, every container that runs in it is
/// linked to it once the rule for new pods has been applied for all of them.
pub proof fn lemma_pods_wired_links(
    world: World,
    changes: Seq<ChangeView<PodSummaryView, MembersView>>,
    c: int,
    pod: Seq<char>,
)
    requires
        ids::<PodSummary, Members>(world.pods).contains(pod),
        0 <= c < world.containers.len(),
        world.containers[c].summary.pod_id == Some(pod),
        exists|k: int|
            0 <= k < changes.len() && (#[trigger] changes[k] matches ChangeView::Added {
                position,
                id,
            } && id == pod),
    ensures
        linked_to(pods_wired(world, changes), Owner::Pod, c, pod),
    decreases changes.len(),
{
    let k = choose|k: int|
        0 <= k < changes.len() && (#[trigger] changes[k] matches ChangeView::Added {
            position,
            id,
        } && id == pod);
    let shorter = changes.drop_last();
    let earlier = pods_wired(world, shorter);
    lemma_pods_wired_frame(world, shorter);
    if k < shorter.len() {
        assert(shorter[k] == changes[k]);
        lemma_pods_wired_links(world, shorter, c, pod);
        match changes.last() {
            ChangeView::Added { position, id } => {
                lemma_owner_added_keeps(earlier, Owner::Pod, id, Owner::Pod, c, pod);
            },
            _ => {},
        }
    } else {
        assert(changes.last() == changes[k]);
        lemma_owner_added_links(earlier, Owner::Pod, pod, c);
    }
}

/// A container that arrives before its image is linked as soon as the image arrives:
/// after the listing of the images that first offers the image has been taken in, the
/// container's image is that image, and the image counts the container among its members.
pub proof fn lemma_container_before_image(
    world: World,
    response: Seq<ImageSummaryView>,
    c: int,
    image: Seq<char>,
)
    requires
        ids::<ImageSummary, Members>(world.images).no_duplicates(),
        ids::<ContainerSummary, Owners>(world.containers).no_duplicates(),
        0 <= c < world.containers.len(),
        world.containers[c].summary.image_id == Some(image),
        !ids::<ImageSummary, Members>(world.images).contains(image),
        offered::<ImageSummary>(response, image),
    ensures
        ({
            let after = images_wired(
                World {
                    images: refreshed::<ImageSummary, Members>(world.images, true, response),
                    containers: world.containers,
                    pods: world.pods,
                },
                refresh_changes::<ImageSummary, Members>(world.images, true, response),
            );
            let container = key_of::<ContainerSummary, Owners>(world.containers[c]);
            &&& linked_to(after, Owner::Image, c, image)
            &&& resolves_to(after, Owner::Image, container, image)
        }),
{
    let kept = survivors::<ImageSummary, Members>(world.images, response);
    let gone = evictions::<ImageSummary, Members>(world.images, response);
    let taken = absorptions::<ImageSummary, Members>(kept, response);
    let changes = refresh_changes::<ImageSummary, Members>(world.images, true, response);
    let start = World {
        images: refreshed::<ImageSummary, Members>(world.images, true, response),
        containers: world.containers,
        pods: world.pods,
    };
    lemma_survivors::<ImageSummary, Members>(world.images, response);
    lemma_absorbed::<ImageSummary, Members>(kept, response);
    lemma_offer_is_added::<ImageSummary, Members>(kept, response, image);
    let k = choose|k: int|
        0 <= k < taken.len() && (#[trigger] taken[k] matches ChangeView::Added { position, id }
            && id == image);
    assert(changes[gone.len() + k] == taken[k]);
    lemma_images_wired_links(start, changes, c, image);
    lemma_images_wired_frame(start, changes);
    lemma_linked_resolves(images_wired(start, changes), Owner::Image, c, image);
}

/// A container that arrives before its pod is linked as soon as the pod arrives: after
/// the listing of the pods that first offers the pod has been taken in, the container's
/// pod is that pod, and the pod counts the container among its members.
pub proof fn lemma_container_before_pod(
    world: World,
    full: bool,
    response: Seq<PodSummaryView>,
    c: int,
    pod: Seq<char>,
)
    requires
        ids::<PodSummary, Members>(world.pods).no_duplicates(),
        ids::<ContainerSummary, Owners>(world.containers).no_duplicates(),
        0 <= c < world.containers.len(),
        world.containers[c].summary.pod_id == Some(pod),
        !ids::<PodSummary, Members>(world.pods).contains(pod),
        offered::<PodSummary>(response, pod),
    ensures
        ({
            let after = pods_wired(
                World {
                    images: world.images,
                    containers: world.containers,
                    pods: refreshed::<PodSummary, Members>(world.pods, full, response),
                },
                refresh_changes::<PodSummary, Members>(world.pods, full, response),
            );
            let container = key_of::<ContainerSummary, Owners>(world.containers[c]);
            &&& linked_to(after, Owner::Pod, c, pod)
            &&& resolves_to(after, Owner::Pod, container, pod)
        }),
{
    let kept = if full {
        survivors::<PodSummary, Members>(world.pods, response)
    } else {
        world.pods
    };
    let gone = if full {
        evictions::<PodSummary, Members>(world.pods, response)
    } else {
        Seq::empty()
    };
    let taken = absorptions::<PodSummary, Members>(kept, response);
    let changes = refresh_changes::<PodSummary, Members>(world.pods, full, response);
    let start = World {
        images: world.images,
        containers: world.containers,
        pods: refreshed::<PodSummary, Members>(world.pods, full, response),
    };
    lemma_survivors::<PodSummary, Members>(world.pods, response);
    lemma_absorbed::<PodSummary, Members>(kept, response);
    lemma_offer_is_added::<PodSummary, Members>(kept, response, pod);
    let k = choose|k: int|
        0 <= k < taken.len() && (#[trigger] taken[k] matches ChangeView::Added { position, id }
            && id == pod);
    assert(changes =~= gone + taken);
    assert(changes[gone.len() + k] == taken[k]);
    lemma_pods_wired_links(start, changes, c, pod);
    lemma_pods_wired_frame(start, changes);
    lemma_linked_resolves(pods_wired(start, changes), Owner::Pod, c, pod);
}

/// The rules for containers change no ID and no snapshot of a container.
pub proof fn lemma_containers_wired_frame(
    world: World,
    changes: Seq<ChangeView<ContainerSummaryView, OwnersView>>,
)
    ensures
        owner_ids(containers_wired(world, changes), Owner::Image) == owner_ids(
            world,
            Owner::Image,
        ),
        owner_ids(containers_wired(world, changes), Owner::Pod) == owner_ids(world, Owner::Pod),
        containers_wired(world, changes).containers.len() == world.containers.len(),
        forall|j: int|
            0 <= j < world.containers.len() ==> (#[trigger] containers_wired(
                world,
                changes,
            ).containers[j]).summary == world.containers[j].summary,
        ids::<ContainerSummary, Owners>(containers_wired(world, changes).containers) == ids::<
            ContainerSummary,
            Owners,
        >(world.containers),
    decreases changes.len(),
{
    if changes.len() > 0 {
        let earlier = containers_wired(world, changes.drop_last());
        let after = containers_wired(world, changes);
        lemma_containers_wired_frame(world, changes.drop_last());
        assert(ids::<ImageSummary, Members>(after.images) =~= ids::<ImageSummary, Members>(
            earlier.images,
        ));
        assert(ids::<PodSummary, Members>(after.pods) =~= ids::<PodSummary, Members>(
            earlier.pods,
        ));
        assert(ids::<ContainerSummary, Owners>(after.containers) =~= ids::<
            ContainerSummary,
            Owners,
        >(earlier.containers));
    }
}

/// The rule for a new container links it to its owner of either kind, if the owner's
/// mirror holds that owner.
pub proof fn lemma_container_added_links(world: World, owner: Owner, c: int, id: Seq<char>)
    requires
        ids::<ContainerSummary, Owners>(world.containers).no_duplicates(),
        owner_ids(world, owner).contains(id),
        0 <= c < world.containers.len(),
        owner_id(world.containers[c], owner) == Some(id),
    ensures
        linked_to(
            container_added(world, key_of::<ContainerSummary, Owners>(world.containers[c])),
            owner,
            c,
            id,
        ),
{
    let key = key_of::<ContainerSummary, Owners>(world.containers[c]);
    let keys = ids::<ContainerSummary, Owners>(world.containers);
    assert(keys[c] == key);
    assert(keys[keys.index_of(key)] == key);
    lemma_with_one_item();
    assert(seq![key][0] == key);
    match owner {
        Owner::Image => {
            lemma_adopting_takes::<ImageSummary>(world.images, id, seq![key], key);
        },
        Owner::Pod => {
            lemma_adopting_takes::<PodSummary>(world.pods, id, seq![key], key);
        },
    }
}

/// The rule for a new container undoes no link between a container and an owner.
pub proof fn lemma_container_added_keeps(
    world: World,
    id: Seq<char>,
    owner: Owner,
    c: int,
    target: Seq<char>,
)
    requires
        ids::<ContainerSummary, Owners>(world.containers).no_duplicates(),
        linked_to(world, owner, c, target),
    ensures
        linked_to(container_added(world, id), owner, c, target),
{
    let keys = ids::<ContainerSummary, Owners>(world.containers);
    let key = key_of::<ContainerSummary, Owners>(world.containers[c]);
    if keys.contains(id) {
        let at = keys.index_of(id);
        assert(keys[at] == id);
        assert(keys[c] == key);
        match owner {
            Owner::Image => {
                let found = ids::<ImageSummary, Members>(world.images).index_of(target);
                assert(ids::<ImageSummary, Members>(world.images)[found] == target);
                match world.containers[at].summary.image_id {
                    Some(other) => {
                        lemma_adopting_keeps::<ImageSummary>(
                            world.images,
                            other,
                            seq![id],
                            target,
                            key,
                        );
                    },
                    None => {},
                }
            },
            Owner::Pod => {
                let found = ids::<PodSummary, Members>(world.pods).index_of(target);
                assert(ids::<PodSummary, Members>(world.pods)[found] == target);
                match world.containers[at].summary.pod_id {
                    Some(other) => {
                        lemma_adopting_keeps::<PodSummary>(
                            world.pods,
                            other,
                            seq![id],
                            target,
                            key,
                        );
                    },
                    None => {},
                }
            },
        }
    }
}

/// Where the changes add a container whose owner the owner's mirror holds, and delete
/// nothing afterwards, the container is linked to that owner once the rules for
/// containers have been applied for all of them.
pub proof fn lemma_containers_wired_links(
    world: World,
    changes: Seq<ChangeView<ContainerSummaryView, OwnersView>>,
    k: int,
    owner: Owner,
    c: int,
    target: Seq<char>,
)
    requires
        ids::<ContainerSummary, Owners>(world.containers).no_duplicates(),
        owner_ids(world, owner).contains(target),
        0 <= c < world.containers.len(),
        owner_id(world.containers[c], owner) == Some(target),
        0 <= k < changes.len(),
        changes[k] matches ChangeView::Added { position, id } && id == key_of::<
            ContainerSummary,
            Owners,
        >(world.containers[c]),
        forall|j: int|
            k < j < changes.len() ==> (#[trigger] changes[j] is Added || changes[j] is Updated),
    ensures
        linked_to(containers_wired(world, changes), owner, c, target),
    decreases changes.len(),
{
    let shorter = changes.drop_last();
    let earlier = containers_wired(world, shorter);
    lemma_containers_wired_frame(world, shorter);
    if k < shorter.len() {
        assert(shorter[k] == changes[k]);
        assert forall|j: int| k < j < shorter.len() implies (#[trigger] shorter[j] is Added
            || shorter[j] is Updated) by {
            assert(shorter[j] == changes[j]);
        }
        lemma_containers_wired_links(world, shorter, k, owner, c, target);
        assert(changes[changes.len() - 1] == changes.last());
        match changes.last() {
            ChangeView::Added { position, id } => {
                lemma_container_added_keeps(earlier, id, owner, c, target);
            },
            _ => {},
        }
    } else {
        assert(changes.last() == changes[k]);
        assert(key_of::<ContainerSummary, Owners>(earlier.containers[c]) == key_of::<
            ContainerSummary,
            Owners,
        >(world.containers[c]));
        lemma_container_added_links(earlier, owner, c, target);
    }
}

/// A container that arrives after its owner, be it its image or its pod, is linked at
/// once: after the listing of the containers that first offers the container has been
/// taken in, the container's owner is the one that its snapshot names, if the owner's
/// mirror holds that owner, and the owner counts the container among its members.
pub proof fn lemma_owner_before_container(
    world: World,
    full: bool,
    response: Seq<ContainerSummaryView>,
    container: Seq<char>,
    owner: Owner,
    id: Seq<char>,
)
    requires
        ids::<ContainerSummary, Owners>(world.containers).no_duplicates(),
        !ids::<ContainerSummary, Owners>(world.containers).contains(container),
        offered::<ContainerSummary>(response, container),
        owner_ids(world, owner).contains(id),
        find::<ContainerSummary, Owners>(
            refreshed::<ContainerSummary, Owners>(world.containers, full, response),
            container,
        ) matches Some(entity) && owner_id(entity, owner) == Some(id),
    ensures
        resolves_to(
            containers_wired(
                World {
                    images: world.images,
                    containers: refreshed::<ContainerSummary, Owners>(
                        world.containers,
                        full,
                        response,
                    ),
                    pods: world.pods,
                },
                refresh_changes::<ContainerSummary, Owners>(world.containers, full, response),
            ),
            owner,
            container,
            id,
        ),
{
    let listed = refreshed::<ContainerSummary, Owners>(world.containers, full, response);
    let changes = refresh_changes::<ContainerSummary, Owners>(world.containers, full, response);
    let kept = if full {
        survivors::<ContainerSummary, Owners>(world.containers, response)
    } else {
        world.containers
    };
    let gone = if full {
        evictions::<ContainerSummary, Owners>(world.containers, response)
    } else {
        Seq::empty()
    };
    let taken = absorptions::<ContainerSummary, Owners>(kept, response);
    let start = World { images: world.images, containers: listed, pods: world.pods };
    lemma_survivors::<ContainerSummary, Owners>(world.containers, response);
    lemma_absorbed::<ContainerSummary, Owners>(kept, response);
    lemma_offer_is_added::<ContainerSummary, Owners>(kept, response, container);
    lemma_absorptions_add_or_update::<ContainerSummary, Owners>(kept, response);
    let k = choose|k: int|
        0 <= k < taken.len() && (#[trigger] taken[k] matches ChangeView::Added {
            position,
            id: added,
        } && added == container);
    assert(changes =~= gone + taken);
    assert(changes[gone.len() + k] == taken[k]);
    assert forall|j: int| gone.len() + k < j < changes.len() implies (#[trigger] changes[j]
        is Added || changes[j] is Updated) by {
        assert(changes[j] == taken[j - gone.len()]);
    }
    let keys = ids::<ContainerSummary, Owners>(listed);
    let c = keys.index_of(container);
    assert(keys[c] == container);
    lemma_containers_wired_links(start, changes, gone.len() + k, owner, c, id);
    lemma_containers_wired_frame(start, changes);
    lemma_linked_resolves(containers_wired(start, changes), owner, c, id);
}

/// An owner that takes in the same containers a second time stays as it is.
pub proof fn lemma_adopting_idempotent<S: Summary>(
    owners: Seq<EntityView<S::V, MembersView>>,
    id: Seq<char>,
    more: Seq<Seq<char>>,
)
    ensures
        adopting::<S>(adopting::<S>(owners, id, more), id, more) == adopting::<S>(
            owners,
            id,
            more,
        ),
{
    let once = adopting::<S>(owners, id, more);
    if ids::<S, Members>(owners).contains(id) {
        let at = ids::<S, Members>(owners).index_of(id);
        assert(ids::<S, Members>(once) =~= ids::<S, Members>(owners));
        lemma_with_items(owners[at].local.containers, more);
        assert forall|k: int| 0 <= k < more.len() implies once[at].local.containers.contains(
            #[trigger] more[k],
        ) by {
            assert(more.contains(more[k]));
        }
        lemma_with_items_held(once[at].local.containers, more);
        assert(adopting::<S>(once, id, more) =~= once);
    }
}

/// Linking containers to an owner changes neither which containers belong to which owner
/// nor, done a second time, the containers.
pub proof fn lemma_claimed(
    containers: Seq<ContainerView>,
    owner: Owner,
    id: Seq<char>,
    other: Owner,
    wanted: Seq<char>,
)
    ensures
        claimed(claimed(containers, owner, id), owner, id) == claimed(containers, owner, id),
        belonging(claimed(containers, owner, id), other, wanted) == belonging(
            containers,
            other,
            wanted,
        ),
    decreases containers.len(),
{
    let once = claimed(containers, owner, id);
    assert(claimed(once, owner, id) =~= once);
    if containers.len() > 0 {
        lemma_claimed(containers.drop_last(), owner, id, other, wanted);
        assert(once.drop_last() =~= claimed(containers.drop_last(), owner, id));
    }
}

/// Linking is idempotent: the rule for a new image or pod, applied a second time for the
/// same owner, changes nothing.
pub proof fn lemma_owner_added_idempotent(world: World, owner: Owner, id: Seq<char>)
    ensures
        owner_added(owner_added(world, owner, id), owner, id) == owner_added(world, owner, id),
{
    let members = belonging(world.containers, owner, id);
    lemma_owner_added_frame(world, owner, id);
    lemma_claimed(world.containers, owner, id, owner, id);
    match owner {
        Owner::Image => {
            lemma_adopting_idempotent::<ImageSummary>(world.images, id, members);
        },
        Owner::Pod => {
            lemma_adopting_idempotent::<PodSummary>(world.pods, id, members);
        },
    }
}

/// Linking is idempotent: the rule for a new container, applied a second time for the
/// same container, changes nothing.
pub proof fn lemma_container_added_idempotent(world: World, id: Seq<char>)
    ensures
        container_added(container_added(world, id), id) == container_added(world, id),
{
    let once = container_added(world, id);
    let keys = ids::<ContainerSummary, Owners>(world.containers);
    if keys.contains(id) {
        let at = keys.index_of(id);
        let container = world.containers[at];
        assert(ids::<ContainerSummary, Owners>(once.containers) =~= keys);
        assert(ids::<ImageSummary, Members>(once.images) =~= ids::<ImageSummary, Members>(
            world.images,
        ));
        assert(ids::<PodSummary, Members>(once.pods) =~= ids::<PodSummary, Members>(world.pods));
        match container.summary.image_id {
            Some(image) => {
                lemma_adopting_idempotent::<ImageSummary>(world.images, image, seq![id]);
            },
            None => {},
        }
        match container.summary.pod_id {
            Some(pod) => {
                lemma_adopting_idempotent::<PodSummary>(world.pods, pod, seq![id]);
            },
            None => {},
        }
        assert(container_added(once, id).containers =~= once.containers);
    }
}

} // verus!
