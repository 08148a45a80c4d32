//! The rules that keep the three mirrors linked.
//!
//! A container names the image it was made from and the pod it runs in. Whenever one of
//! the two sides of such a relation enters a mirror, the other side is looked up and, if
//! it is there, both are linked: the container records its owner, the owner records the
//! container as a member. It does not matter which side arrives first.

use crate::container::{Container, ContainerList, ContainerSummary, ContainerView};
use crate::entity::{key_of, EntityView, Summary};
use crate::image::{ImageSummary, ImageView};
use crate::links::{Members, MembersView, Owners, OwnersView};
use crate::mirror::{find, ids, Mirror};
use crate::pod::{PodSummary, PodView};
use crate::text::{str_eq, text, with_item, without_item};
use vstd::prelude::*;
use vstd::string::StringExecFns;

verus! {

/// The two kinds of owner that a container has.
#[derive(Clone, Copy, Debug, PartialEq, Eq, Structural)]
pub enum Owner {
    Image,
    Pod,
}

/// The entities of the three mirrors.
pub ghost struct World {
    pub images: Seq<ImageView>,
    pub containers: Seq<ContainerView>,
    pub pods: Seq<PodView>,
}

/// The ID of the container's owner of the given kind, as the runtime reported it.
pub open spec fn owner_id(container: ContainerView, owner: Owner) -> Option<Seq<char>> {
    match owner {
        Owner::Image => container.summary.image_id,
        Owner::Pod => container.summary.pod_id,
    }
}

/// The owner of the given kind that the container is linked to.
pub open spec fn link_of(container: ContainerView, owner: Owner) -> Option<Seq<char>> {
    match owner {
        Owner::Image => container.local.image,
        Owner::Pod => container.local.pod,
    }
}

/// `container` with its link to the owner of the given kind set to `target`.
pub open spec fn with_link(
    container: ContainerView,
    owner: Owner,
    target: Option<Seq<char>>,
) -> ContainerView {
    EntityView {
        summary: container.summary,
        local: match owner {
            Owner::Image => OwnersView { image: target, ..container.local },
            Owner::Pod => OwnersView { pod: target, ..container.local },
        },
    }
}

/// `entity` with other members.
pub open spec fn with_members<SV>(
    entity: EntityView<SV, MembersView>,
    containers: Seq<Seq<char>>,
) -> EntityView<SV, MembersView> {
    EntityView { summary: entity.summary, local: MembersView { containers, ..entity.local } }
}

/// `list` with each item of `more` put at its end in turn, unless it is there already.
pub open spec fn with_items(list: Seq<Seq<char>>, more: Seq<Seq<char>>) -> Seq<Seq<char>>
    decreases more.len(),
{
    if more.len() == 0 {
        list
    } else {
        with_item(with_items(list, more.drop_last()), more.last())
    }
}

/// The IDs of the containers whose owner of the given kind has the given ID, in order.
pub open spec fn belonging(containers: Seq<ContainerView>, owner: Owner, id: Seq<char>) -> Seq<
    Seq<char>,
>
    decreases containers.len(),
{
    if containers.len() == 0 {
        Seq::empty()
    } else if owner_id(containers.last(), owner) == Some(id) {
        belonging(containers.drop_last(), owner, id).push(
            key_of::<ContainerSummary, Owners>(containers.last()),
        )
    } else {
        belonging(containers.drop_last(), owner, id)
    }
}

/// `containers` after the first `n` of them that belong to the owner have been linked
/// to it.
pub open spec fn claimed_up_to(
    containers: Seq<ContainerView>,
    owner: Owner,
    id: Seq<char>,
    n: int,
) -> Seq<ContainerView> {
    Seq::new(
        containers.len(),
        |j: int|
            if j < n && owner_id(containers[j], owner) == Some(id) {
                with_link(containers[j], owner, Some(id))
            } else {
                containers[j]
            },
    )
}

/// `containers` after every one of them that belongs to the owner has been linked to it.
pub open spec fn claimed(containers: Seq<ContainerView>, owner: Owner, id: Seq<char>) -> Seq<
    ContainerView,
> {
    claimed_up_to(containers, owner, id, containers.len() as int)
}

/// `owners` after the owner with the given ID, if there is one, has taken the containers
/// `more` as members.
pub open spec fn adopting<S: Summary>(
    owners: Seq<EntityView<S::V, MembersView>>,
    id: Seq<char>,
    more: Seq<Seq<char>>,
) -> Seq<EntityView<S::V, MembersView>> {
    if ids::<S, Members>(owners).contains(id) {
        let i = ids::<S, Members>(owners).index_of(id);
        owners.update(i, with_members(owners[i], with_items(owners[i].local.containers, more)))
    } else {
        owners
    }
}

/// `owners` after the owner with the given ID, if there is one, has given up the member.
pub open spec fn disowning<S: Summary>(
    owners: Seq<EntityView<S::V, MembersView>>,
    id: Seq<char>,
    member: Seq<char>,
) -> Seq<EntityView<S::V, MembersView>> {
    if ids::<S, Members>(owners).contains(id) {
        let i = ids::<S, Members>(owners).index_of(id);
        owners.update(i, with_members(owners[i], without_item(owners[i].local.containers, member)))
    } else {
        owners
    }
}

/// The rule for a new image: every container made from it is linked to it.
pub open spec fn image_added(world: World, id: Seq<char>) -> World {
    if ids::<ImageSummary, Members>(world.images).contains(id) {
        World {
            images: adopting::<ImageSummary>(
                world.images,
                id,
                belonging(world.containers, Owner::Image, id),
            ),
            containers: claimed(world.containers, Owner::Image, id),
            pods: world.pods,
        }
    } else {
        world
    }
}

/// The rule for a new pod: every container that runs in it is linked to it.
pub open spec fn pod_added(world: World, id: Seq<char>) -> World {
    if ids::<PodSummary, Members>(world.pods).contains(id) {
        World {
            images: world.images,
            containers: claimed(world.containers, Owner::Pod, id),
            pods: adopting::<PodSummary>(
                world.pods,
                id,
                belonging(world.containers, Owner::Pod, id),
            ),
        }
    } else {
        world
    }
}

/// The rule for a new owner of the given kind.
pub open spec fn owner_added(world: World, owner: Owner, id: Seq<char>) -> World {
    match owner {
        Owner::Image => image_added(world, id),
        Owner::Pod => pod_added(world, id),
    }
}

/// The IDs of the owners of the given kind.
pub open spec fn owner_ids(world: World, owner: Owner) -> Seq<Seq<char>> {
    match owner {
        Owner::Image => ids::<ImageSummary, Members>(world.images),
        Owner::Pod => ids::<PodSummary, Members>(world.pods),
    }
}

/// The owner that a lookup of `wanted` among `known` finds.
pub open spec fn resolved(wanted: Option<Seq<char>>, known: Seq<Seq<char>>) -> Option<Seq<char>> {
    match wanted {
        Some(id) => if known.contains(id) {
            Some(id)
        } else {
            None
        },
        None => None,
    }
}

/// The rule for a new container: its image and its pod are looked up and linked, as far as
/// they are there. The link to the image is set either way, so that an image that is not
/// there leaves the container without one; the link to the pod is set only if the pod is
/// found.
pub open spec fn container_added(world: World, id: Seq<char>) -> World {
    if ids::<ContainerSummary, Owners>(world.containers).contains(id) {
        let at = ids::<ContainerSummary, Owners>(world.containers).index_of(id);
        let container = world.containers[at];
        let image = resolved(
            container.summary.image_id,
            ids::<ImageSummary, Members>(world.images),
        );
        let pod = resolved(container.summary.pod_id, ids::<PodSummary, Members>(world.pods));
        let with_image = with_link(container, Owner::Image, image);
        World {
            images: match image {
                Some(image) => adopting::<ImageSummary>(world.images, image, seq![id]),
                None => world.images,
            },
            containers: world.containers.update(
                at,
                match pod {
                    Some(_) => with_link(with_image, Owner::Pod, pod),
                    None => with_image,
                },
            ),
            pods: match pod {
                Some(pod) => adopting::<PodSummary>(world.pods, pod, seq![id]),
                None => world.pods,
            },
        }
    } else {
        world
    }
}

/// The rule for a container that has left its mirror: the image it was made from and the
/// pod it was linked to give it up.
pub open spec fn container_removed(world: World, container: ContainerView) -> World {
    let id = key_of::<ContainerSummary, Owners>(container);
    World {
        images: match container.summary.image_id {
            Some(image) => disowning::<ImageSummary>(world.images, image, id),
            None => world.images,
        },
        containers: world.containers,
        pods: match container.local.pod {
            Some(pod) => disowning::<PodSummary>(world.pods, pod, id),
            None => world.pods,
        },
    }
}

/// The image that the container with the given ID is linked to, looked up in the mirror
/// of the images. A container that is not there, one without a link, and one whose image
/// has left the mirror have no image.
pub open spec fn image_of(world: World, container: Seq<char>) -> Option<ImageView> {
    match find::<ContainerSummary, Owners>(world.containers, container) {
        Some(container) => match container.local.image {
            Some(image) => find::<ImageSummary, Members>(world.images, image),
            None => None,
        },
        None => None,
    }
}

/// The pod that the container with the given ID is linked to, looked up in the mirror of
/// the pods.
pub open spec fn pod_of(world: World, container: Seq<char>) -> Option<PodView> {
    match find::<ContainerSummary, Owners>(world.containers, container) {
        Some(container) => match container.local.pod {
            Some(pod) => find::<PodSummary, Members>(world.pods, pod),
            None => None,
        },
        None => None,
    }
}

/// The ID of the container's owner of the given kind, as the runtime reported it.
pub fn reported_owner(container: &Container, owner: Owner) -> (id: &Option<String>)
    ensures
        text(*id) == owner_id(container@, owner),
{
    match owner {
        Owner::Image => &container.summary.image_id,
        Owner::Pod => &container.summary.pod_id,
    }
}

/// Whether the container's owner of the given kind has the given ID.
pub fn belongs_to(container: &Container, owner: Owner, id: &str) -> (belongs: bool)
    ensures
        belongs == (owner_id(container@, owner) == Some(id@)),
{
    match reported_owner(container, owner) {
        Some(reported) => str_eq(reported.as_str(), id),
        None => false,
    }
}

/// Sets the container's link to its owner of the given kind.
pub fn set_link(container: &mut Container, owner: Owner, target: Option<String>)
    ensures
        final(container)@ == with_link(old(container)@, owner, text(target)),
{
    match owner {
        Owner::Image => container.local.set_image(target),
        Owner::Pod => container.local.set_pod(target),
    }
}

/// Makes the owner with the given ID, if `owners` holds it, take in the containers that
/// belong to it: each of them is linked to the owner and becomes its member.
pub fn adopt<S: Summary>(
    owners: &mut Mirror<S, Members>,
    containers: &mut ContainerList,
    owner: Owner,
    id: &str,
)
    requires
        old(owners).wf(),
        old(containers).wf(),
    ensures
        final(owners).wf(),
        final(containers).wf(),
        final(owners).is_listing() == old(owners).is_listing(),
        final(owners).initialized() == old(owners).initialized(),
        final(containers).is_listing() == old(containers).is_listing(),
        final(containers).initialized() == old(containers).initialized(),
        ids::<S, Members>(old(owners)@).contains(id@) ==> {
            &&& final(owners)@ == adopting::<S>(
                old(owners)@,
                id@,
                belonging(old(containers)@, owner, id@),
            )
            &&& final(containers)@ == claimed(old(containers)@, owner, id@)
        },
        !ids::<S, Members>(old(owners)@).contains(id@) ==> {
            &&& final(owners)@ == old(owners)@
            &&& final(containers)@ == old(containers)@
        },
{
    let at = match owners.position(id) {
        Some(at) => at,
        None => {
            return ;
        },
    };
    let ghost before = containers@;
    let ghost families = owners@;
    let mut j: usize = 0;
    proof {
        assert(before.take(0) =~= Seq::empty());
        assert(containers@ =~= claimed_up_to(before, owner, id@, 0));
        assert(owners@ =~= adopting::<S>(families, id@, belonging(before.take(0), owner, id@)));
    }
    while j < containers.len()
        invariant
            owners.wf(),
            containers.wf(),
            owners.is_listing() == old(owners).is_listing(),
            owners.initialized() == old(owners).initialized(),
            containers.is_listing() == old(containers).is_listing(),
            containers.initialized() == old(containers).initialized(),
            before == old(containers)@,
            families == old(owners)@,
            ids::<S, Members>(families).contains(id@),
            at == ids::<S, Members>(families).index_of(id@),
            at < families.len(),
            j <= before.len(),
            containers@ == claimed_up_to(before, owner, id@, j as int),
            owners@ == adopting::<S>(families, id@, belonging(before.take(j as int), owner, id@)),
        decreases before.len() - j,
    {
        proof {
            assert(before.take(j + 1).drop_last() =~= before.take(j as int));
            assert(before.take(j + 1).last() == before[j as int]);
        }
        let member = match containers.get_index(j) {
            Some(container) => {
                if belongs_to(container, owner, id) {
                    Some(container.id().clone())
                } else {
                    None
                }
            },
            None => None,
        };
        match member {
            Some(member) => {
                let ghost linked = belonging(before.take(j as int), owner, id@);
                let ghost was = owners@;
                proof {
                    assert(member@ == key_of::<ContainerSummary, Owners>(before[j as int]));
                    assert(linked.push(member@).drop_last() =~= linked);
                    assert(belonging(before.take(j + 1), owner, id@) == linked.push(member@));
                    assert(was[at as int] == with_members(
                        families[at as int],
                        with_items(families[at as int].local.containers, linked),
                    ));
                }
                let container = containers.entity_mut(j);
                set_link(container, owner, Some(String::from_str(id)));
                let family = owners.entity_mut(at);
                family.local.add_container(member);
                proof {
                    assert(containers@ =~= claimed_up_to(before, owner, id@, j + 1));
                    assert(owners@ =~= adopting::<S>(
                        families,
                        id@,
                        belonging(before.take(j + 1), owner, id@),
                    ));
                }
            },
            None => {
                proof {
                    assert(containers@ =~= claimed_up_to(before, owner, id@, j + 1));
                }
            },
        }
        j = j + 1;
    }
    proof {
        assert(before.take(j as int) =~= before);
    }
}

/// Makes the owner with the given ID, if `owners` holds it, give up the member.
pub fn disown<S: Summary>(owners: &mut Mirror<S, Members>, id: &str, member: &str)
    requires
        old(owners).wf(),
    ensures
        final(owners).wf(),
        final(owners).is_listing() == old(owners).is_listing(),
        final(owners).initialized() == old(owners).initialized(),
        final(owners)@ == disowning::<S>(old(owners)@, id@, member@),
{
    match owners.position(id) {
        Some(at) => {
            let family = owners.entity_mut(at);
            family.local.remove_container(member);
        },
        None => {},
    }
}

/// Taking in a single item is putting it at the end, unless it is there already.
pub proof fn lemma_with_one_item()
    ensures
        forall|list: Seq<Seq<char>>, item: Seq<char>|
            #[trigger] with_items(list, seq![item]) == with_item(list, item),
{
    assert forall|list: Seq<Seq<char>>, item: Seq<char>|
        #[trigger] with_items(list, seq![item]) == with_item(list, item) by {
        assert(seq![item].drop_last() =~= Seq::<Seq<char>>::empty());
        assert(with_items(list, Seq::<Seq<char>>::empty()) == list);
        assert(seq![item].last() == item);
    }
}

} // verus!
