//! The client: the three mirrors of one runtime, the rules that link them, and the
//! decisions of its life cycle.
//!
//! The client makes no request itself. Each of its functions takes in what happened (the
//! service answered, a listing came back, the event stream yielded an item, the timer
//! fired) and tells its owner what to do next.

use crate::connection::Connection;
use crate::container::{
    container_reaction, ContainerList, ContainerSummary, ContainerSummaryView,
};
use crate::entity::views;
use crate::event::Event;
use crate::gateway::{gateway_accepts, open_gateway};
use crate::image::{image_reaction, Image, ImageList, ImageSummary, ImageSummaryView};
use crate::links::{Members, MembersView, Owners, OwnersView};
use crate::mirror::{refresh_changes, refreshed, Change, ChangeView, Reaction, Refreshed};
use crate::pod::{pod_reaction, Pod, PodList, PodSummary, PodSummaryView};
use crate::text::{copy_text, str_eq, text};
use crate::wiring::{
    adopt, container_added, container_removed, disown, image_added, image_of,
    lemma_with_one_item, pod_added, pod_of, set_link, Owner, World,
};
use podman_api::Podman;
use vstd::prelude::*;
use vstd::string::StringExecFns;

verus! {

/// The seconds between two periodic refreshes.
pub const SYNC_INTERVAL: u32 = 5;

/// The collection whose refresh failed.
#[derive(Clone, Copy, Debug, PartialEq, Eq, Structural)]
pub enum ClientError {
    Images,
    Containers,
    Pods,
}

/// One of the three remote collections.
#[derive(Clone, Copy, Debug, PartialEq, Eq, Structural)]
pub enum Domain {
    Images,
    Containers,
    Pods,
}

/// What the client asks of its owner.
pub enum Command {
    /// List a collection, all of it or the one ID given, and hand the result to the
    /// client. A quiet listing is one whose failure nobody is told of.
    List { domain: Domain, id: Option<String>, quiet: bool },
    /// Tell whoever waits for it that the client is ready.
    Ready,
    /// Open the event stream and hand each item to the client.
    Listen,
    /// Start the timer of the periodic refresh, with this many seconds between two.
    StartSync { seconds: u32 },
}

/// The mathematical value of a [`Command`].
pub ghost enum CommandView {
    List { domain: Domain, id: Option<Seq<char>>, quiet: bool },
    Ready,
    Listen,
    StartSync { seconds: u32 },
}

impl View for Command {
    type V = CommandView;

    open spec fn view(&self) -> CommandView {
        match *self {
            Command::List { domain, id, quiet } => CommandView::List {
                domain,
                id: text(id),
                quiet,
            },
            Command::Ready => CommandView::Ready,
            Command::Listen => CommandView::Listen,
            Command::StartSync { seconds } => CommandView::StartSync { seconds },
        }
    }
}

/// The listing of a whole collection.
pub open spec fn list_all(domain: Domain, quiet: bool) -> CommandView {
    CommandView::List { domain, id: None, quiet }
}

/// The three listings of a full refresh.
pub open spec fn full_refresh(quiet: bool) -> Seq<CommandView> {
    seq![
        list_all(Domain::Images, quiet),
        list_all(Domain::Containers, quiet),
        list_all(Domain::Pods, quiet),
    ]
}

/// What the client asks for once the service has answered.
pub open spec fn startup() -> Seq<CommandView> {
    full_refresh(false) + seq![
        CommandView::Ready,
        CommandView::Listen,
        CommandView::StartSync { seconds: SYNC_INTERVAL },
    ]
}

/// The world after the rule for a new image has been applied for each image that the
/// changes add, in their order.
pub open spec fn images_wired(
    world: World,
    changes: Seq<ChangeView<ImageSummaryView, MembersView>>,
) -> World
    decreases changes.len(),
{
    if changes.len() == 0 {
        world
    } else {
        let earlier = images_wired(world, changes.drop_last());
        match changes.last() {
            ChangeView::Added { position, id } => image_added(earlier, id),
            _ => earlier,
        }
    }
}

/// The world after the rule for a new pod has been applied for each pod that the changes
/// add, in their order.
pub open spec fn pods_wired(
    world: World,
    changes: Seq<ChangeView<PodSummaryView, MembersView>>,
) -> World
    decreases changes.len(),
{
    if changes.len() == 0 {
        world
    } else {
        let earlier = pods_wired(world, changes.drop_last());
        match changes.last() {
            ChangeView::Added { position, id } => pod_added(earlier, id),
            _ => earlier,
        }
    }
}

/// The world after the rules for a new container and for a container that has left have
/// been applied for each container that the changes add or delete, in their order.
pub open spec fn containers_wired(
    world: World,
    changes: Seq<ChangeView<ContainerSummaryView, OwnersView>>,
) -> World
    decreases changes.len(),
{
    if changes.len() == 0 {
        world
    } else {
        let earlier = containers_wired(world, changes.drop_last());
        match changes.last() {
            ChangeView::Added { position, id } => container_added(earlier, id),
            ChangeView::Deleted { entity } => container_removed(earlier, entity),
            _ => earlier,
        }
    }
}

/// The collection that an event of the given type is about, if it is one of the three.
pub open spec fn event_domain(typ: Seq<char>) -> Option<Domain> {
    if typ == "image"@ {
        Some(Domain::Images)
    } else if typ == "container"@ {
        Some(Domain::Containers)
    } else if typ == "pod"@ {
        Some(Domain::Pods)
    } else {
        None
    }
}

/// The collection that an event of the given type is about.
pub fn classify_event_type(typ: &str) -> (domain: Option<Domain>)
    ensures
        domain == event_domain(typ@),
{
    if str_eq(typ, "image") {
        Some(Domain::Images)
    } else if str_eq(typ, "container") {
        Some(Domain::Containers)
    } else if str_eq(typ, "pod") {
        Some(Domain::Pods)
    } else {
        None
    }
}

/// What the client did with an item of the event stream.
pub enum Handled<E> {
    /// The event was about an image; this is what the mirror of the images did.
    Images(Reaction<ImageSummary, Members>),
    /// The event was about a container; this is what the mirror of the containers did.
    Containers(Reaction<ContainerSummary, Owners>),
    /// The event was about a pod; this is what the mirror of the pods did.
    Pods(Reaction<PodSummary, Members>),
    /// The event is of a type that the client does not handle. It is to be logged.
    Unhandled,
    /// The stream failed. The client has stopped listening for good; the error is to be
    /// told once to whoever owns the session.
    Fatal(E),
    /// The client is not listening; the item was dropped.
    Dropped,
}

/// The changes of an eviction that a mirror reports in its reaction.
pub open spec fn evicted<S: View, L: View>(reaction: Reaction<S, L>) -> Seq<
    ChangeView<S::V, L::V>,
> {
    match reaction {
        Reaction::Evicted(changes) => views(changes@),
        _ => Seq::empty(),
    }
}

/// What [`Client::handle_stream_item`] does with an event while the client listens.
pub open spec fn event_handled<E>(
    before: Client,
    event: Event,
    after: Client,
    handled: Handled<E>,
) -> bool {
    match event_domain(event.typ@) {
        Some(Domain::Images) => {
            &&& handled matches Handled::Images(reaction)
            &&& image_reaction(before.images(), event, after.images(), reaction)
            &&& after.containers() == before.containers()
            &&& after.pods() == before.pods()
        },
        Some(Domain::Containers) => {
            &&& handled matches Handled::Containers(reaction)
            &&& container_reaction(before.containers(), event, after.containers(), reaction)
            &&& after@ == containers_wired(
                World {
                    images: before@.images,
                    containers: after@.containers,
                    pods: before@.pods,
                },
                evicted(reaction),
            )
            &&& after.images().wf() && after.pods().wf()
            &&& after.images().is_listing() == before.images().is_listing()
            &&& after.images().initialized() == before.images().initialized()
            &&& after.pods().is_listing() == before.pods().is_listing()
            &&& after.pods().initialized() == before.pods().initialized()
        },
        Some(Domain::Pods) => {
            &&& handled matches Handled::Pods(reaction)
            &&& pod_reaction(before.pods(), event, after.pods(), reaction)
            &&& after.images() == before.images()
            &&& after.containers() == before.containers()
        },
        None => {
            &&& handled is Unhandled
            &&& after.images() == before.images()
            &&& after.containers() == before.containers()
            &&& after.pods() == before.pods()
        },
    }
}

/// Whether the changes are those of evictions: removals and deletions only.
pub open spec fn only_evictions(
    changes: Seq<ChangeView<ContainerSummaryView, OwnersView>>,
) -> bool {
    forall|k: int|
        0 <= k < changes.len() ==> (#[trigger] changes[k] is Removed || changes[k] is Deleted)
}

/// Evictions leave the containers that stay as they are: only images and pods give up
/// members.
pub proof fn lemma_eviction_wired(
    world: World,
    changes: Seq<ChangeView<ContainerSummaryView, OwnersView>>,
)
    requires
        only_evictions(changes),
    ensures
        containers_wired(world, changes).containers == world.containers,
    decreases changes.len(),
{
    if changes.len() > 0 {
        let earlier = changes.drop_last();
        assert forall|k: int| 0 <= k < earlier.len() implies (#[trigger] earlier[k] is Removed
            || earlier[k] is Deleted) by {
            assert(earlier[k] == changes[k]);
        }
        lemma_eviction_wired(world, earlier);
        assert(changes[changes.len() - 1] == changes.last());
    }
}

/// What a listing that came back did to the client.
pub struct Report<S, L> {
    /// What it did to the mirror of its collection.
    pub refreshed: Refreshed<S, L>,
    /// The error to tell of: the collection of a listing that failed and was not quiet.
    pub error: Option<ClientError>,
}

/// The error to tell of after a listing.
pub open spec fn error_of(domain: ClientError, failed: bool, quiet: bool) -> Option<ClientError> {
    if failed && !quiet {
        Some(domain)
    } else {
        None
    }
}

/// The client of one runtime: the handle that reaches the runtime, the connection that
/// the handle was made for, and the mirrors of the runtime's images, containers and pods.
pub struct Client {
    podman: Podman,
    connection: Connection,
    images: ImageList,
    containers: ContainerList,
    pods: PodList,
    listening: bool,
}

impl View for Client {
    type V = World;

    open spec fn view(&self) -> World {
        World { images: self.images()@, containers: self.containers()@, pods: self.pods()@ }
    }
}

impl Client {
    /// The mirror of the images.
    pub closed spec fn images(&self) -> ImageList {
        self.images
    }

    /// The mirror of the containers.
    pub closed spec fn containers(&self) -> ContainerList {
        self.containers
    }

    /// The mirror of the pods.
    pub closed spec fn pods(&self) -> PodList {
        self.pods
    }

    /// The connection that the client was made for.
    pub closed spec fn link(&self) -> Connection {
        self.connection
    }

    /// The handle through which the client's owner reaches the runtime.
    pub closed spec fn gateway(&self) -> Podman {
        self.podman
    }

    /// Whether the client takes in items of the event stream.
    pub closed spec fn is_listening(&self) -> bool {
        self.listening
    }

    /// The three mirrors are sound.
    pub open spec fn wf(&self) -> bool {
        &&& self.images().wf()
        &&& self.containers().wf()
        &&& self.pods().wf()
    }

    /// Whether each mirror of `self` is as far as that of `other`: listing or not,
    /// initialized or not.
    pub open spec fn same_progress(&self, other: Client) -> bool {
        &&& self.images().is_listing() == other.images().is_listing()
        &&& self.images().initialized() == other.images().initialized()
        &&& self.containers().is_listing() == other.containers().is_listing()
        &&& self.containers().initialized() == other.containers().initialized()
        &&& self.pods().is_listing() == other.pods().is_listing()
        &&& self.pods().initialized() == other.pods().initialized()
    }

    /// Whether all three mirrors are listing.
    pub open spec fn all_listing(&self) -> bool {
        &&& self.images().is_listing()
        &&& self.containers().is_listing()
        &&& self.pods().is_listing()
    }

    /// Whether the client is as it is made: its mirrors are empty, none of them is listing
    /// or initialized, and the client does not listen.
    pub open spec fn is_fresh(&self) -> bool {
        &&& self.wf()
        &&& self@.images.len() == 0
        &&& self@.containers.len() == 0
        &&& self@.pods.len() == 0
        &&& !self.is_listening()
        &&& !self.images().is_listing() && !self.images().initialized()
        &&& !self.containers().is_listing() && !self.containers().initialized()
        &&& !self.pods().is_listing() && !self.pods().initialized()
    }

    /// A client for the connection, given what the attempt to make a handle for the
    /// connection's address came to: a new client around the handle, or the reason why
    /// there is no handle.
    pub fn from_gateway(
        connection: Connection,
        gateway: Result<Podman, podman_api::Error>,
    ) -> (made: Result<Client, podman_api::Error>)
        ensures
            match gateway {
                Ok(podman) => {
                    &&& made matches Ok(client)
                    &&& client.gateway() == podman
                    &&& client.link() == connection
                    &&& client.is_fresh()
                },
                Err(error) => made matches Err(reason) && reason == error,
            },
    {
        match gateway {
            Ok(podman) => Ok(
                Client {
                    podman,
                    connection,
                    images: ImageList::new(),
                    containers: ContainerList::new(),
                    pods: PodList::new(),
                    listening: false,
                },
            ),
            Err(error) => Err(error),
        }
    }

    /// A client for the connection. Only a handle for the connection's address is made;
    /// the endpoint is not reached. There is a client exactly where a handle can be made
    /// for the address: a new client for a copy of the connection.
    pub fn try_from(connection: &Connection) -> (made: Result<Client, podman_api::Error>)
        ensures
            made is Ok <==> gateway_accepts(connection@.url),
            made matches Ok(client) ==> client.link()@ == connection@ && client.is_fresh(),
    {
        let gateway = open_gateway(connection.url().as_str());
        Client::from_gateway(connection.duplicate(), gateway)
    }

    /// The handle through which the runtime is reached.
    pub fn podman(&self) -> (podman: &Podman)
        ensures
            *podman == self.gateway(),
    {
        &self.podman
    }

    /// The connection that the client was made for.
    pub fn connection(&self) -> (connection: &Connection)
        ensures
            *connection == self.link(),
    {
        &self.connection
    }

    /// The mirror of the images.
    pub fn image_list(&self) -> (list: &ImageList)
        ensures
            *list == self.images(),
    {
        &self.images
    }

    /// The mirror of the containers.
    pub fn container_list(&self) -> (list: &ContainerList)
        ensures
            *list == self.containers(),
    {
        &self.containers
    }

    /// The mirror of the pods.
    pub fn pod_list(&self) -> (list: &PodList)
        ensures
            *list == self.pods(),
    {
        &self.pods
    }

    /// Whether the client takes in items of the event stream.
    pub fn listening(&self) -> (listening: bool)
        ensures
            listening == self.is_listening(),
    {
        self.listening
    }

    /// The image that the container with the given ID is linked to, if the mirror of the
    /// images holds it.
    pub fn image_of(&self, container: &str) -> (found: Option<&Image>)
        requires
            self.wf(),
        ensures
            match found {
                Some(image) => image_of(self@, container@) == Some(image@),
                None => image_of(self@, container@) is None,
            },
    {
        match self.containers.get(container) {
            Some(container) => match container.local.image() {
                Some(image) => self.images.get(image.as_str()),
                None => None,
            },
            None => None,
        }
    }

    /// The pod that the container with the given ID is linked to, if the mirror of the
    /// pods holds it.
    pub fn pod_of(&self, container: &str) -> (found: Option<&Pod>)
        requires
            self.wf(),
        ensures
            match found {
                Some(pod) => pod_of(self@, container@) == Some(pod@),
                None => pod_of(self@, container@) is None,
            },
    {
        match self.containers.get(container) {
            Some(container) => match container.local.pod() {
                Some(pod) => self.pods.get(pod.as_str()),
                None => None,
            },
            None => None,
        }
    }

    /// Applies the rule for a new image.
    pub fn image_added(&mut self, id: &str)
        requires
            old(self).wf(),
        ensures
            final(self).wf(),
            final(self).same_progress(*old(self)),
            final(self).is_listening() == old(self).is_listening(),
            final(self).link() == old(self).link(),
            final(self).gateway() == old(self).gateway(),
            final(self)@ == image_added(old(self)@, id@),
    {
        adopt(&mut self.images, &mut self.containers, Owner::Image, id);
    }

    /// Applies the rule for a new pod.
    pub fn pod_added(&mut self, id: &str)
        requires
            old(self).wf(),
        ensures
            final(self).wf(),
            final(self).same_progress(*old(self)),
            final(self).is_listening() == old(self).is_listening(),
            final(self).link() == old(self).link(),
            final(self).gateway() == old(self).gateway(),
            final(self)@ == pod_added(old(self)@, id@),
    {
        adopt(&mut self.pods, &mut self.containers, Owner::Pod, id);
    }

    /// Applies the rule for a new container.
    pub fn container_added(&mut self, id: &str)
        requires
            old(self).wf(),
        ensures
            final(self).wf(),
            final(self).same_progress(*old(self)),
            final(self).is_listening() == old(self).is_listening(),
            final(self).link() == old(self).link(),
            final(self).gateway() == old(self).gateway(),
            final(self)@ == container_added(old(self)@, id@),
    {
        let at = match self.containers.position(id) {
            Some(at) => at,
            None => {
                return ;
            },
        };
        let (image_id, pod_id) = match self.containers.get_index(at) {
            Some(container) => (
                copy_text(&container.summary.image_id),
                copy_text(&container.summary.pod_id),
            ),
            None => (None, None),
        };
        proof {
            lemma_with_one_item();
        }
        let image = match image_id {
            Some(image) => match self.images.position(image.as_str()) {
                Some(place) => {
                    let owner = self.images.entity_mut(place);
                    owner.local.add_container(String::from_str(id));
                    Some(image)
                },
                None => None,
            },
            None => None,
        };
        assert(self@.images == container_added(old(self)@, id@).images);
        let container = self.containers.entity_mut(at);
        set_link(container, Owner::Image, image);
        match pod_id {
            Some(pod) => match self.pods.position(pod.as_str()) {
                Some(place) => {
                    let owner = self.pods.entity_mut(place);
                    owner.local.add_container(String::from_str(id));
                    let container = self.containers.entity_mut(at);
                    set_link(container, Owner::Pod, Some(pod));
                },
                None => {},
            },
            None => {},
        }
        assert(self@.pods == container_added(old(self)@, id@).pods);
        assert(self@.containers =~= container_added(old(self)@, id@).containers);
    }

    /// Applies the rule for a container that has left its mirror.
    pub fn container_removed(&mut self, container: &crate::container::Container)
        requires
            old(self).wf(),
        ensures
            final(self).wf(),
            final(self).same_progress(*old(self)),
            final(self).is_listening() == old(self).is_listening(),
            final(self).link() == old(self).link(),
            final(self).gateway() == old(self).gateway(),
            final(self)@ == container_removed(old(self)@, container@),
    {
        match &container.summary.image_id {
            Some(image) => disown(&mut self.images, image.as_str(), container.id().as_str()),
            None => {},
        }
        match container.local.pod() {
            Some(pod) => disown(&mut self.pods, pod.as_str(), container.id().as_str()),
            None => {},
        }
    }

    /// Applies the rule for a new image for each image that the changes add.
    pub fn wire_images(&mut self, changes: &Vec<Change<ImageSummary, Members>>)
        requires
            old(self).wf(),
        ensures
            final(self).wf(),
            final(self).same_progress(*old(self)),
            final(self).is_listening() == old(self).is_listening(),
            final(self).link() == old(self).link(),
            final(self).gateway() == old(self).gateway(),
            final(self)@ == images_wired(old(self)@, views(changes@)),
    {
        let ghost log = views(changes@);
        let mut k: usize = 0;
        assert(log.take(0) =~= Seq::empty());
        while k < changes.len()
            invariant
                self.wf(),
                self.same_progress(*old(self)),
                self.is_listening() == old(self).is_listening(),
                self.link() == old(self).link(),
                self.gateway() == old(self).gateway(),
                log == views(changes@),
                k <= changes.len(),
                self@ == images_wired(old(self)@, log.take(k as int)),
            decreases changes.len() - k,
        {
            proof {
                assert(log.take(k + 1).drop_last() =~= log.take(k as int));
                assert(log.take(k + 1).last() == changes[k as int]@);
            }
            match &changes[k] {
                Change::Added { position, id } => self.image_added(id.as_str()),
                _ => {},
            }
            k = k + 1;
        }
        assert(log.take(k as int) =~= log);
    }

    /// Applies the rule for a new pod for each pod that the changes add.
    pub fn wire_pods(&mut self, changes: &Vec<Change<PodSummary, Members>>)
        requires
            old(self).wf(),
        ensures
            final(self).wf(),
            final(self).same_progress(*old(self)),
            final(self).is_listening() == old(self).is_listening(),
            final(self).link() == old(self).link(),
            final(self).gateway() == old(self).gateway(),
            final(self)@ == pods_wired(old(self)@, views(changes@)),
    {
        let ghost log = views(changes@);
        let mut k: usize = 0;
        assert(log.take(0) =~= Seq::empty());
        while k < changes.len()
            invariant
                self.wf(),
                self.same_progress(*old(self)),
                self.is_listening() == old(self).is_listening(),
                self.link() == old(self).link(),
                self.gateway() == old(self).gateway(),
                log == views(changes@),
                k <= changes.len(),
                self@ == pods_wired(old(self)@, log.take(k as int)),
            decreases changes.len() - k,
        {
            proof {
                assert(log.take(k + 1).drop_last() =~= log.take(k as int));
                assert(log.take(k + 1).last() == changes[k as int]@);
            }
            match &changes[k] {
                Change::Added { position, id } => self.pod_added(id.as_str()),
                _ => {},
            }
            k = k + 1;
        }
        assert(log.take(k as int) =~= log);
    }

    /// Applies the rule for a new container for each container that the changes add, and
    /// the rule for a container that has left for each container that they delete.
    pub fn wire_containers(&mut self, changes: &Vec<Change<ContainerSummary, Owners>>)
        requires
            old(self).wf(),
        ensures
            final(self).wf(),
            final(self).same_progress(*old(self)),
            final(self).is_listening() == old(self).is_listening(),
            final(self).link() == old(self).link(),
            final(self).gateway() == old(self).gateway(),
            final(self)@ == containers_wired(old(self)@, views(changes@)),
    {
        let ghost log = views(changes@);
        let mut k: usize = 0;
        assert(log.take(0) =~= Seq::empty());
        while k < changes.len()
            invariant
                self.wf(),
                self.same_progress(*old(self)),
                self.is_listening() == old(self).is_listening(),
                self.link() == old(self).link(),
                self.gateway() == old(self).gateway(),
                log == views(changes@),
                k <= changes.len(),
                self@ == containers_wired(old(self)@, log.take(k as int)),
            decreases changes.len() - k,
        {
            proof {
                assert(log.take(k + 1).drop_last() =~= log.take(k as int));
                assert(log.take(k + 1).last() == changes[k as int]@);
            }
            match &changes[k] {
                Change::Added { position, id } => self.container_added(id.as_str()),
                Change::Deleted { entity } => self.container_removed(entity),
                _ => {},
            }
            k = k + 1;
        }
        assert(log.take(k as int) =~= log);
    }

    /// Takes in what a listing of the images came back with, `None` where it failed, and
    /// links the images that it added.
    pub fn images_listed(
        &mut self,
        quiet: bool,
        result: Option<Vec<ImageSummary>>,
    ) -> (report: Report<ImageSummary, Members>)
        requires
            old(self).wf(),
        ensures
            final(self).wf(),
            final(self).is_listening() == old(self).is_listening(),
            final(self).link() == old(self).link(),
            final(self).gateway() == old(self).gateway(),
            !final(self).images().is_listing(),
            final(self).images().initialized(),
            final(self).containers().is_listing() == old(self).containers().is_listing(),
            final(self).containers().initialized() == old(self).containers().initialized(),
            final(self).pods().is_listing() == old(self).pods().is_listing(),
            final(self).pods().initialized() == old(self).pods().initialized(),
            report.refreshed.failed == (result is None),
            report.refreshed.listing_changed == old(self).images().is_listing(),
            report.refreshed.initialized_changed == !old(self).images().initialized(),
            report.error == error_of(ClientError::Images, result is None, quiet),
            result matches Some(response) ==> {
                let changes = refresh_changes::<ImageSummary, Members>(
                    old(self)@.images,
                    true,
                    views(response@),
                );
                &&& views(report.refreshed.changes@) == changes
                &&& final(self)@ == images_wired(
                    World {
                        images: refreshed::<ImageSummary, Members>(
                            old(self)@.images,
                            true,
                            views(response@),
                        ),
                        containers: old(self)@.containers,
                        pods: old(self)@.pods,
                    },
                    changes,
                )
            },
            result is None ==> final(self)@ == old(self)@ && report.refreshed.changes@.len() == 0,
    {
        let refreshed = self.images.finish_refresh(result);
        self.wire_images(&refreshed.changes);
        let error = if refreshed.failed && !quiet {
            Some(ClientError::Images)
        } else {
            None
        };
        assert(refreshed.changes@.len() == 0 ==> views(refreshed.changes@) =~= Seq::empty());
        Report { refreshed, error }
    }

    /// Takes in what a listing of the containers came back with, `None` where it failed,
    /// and links the containers that it added and unlinks those that it deleted. `id` is
    /// the one ID that the listing asked for, `None` where it asked for all.
    pub fn containers_listed(
        &mut self,
        id: Option<&str>,
        quiet: bool,
        result: Option<Vec<ContainerSummary>>,
    ) -> (report: Report<ContainerSummary, Owners>)
        requires
            old(self).wf(),
        ensures
            final(self).wf(),
            final(self).is_listening() == old(self).is_listening(),
            final(self).link() == old(self).link(),
            final(self).gateway() == old(self).gateway(),
            !final(self).containers().is_listing(),
            final(self).containers().initialized(),
            final(self).images().is_listing() == old(self).images().is_listing(),
            final(self).images().initialized() == old(self).images().initialized(),
            final(self).pods().is_listing() == old(self).pods().is_listing(),
            final(self).pods().initialized() == old(self).pods().initialized(),
            report.refreshed.failed == (result is None),
            report.refreshed.listing_changed == old(self).containers().is_listing(),
            report.refreshed.initialized_changed == !old(self).containers().initialized(),
            report.error == error_of(ClientError::Containers, result is None, quiet),
            result matches Some(response) ==> {
                let changes = refresh_changes::<ContainerSummary, Owners>(
                    old(self)@.containers,
                    id is None,
                    views(response@),
                );
                &&& views(report.refreshed.changes@) == changes
                &&& final(self)@ == containers_wired(
                    World {
                        images: old(self)@.images,
                        containers: refreshed::<ContainerSummary, Owners>(
                            old(self)@.containers,
                            id is None,
                            views(response@),
                        ),
                        pods: old(self)@.pods,
                    },
                    changes,
                )
            },
            result is None ==> final(self)@ == old(self)@ && report.refreshed.changes@.len() == 0,
    {
        let refreshed = self.containers.finish_refresh(id, result);
        self.wire_containers(&refreshed.changes);
        let error = if refreshed.failed && !quiet {
            Some(ClientError::Containers)
        } else {
            None
        };
        assert(refreshed.changes@.len() == 0 ==> views(refreshed.changes@) =~= Seq::empty());
        Report { refreshed, error }
    }

    /// Takes in what a listing of the pods came back with, `None` where it failed, and
    /// links the pods that it added. `id` is the one ID that the listing asked for, `None`
    /// where it asked for all.
    pub fn pods_listed(
        &mut self,
        id: Option<&str>,
        quiet: bool,
        result: Option<Vec<PodSummary>>,
    ) -> (report: Report<PodSummary, Members>)
        requires
            old(self).wf(),
        ensures
            final(self).wf(),
            final(self).is_listening() == old(self).is_listening(),
            final(self).link() == old(self).link(),
            final(self).gateway() == old(self).gateway(),
            !final(self).pods().is_listing(),
            final(self).pods().initialized(),
            final(self).images().is_listing() == old(self).images().is_listing(),
            final(self).images().initialized() == old(self).images().initialized(),
            final(self).containers().is_listing() == old(self).containers().is_listing(),
            final(self).containers().initialized() == old(self).containers().initialized(),
            report.refreshed.failed == (result is None),
            report.refreshed.listing_changed == old(self).pods().is_listing(),
            report.refreshed.initialized_changed == !old(self).pods().initialized(),
            report.error == error_of(ClientError::Pods, result is None, quiet),
            result matches Some(response) ==> {
                let changes = refresh_changes::<PodSummary, Members>(
                    old(self)@.pods,
                    id is None,
                    views(response@),
                );
                &&& views(report.refreshed.changes@) == changes
                &&& final(self)@ == pods_wired(
                    World {
                        images: old(self)@.images,
                        containers: old(self)@.containers,
                        pods: refreshed::<PodSummary, Members>(
                            old(self)@.pods,
                            id is None,
                            views(response@),
                        ),
                    },
                    changes,
                )
            },
            result is None ==> final(self)@ == old(self)@ && report.refreshed.changes@.len() == 0,
    {
        let refreshed = self.pods.finish_refresh(id, result);
        self.wire_pods(&refreshed.changes);
        let error = if refreshed.failed && !quiet {
            Some(ClientError::Pods)
        } else {
            None
        };
        assert(refreshed.changes@.len() == 0 ==> views(refreshed.changes@) =~= Seq::empty());
        Report { refreshed, error }
    }

    /// Marks all three mirrors as listing and asks for the three listings.
    fn refresh_all(&mut self, quiet: bool) -> (commands: Vec<Command>)
        ensures
            final(self)@ == old(self)@,
            final(self).wf() == old(self).wf(),
            final(self).all_listing(),
            final(self).images().initialized() == old(self).images().initialized(),
            final(self).containers().initialized() == old(self).containers().initialized(),
            final(self).pods().initialized() == old(self).pods().initialized(),
            final(self).is_listening() == old(self).is_listening(),
            final(self).link() == old(self).link(),
            final(self).gateway() == old(self).gateway(),
            views(commands@) == full_refresh(quiet),
    {
        self.images.refresh();
        self.containers.refresh();
        self.pods.refresh();
        let mut commands: Vec<Command> = Vec::new();
        commands.push(Command::List { domain: Domain::Images, id: None, quiet });
        commands.push(Command::List { domain: Domain::Containers, id: None, quiet });
        commands.push(Command::List { domain: Domain::Pods, id: None, quiet });
        assert(views(commands@) =~= full_refresh(quiet));
        commands
    }

    /// Takes in whether the service answered the ping.
    ///
    /// Where it did, the client starts up: it asks for a listing of each collection, then
    /// for the word that it is ready, for the event stream and for the timer of the
    /// periodic refresh; from now on it listens. Where it did not, nothing happens; that
    /// is to be logged, and no second attempt is made.
    pub fn check_service(&mut self, reachable: bool) -> (commands: Vec<Command>)
        ensures
            final(self)@ == old(self)@,
            final(self).wf() == old(self).wf(),
            final(self).link() == old(self).link(),
            final(self).gateway() == old(self).gateway(),
            final(self).images().initialized() == old(self).images().initialized(),
            final(self).containers().initialized() == old(self).containers().initialized(),
            final(self).pods().initialized() == old(self).pods().initialized(),
            reachable ==> {
                &&& views(commands@) == startup()
                &&& final(self).all_listing()
                &&& final(self).is_listening()
            },
            !reachable ==> {
                &&& commands@.len() == 0
                &&& final(self).same_progress(*old(self))
                &&& final(self).is_listening() == old(self).is_listening()
            },
    {
        if reachable {
            let mut commands = self.refresh_all(false);
            let ghost listings = commands@;
            commands.push(Command::Ready);
            commands.push(Command::Listen);
            commands.push(Command::StartSync { seconds: SYNC_INTERVAL });
            self.listening = true;
            assert(views(commands@) =~= views(listings) + seq![
                CommandView::Ready,
                CommandView::Listen,
                CommandView::StartSync { seconds: SYNC_INTERVAL },
            ]);
            commands
        } else {
            Vec::new()
        }
    }

    /// Takes in that the timer of the periodic refresh has fired: the client asks for a
    /// quiet listing of each collection.
    pub fn sync(&mut self) -> (commands: Vec<Command>)
        ensures
            final(self)@ == old(self)@,
            final(self).wf() == old(self).wf(),
            final(self).link() == old(self).link(),
            final(self).gateway() == old(self).gateway(),
            final(self).is_listening() == old(self).is_listening(),
            final(self).all_listing(),
            final(self).images().initialized() == old(self).images().initialized(),
            final(self).containers().initialized() == old(self).containers().initialized(),
            final(self).pods().initialized() == old(self).pods().initialized(),
            views(commands@) == full_refresh(true),
    {
        self.refresh_all(true)
    }

    /// Takes in one item of the event stream.
    ///
    /// An event goes to the mirror of the collection that its type names; an event of
    /// another type is not handled. The first failure of the stream ends the listening for
    /// good: that item is fatal, and every later one is dropped.
    pub fn handle_stream_item<E>(&mut self, item: Result<Event, E>) -> (handled: Handled<E>)
        requires
            old(self).wf(),
        ensures
            final(self).wf(),
            final(self).link() == old(self).link(),
            final(self).gateway() == old(self).gateway(),
            !old(self).is_listening() ==> {
                &&& handled is Dropped
                &&& !final(self).is_listening()
                &&& final(self).images() == old(self).images()
                &&& final(self).containers() == old(self).containers()
                &&& final(self).pods() == old(self).pods()
            },
            old(self).is_listening() ==> match item {
                Ok(event) => final(self).is_listening() && event_handled(
                    *old(self),
                    event,
                    *final(self),
                    handled,
                ),
                Err(error) => {
                    &&& handled == Handled::Fatal(error)
                    &&& !final(self).is_listening()
                    &&& final(self).images() == old(self).images()
                    &&& final(self).containers() == old(self).containers()
                    &&& final(self).pods() == old(self).pods()
                },
            },
    {
        if !self.listening {
            return Handled::Dropped;
        }
        match item {
            Ok(event) => match classify_event_type(event.typ.as_str()) {
                Some(Domain::Images) => Handled::Images(self.images.handle_event(&event)),
                Some(Domain::Containers) => {
                    let reaction = self.containers.handle_event(&event);
                    match &reaction {
                        Reaction::Evicted(changes) => {
                            proof {
                                lemma_eviction_wired(self@, views(changes@));
                            }
                            self.wire_containers(changes);
                        },
                        _ => {},
                    }
                    Handled::Containers(reaction)
                },
                Some(Domain::Pods) => Handled::Pods(self.pods.handle_event(&event)),
                None => Handled::Unhandled,
            },
            Err(error) => {
                self.listening = false;
                Handled::Fatal(error)
            },
        }
    }
}

} // verus!
