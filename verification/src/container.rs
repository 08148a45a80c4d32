//! The mirror of the runtime's containers.

use crate::counting::{count, lemma_count_bounds, lemma_count_step};
use crate::entity::{views, Entity, EntityView, Summary};
use crate::event::Event;
use crate::links::{Owners, OwnersView};
use crate::mirror::{
    find, ids, refresh_changes, refreshed, removal, Change, Mirror, Reaction, Refreshed,
};
use crate::text::{str_eq, text};
use vstd::prelude::*;

verus! {

/// The state of a container, as the runtime names it.
#[derive(Clone, Copy, Debug, PartialEq, Eq, Structural)]
pub enum ContainerStatus {
    Configured,
    Created,
    Dead,
    Exited,
    Initialized,
    Paused,
    Removing,
    Restarting,
    Running,
    Stopped,
    Stopping,
    Unknown,
}

/// What a listing reports of one container.
pub struct ContainerSummary {
    pub id: String,
    pub name: String,
    /// The ID of the image that the container was made from.
    pub image_id: Option<String>,
    /// The ID of the pod that the container runs in.
    pub pod_id: Option<String>,
    pub status: ContainerStatus,
    /// Whether this is the container that the runtime keeps for a pod's own needs. Such
    /// a container is never mirrored.
    pub is_infra: bool,
}

/// The mathematical value of a [`ContainerSummary`].
pub ghost struct ContainerSummaryView {
    pub id: Seq<char>,
    pub name: Seq<char>,
    pub image_id: Option<Seq<char>>,
    pub pod_id: Option<Seq<char>>,
    pub status: ContainerStatus,
    pub is_infra: bool,
}

impl View for ContainerSummary {
    type V = ContainerSummaryView;

    open spec fn view(&self) -> ContainerSummaryView {
        ContainerSummaryView {
            id: self.id@,
            name: self.name@,
            image_id: text(self.image_id),
            pod_id: text(self.pod_id),
            status: self.status,
            is_infra: self.is_infra,
        }
    }
}

impl Summary for ContainerSummary {
    open spec fn key(v: ContainerSummaryView) -> Seq<char> {
        v.id
    }

    open spec fn listed(v: ContainerSummaryView) -> bool {
        !v.is_infra
    }

    fn id(&self) -> (id: &String) {
        &self.id
    }

    fn is_listed(&self) -> (listed: bool) {
        !self.is_infra
    }
}

/// A mirrored container: its snapshot, and the owners that the client has linked it to.
pub type Container = Entity<ContainerSummary, Owners>;

/// The mathematical value of a [`Container`].
pub type ContainerView = EntityView<ContainerSummaryView, OwnersView>;

/// The number of containers in the given state.
pub open spec fn containers_of_status(
    containers: Seq<ContainerView>,
    status: ContainerStatus,
) -> nat {
    count(containers, |container: ContainerView| container.summary.status == status)
}

/// What a container event asks for.
#[derive(Clone, Copy, Debug, PartialEq, Eq, Structural)]
pub enum ContainerAction {
    Remove,
    HealthStatus,
    Other,
}

/// The meaning of a container event's action.
pub open spec fn container_action(action: Seq<char>) -> ContainerAction {
    if action == "remove"@ {
        ContainerAction::Remove
    } else if action == "health_status"@ {
        ContainerAction::HealthStatus
    } else {
        ContainerAction::Other
    }
}

/// The meaning of a container event's action.
pub fn classify_container_action(action: &str) -> (meaning: ContainerAction)
    ensures
        meaning == container_action(action@),
{
    if str_eq(action, "remove") {
        ContainerAction::Remove
    } else if str_eq(action, "health_status") {
        ContainerAction::HealthStatus
    } else {
        ContainerAction::Other
    }
}

/// What [`ContainerList::handle_event`] does: how the list after the event and the reaction
/// relate to the list before it.
pub open spec fn container_reaction(
    before: ContainerList,
    event: Event,
    after: ContainerList,
    reaction: Reaction<ContainerSummary, Owners>,
) -> bool {
    &&& after.wf()
    &&& after.initialized() == before.initialized()
    &&& after.is_listing() == (before.is_listing() || container_action(event.action@)
        == ContainerAction::Other)
    &&& match container_action(event.action@) {
        ContainerAction::Remove => {
            &&& !ids::<ContainerSummary, Owners>(after@).contains(event.actor_id@)
            &&& reaction matches Reaction::Evicted(changes)
            &&& match find::<ContainerSummary, Owners>(before@, event.actor_id@) {
                Some(container) => {
                    let i = ids::<ContainerSummary, Owners>(before@).index_of(
                        event.actor_id@,
                    );
                    &&& after@ == before@.remove(i)
                    &&& views(changes@) == removal::<ContainerSummary, Owners>(
                        i,
                        container,
                    )
                },
                None => after@ == before@ && changes@.len() == 0,
            }
        },
        ContainerAction::HealthStatus => {
            &&& after@ == before@
            &&& if ids::<ContainerSummary, Owners>(before@).contains(event.actor_id@) {
                reaction matches Reaction::Inspect(id) && id@ == event.actor_id@
            } else {
                reaction is Nothing
            }
        },
        ContainerAction::Other => {
            &&& after@ == before@
            &&& reaction matches Reaction::Refresh(id)
            &&& text(id) == if ids::<ContainerSummary, Owners>(before@).contains(
                event.actor_id@,
            ) {
                Some(event.actor_id@)
            } else {
                None
            }
        },
    }
}

/// The mirror of the runtime's containers.
pub type ContainerList = Mirror<ContainerSummary, Owners>;

impl ContainerList {
    /// The container with the given ID.
    pub fn get_container(&self, id: &str) -> (found: Option<&Container>)
        requires
            self.wf(),
        ensures
            found is Some <==> ids::<ContainerSummary, Owners>(self@).contains(id@),
            found matches Some(container) ==> find::<ContainerSummary, Owners>(self@, id@)
                == Some(container@),
    {
        self.get(id)
    }

    /// The number of containers in the given state.
    pub fn num_containers_of_status(&self, status: ContainerStatus) -> (n: usize)
        requires
            self.wf(),
        ensures
            n == containers_of_status(self@, status),
    {
        let ghost wanted = |container: ContainerView| container.summary.status == status;
        let mut n: usize = 0;
        let mut i: usize = 0;
        proof {
            lemma_count_bounds(self@.take(0), wanted);
        }
        while i < self.len()
            invariant
                self.wf(),
                wanted == |container: ContainerView| container.summary.status == status,
                i <= self@.len(),
                n == count(self@.take(i as int), wanted),
                n <= i,
            decreases self@.len() - i,
        {
            proof {
                lemma_count_step(self@, wanted, i as int);
            }
            match self.get_index(i) {
                Some(container) => {
                    if container.summary.status == status {
                        n = n + 1;
                    }
                },
                None => {},
            }
            i = i + 1;
        }
        proof {
            assert(self@.take(i as int) =~= self@);
        }
        n
    }

    /// The number of containers that were created and never started.
    pub fn created(&self) -> (n: usize)
        requires
            self.wf(),
        ensures
            n == containers_of_status(self@, ContainerStatus::Created),
    {
        self.num_containers_of_status(ContainerStatus::Created)
    }

    /// The number of dead containers.
    pub fn dead(&self) -> (n: usize)
        requires
            self.wf(),
        ensures
            n == containers_of_status(self@, ContainerStatus::Dead),
    {
        self.num_containers_of_status(ContainerStatus::Dead)
    }

    /// The number of containers that have exited.
    pub fn exited(&self) -> (n: usize)
        requires
            self.wf(),
        ensures
            n == containers_of_status(self@, ContainerStatus::Exited),
    {
        self.num_containers_of_status(ContainerStatus::Exited)
    }

    /// The number of paused containers.
    pub fn paused(&self) -> (n: usize)
        requires
            self.wf(),
        ensures
            n == containers_of_status(self@, ContainerStatus::Paused),
    {
        self.num_containers_of_status(ContainerStatus::Paused)
    }

    /// The number of containers that are being removed.
    pub fn removing(&self) -> (n: usize)
        requires
            self.wf(),
        ensures
            n == containers_of_status(self@, ContainerStatus::Removing),
    {
        self.num_containers_of_status(ContainerStatus::Removing)
    }

    /// The number of running containers.
    pub fn running(&self) -> (n: usize)
        requires
            self.wf(),
        ensures
            n == containers_of_status(self@, ContainerStatus::Running),
    {
        self.num_containers_of_status(ContainerStatus::Running)
    }

    /// The number of stopped containers.
    pub fn stopped(&self) -> (n: usize)
        requires
            self.wf(),
        ensures
            n == containers_of_status(self@, ContainerStatus::Stopped),
    {
        self.num_containers_of_status(ContainerStatus::Stopped)
    }

    /// The number of containers that are being stopped.
    pub fn stopping(&self) -> (n: usize)
        requires
            self.wf(),
        ensures
            n == containers_of_status(self@, ContainerStatus::Stopping),
    {
        self.num_containers_of_status(ContainerStatus::Stopping)
    }

    /// Whether statistics that the runtime reports for the given ID are to be kept: only
    /// those of a container that the list holds and that is running.
    pub fn wants_stats(&self, id: &str) -> (wanted: bool)
        requires
            self.wf(),
        ensures
            wanted == match find::<ContainerSummary, Owners>(self@, id@) {
                Some(container) => container.summary.status == ContainerStatus::Running,
                None => false,
            },
    {
        match self.get(id) {
            Some(container) => container.summary.status == ContainerStatus::Running,
            None => false,
        }
    }

    /// Evicts the container with the given ID, if the list holds it: it is removed from
    /// the list, then deleted.
    pub fn remove_container(&mut self, id: &str) -> (changes: Vec<
        Change<ContainerSummary, Owners>,
    >)
        requires
            old(self).wf(),
        ensures
            final(self).wf(),
            final(self).is_listing() == old(self).is_listing(),
            final(self).initialized() == old(self).initialized(),
            !ids::<ContainerSummary, Owners>(final(self)@).contains(id@),
            ids::<ContainerSummary, Owners>(old(self)@).contains(id@) ==> {
                let i = ids::<ContainerSummary, Owners>(old(self)@).index_of(id@);
                &&& final(self)@ == old(self)@.remove(i)
                &&& views(changes@) == removal::<ContainerSummary, Owners>(i, old(self)@[i])
            },
            !ids::<ContainerSummary, Owners>(old(self)@).contains(id@) ==> {
                &&& final(self)@ == old(self)@
                &&& changes@.len() == 0
            },
    {
        self.remove(id)
    }

    /// Starts a refresh: the list is marked as listing, and its owner is to list the
    /// runtime's containers, stopped ones included. Tells whether the mark is new.
    pub fn refresh(&mut self) -> (changed: bool)
        ensures
            final(self)@ == old(self)@,
            final(self).wf() == old(self).wf(),
            final(self).is_listing(),
            final(self).initialized() == old(self).initialized(),
            changed == !old(self).is_listing(),
    {
        self.set_listing(true)
    }

    /// Ends a refresh with what the listing request came back with: `Some` listing, or
    /// `None` where the request failed. `id` is the one ID that the request asked for,
    /// `None` where it asked for all containers.
    ///
    /// Only a listing of all containers evicts. Infra containers are not taken in, but
    /// a container whose ID the listing mentions, as infra or not, is not evicted.
    pub fn finish_refresh(
        &mut self,
        id: Option<&str>,
        result: Option<Vec<ContainerSummary>>,
    ) -> (done: Refreshed<ContainerSummary, Owners>)
        requires
            old(self).wf(),
        ensures
            final(self).wf(),
            !final(self).is_listing(),
            final(self).initialized(),
            done.listing_changed == old(self).is_listing(),
            done.initialized_changed == !old(self).initialized(),
            done.failed == (result is None),
            result matches Some(response) ==> {
                &&& final(self)@ == refreshed::<ContainerSummary, Owners>(
                    old(self)@,
                    id is None,
                    views(response@),
                )
                &&& views(done.changes@) == refresh_changes::<ContainerSummary, Owners>(
                    old(self)@,
                    id is None,
                    views(response@),
                )
            },
            result is None ==> final(self)@ == old(self)@ && done.changes@.len() == 0,
    {
        self.apply_refresh(id.is_none(), result)
    }

    /// Takes in an event about a container.
    ///
    /// `remove` evicts the container. `health_status` asks for the container to be
    /// inspected again, if the list holds it. Any other action starts a refresh: of the
    /// one container if the list holds it, else of all, since the container may be new.
    pub fn handle_event(&mut self, event: &Event) -> (reaction: Reaction<
        ContainerSummary,
        Owners,
    >)
        requires
            old(self).wf(),
        ensures
            container_reaction(*old(self), *event, *final(self), reaction),
    {
        match classify_container_action(event.action.as_str()) {
            ContainerAction::Remove => Reaction::Evicted(
                self.remove_container(event.actor_id.as_str()),
            ),
            ContainerAction::HealthStatus => {
                if self.position(event.actor_id.as_str()).is_some() {
                    Reaction::Inspect(event.actor_id.clone())
                } else {
                    Reaction::Nothing
                }
            },
            ContainerAction::Other => {
                let known = self.position(event.actor_id.as_str()).is_some();
                self.refresh();
                if known {
                    Reaction::Refresh(Some(event.actor_id.clone()))
                } else {
                    Reaction::Refresh(None)
                }
            },
        }
    }
}

} // verus!
