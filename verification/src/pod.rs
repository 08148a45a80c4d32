//! The mirror of the runtime's pods.

use crate::counting::{count, lemma_count_bounds, lemma_count_step};
use crate::entity::{views, Entity, EntityView, Summary};
use crate::event::Event;
use crate::links::{Members, MembersView};
use crate::mirror::{
    find, ids, refresh_changes, refreshed, removal, Change, Mirror, Reaction, Refreshed,
};
use crate::text::{str_eq, text};
use vstd::prelude::*;

verus! {

/// The state of a pod, as the runtime names it.
#[derive(Clone, Copy, Debug, PartialEq, Eq, Structural)]
pub enum PodStatus {
    Created,
    Dead,
    Degraded,
    Error,
    Exited,
    Paused,
    Restarting,
    Running,
    Stopped,
    Unknown,
}

/// What a listing reports of one pod.
pub struct PodSummary {
    pub id: String,
    pub name: String,
    pub status: PodStatus,
}

/// The mathematical value of a [`PodSummary`].
pub ghost struct PodSummaryView {
    pub id: Seq<char>,
    pub name: Seq<char>,
    pub status: PodStatus,
}

impl View for PodSummary {
    type V = PodSummaryView;

    open spec fn view(&self) -> PodSummaryView {
        PodSummaryView { id: self.id@, name: self.name@, status: self.status }
    }
}

impl Summary for PodSummary {
    open spec fn key(v: PodSummaryView) -> Seq<char> {
        v.id
    }

    open spec fn listed(v: PodSummaryView) -> bool {
        true
    }

    fn id(&self) -> (id: &String) {
        &self.id
    }

    fn is_listed(&self) -> (listed: bool) {
        true
    }
}

/// A mirrored pod: its snapshot, and the containers that the client has linked to it.
pub type Pod = Entity<PodSummary, Members>;

/// The mathematical value of a [`Pod`].
pub type PodView = EntityView<PodSummaryView, MembersView>;

/// The number of running pods.
pub open spec fn running_pods(pods: Seq<PodView>) -> nat {
    count(pods, |pod: PodView| pod.summary.status == PodStatus::Running)
}

/// What a pod event asks for.
#[derive(Clone, Copy, Debug, PartialEq, Eq, Structural)]
pub enum PodAction {
    Remove,
    Other,
}

/// The meaning of a pod event's action.
pub open spec fn pod_action(action: Seq<char>) -> PodAction {
    if action == "remove"@ {
        PodAction::Remove
    } else {
        PodAction::Other
    }
}

/// The meaning of a pod event's action.
pub fn classify_pod_action(action: &str) -> (meaning: PodAction)
    ensures
        meaning == pod_action(action@),
{
    if str_eq(action, "remove") {
        PodAction::Remove
    } else {
        PodAction::Other
    }
}

/// What [`PodList::handle_event`] does: how the list after the event and the reaction
/// relate to the list before it.
pub open spec fn pod_reaction(
    before: PodList,
    event: Event,
    after: PodList,
    reaction: Reaction<PodSummary, Members>,
) -> bool {
    &&& after.wf()
    &&& after.initialized() == before.initialized()
    &&& after.is_listing() == (before.is_listing() || pod_action(event.action@)
        == PodAction::Other)
    &&& match pod_action(event.action@) {
        PodAction::Remove => {
            &&& !ids::<PodSummary, Members>(after@).contains(event.actor_id@)
            &&& reaction matches Reaction::Evicted(changes)
            &&& match find::<PodSummary, Members>(before@, event.actor_id@) {
                Some(pod) => {
                    let i = ids::<PodSummary, Members>(before@).index_of(
                        event.actor_id@,
                    );
                    &&& after@ == before@.remove(i)
                    &&& views(changes@) == removal::<PodSummary, Members>(i, pod)
                },
                None => after@ == before@ && changes@.len() == 0,
            }
        },
        PodAction::Other => {
            &&& after@ == before@
            &&& reaction matches Reaction::Refresh(id)
            &&& text(id) == if ids::<PodSummary, Members>(before@).contains(
                event.actor_id@,
            ) {
                Some(event.actor_id@)
            } else {
                None
            }
        },
    }
}

/// The mirror of the runtime's pods.
pub type PodList = Mirror<PodSummary, Members>;

impl PodList {
    /// The pod with the given ID.
    pub fn get_pod(&self, id: &str) -> (found: Option<&Pod>)
        requires
            self.wf(),
        ensures
            found is Some <==> ids::<PodSummary, Members>(self@).contains(id@),
            found matches Some(pod) ==> find::<PodSummary, Members>(self@, id@) == Some(pod@),
    {
        self.get(id)
    }

    /// The number of running pods.
    pub fn running(&self) -> (n: usize)
        requires
            self.wf(),
        ensures
            n == running_pods(self@),
    {
        let ghost wanted = |pod: PodView| pod.summary.status == PodStatus::Running;
        let mut n: usize = 0;
        let mut i: usize = 0;
        proof {
            lemma_count_bounds(self@.take(0), wanted);
        }
        while i < self.len()
            invariant
                self.wf(),
                wanted == |pod: PodView| pod.summary.status == PodStatus::Running,
                i <= self@.len(),
                n == count(self@.take(i as int), wanted),
                n <= i,
            decreases self@.len() - i,
        {
            proof {
                lemma_count_step(self@, wanted, i as int);
            }
            match self.get_index(i) {
                Some(pod) => {
                    if pod.summary.status == PodStatus::Running {
                        n = n + 1;
                    }
                },
                None => {},
            }
            i = i + 1;
        }
        proof {
            assert(self@.take(i as int) =~= self@);
        }
        n
    }

    /// Evicts the pod with the given ID, if the list holds it: it is removed from the
    /// list, then deleted.
    pub fn remove_pod(&mut self, id: &str) -> (changes: Vec<Change<PodSummary, Members>>)
        requires
            old(self).wf(),
        ensures
            final(self).wf(),
            final(self).is_listing() == old(self).is_listing(),
            final(self).initialized() == old(self).initialized(),
            !ids::<PodSummary, Members>(final(self)@).contains(id@),
            ids::<PodSummary, Members>(old(self)@).contains(id@) ==> {
                let i = ids::<PodSummary, Members>(old(self)@).index_of(id@);
                &&& final(self)@ == old(self)@.remove(i)
                &&& views(changes@) == removal::<PodSummary, Members>(i, old(self)@[i])
            },
            !ids::<PodSummary, Members>(old(self)@).contains(id@) ==> {
                &&& final(self)@ == old(self)@
                &&& changes@.len() == 0
            },
    {
        self.remove(id)
    }

    /// Starts a refresh: the list is marked as listing, and its owner is to list the
    /// runtime's pods. Tells whether the mark is new.
    pub fn refresh(&mut self) -> (changed: bool)
        ensures
            final(self)@ == old(self)@,
            final(self).wf() == old(self).wf(),
            final(self).is_listing(),
            final(self).initialized() == old(self).initialized(),
            changed == !old(self).is_listing(),
    {
        self.set_listing(true)
    }

    /// Ends a refresh with what the listing request came back with: `Some` listing, or
    /// `None` where the request failed. `id` is the one ID that the request asked for,
    /// `None` where it asked for all pods. Only a listing of all pods evicts.
    pub fn finish_refresh(&mut self, id: Option<&str>, result: Option<Vec<PodSummary>>) -> (done:
        Refreshed<PodSummary, Members>)
        requires
            old(self).wf(),
        ensures
            final(self).wf(),
            !final(self).is_listing(),
            final(self).initialized(),
            done.listing_changed == old(self).is_listing(),
            done.initialized_changed == !old(self).initialized(),
            done.failed == (result is None),
            result matches Some(response) ==> {
                &&& final(self)@ == refreshed::<PodSummary, Members>(
                    old(self)@,
                    id is None,
                    views(response@),
                )
                &&& views(done.changes@) == refresh_changes::<PodSummary, Members>(
                    old(self)@,
                    id is None,
                    views(response@),
                )
            },
            result is None ==> final(self)@ == old(self)@ && done.changes@.len() == 0,
    {
        self.apply_refresh(id.is_none(), result)
    }

    /// Takes in an event about a pod.
    ///
    /// `remove` evicts the pod. Any other action starts a refresh: of the one pod if the
    /// list holds it, else of all, since the pod may be new.
    pub fn handle_event(&mut self, event: &Event) -> (reaction: Reaction<PodSummary, Members>)
        requires
            old(self).wf(),
        ensures
            pod_reaction(*old(self), *event, *final(self), reaction),
    {
        match classify_pod_action(event.action.as_str()) {
            PodAction::Remove => Reaction::Evicted(self.remove_pod(event.actor_id.as_str())),
            PodAction::Other => {
                let known = self.position(event.actor_id.as_str()).is_some();
                self.refresh();
                if known {
                    Reaction::Refresh(Some(event.actor_id.clone()))
                } else {
                    Reaction::Refresh(None)
                }
            },
        }
    }
}

} // verus!
