use pods_model::container::{
    classify_container_action, ContainerAction, ContainerList, ContainerStatus, ContainerSummary,
};
use pods_model::event::Event;
use pods_model::mirror::{Change, Reaction};
use pods_model::pod::{classify_pod_action, PodAction, PodList, PodStatus, PodSummary};

fn container(id: &str, status: ContainerStatus, infra: bool) -> ContainerSummary {
    ContainerSummary {
        id: id.to_string(),
        name: format!("name-{id}"),
        image_id: Some("img".to_string()),
        pod_id: None,
        status,
        is_infra: infra,
    }
}

fn pod(id: &str, status: PodStatus) -> PodSummary {
    PodSummary { id: id.to_string(), name: format!("pod-{id}"), status }
}

fn event(typ: &str, action: &str, id: &str) -> Event {
    Event {
        typ: typ.to_string(),
        action: action.to_string(),
        actor_id: id.to_string(),
        attributes: vec![],
    }
}

fn ids(list: &ContainerList) -> Vec<String> {
    (0..list.len()).map(|i| list.get_index(i).unwrap().summary.id.clone()).collect()
}

#[test]
fn infra_containers_are_never_mirrored() {
    let mut list = ContainerList::new();
    let done = list.finish_refresh(
        None,
        Some(vec![
            container("a", ContainerStatus::Running, false),
            container("infra", ContainerStatus::Running, true),
            container("b", ContainerStatus::Exited, false),
        ]),
    );
    assert_eq!(ids(&list), vec!["a", "b"]);
    assert_eq!(done.changes.len(), 2);
    assert!(list.get_container("infra").is_none());
}

#[test]
fn an_id_listed_as_infra_is_not_evicted_and_not_updated() {
    let mut list = ContainerList::new();
    list.finish_refresh(
        None,
        Some(vec![
            container("a", ContainerStatus::Running, false),
            container("b", ContainerStatus::Running, false),
        ]),
    );
    let done = list.finish_refresh(None, Some(vec![container("a", ContainerStatus::Dead, true)]));
    assert_eq!(ids(&list), vec!["a"]);
    assert_eq!(list.get_container("a").unwrap().summary.status, ContainerStatus::Running);
    assert_eq!(done.changes.len(), 2);
    assert!(matches!(&done.changes[0], Change::Removed { position: 1, id } if id == "b"));
    assert!(matches!(&done.changes[1], Change::Deleted { entity } if entity.summary.id == "b"));
}

#[test]
fn a_listing_of_one_id_evicts_nothing() {
    let mut list = ContainerList::new();
    list.finish_refresh(
        None,
        Some(vec![
            container("a", ContainerStatus::Running, false),
            container("b", ContainerStatus::Running, false),
        ]),
    );
    let done =
        list.finish_refresh(Some("b"), Some(vec![container("b", ContainerStatus::Paused, false)]));
    assert_eq!(ids(&list), vec!["a", "b"]);
    assert_eq!(list.get_container("b").unwrap().summary.status, ContainerStatus::Paused);
    assert_eq!(done.changes.len(), 1);
    assert!(matches!(&done.changes[0], Change::Updated { position: 1, id } if id == "b"));

    let done = list.finish_refresh(Some("zz"), Some(vec![]));
    assert_eq!(ids(&list), vec!["a", "b"]);
    assert!(done.changes.is_empty());
}

#[test]
fn containers_are_counted_by_status() {
    let mut list = ContainerList::new();
    list.finish_refresh(
        None,
        Some(vec![
            container("a", ContainerStatus::Running, false),
            container("b", ContainerStatus::Exited, false),
            container("c", ContainerStatus::Running, false),
            container("d", ContainerStatus::Created, false),
            container("e", ContainerStatus::Dead, false),
            container("f", ContainerStatus::Paused, false),
            container("g", ContainerStatus::Removing, false),
            container("h", ContainerStatus::Stopped, false),
            container("i", ContainerStatus::Stopping, false),
            container("j", ContainerStatus::Stopping, false),
            container("k", ContainerStatus::Unknown, false),
        ]),
    );
    assert_eq!(list.running(), 2);
    assert_eq!(list.exited(), 1);
    assert_eq!(list.created(), 1);
    assert_eq!(list.dead(), 1);
    assert_eq!(list.paused(), 1);
    assert_eq!(list.removing(), 1);
    assert_eq!(list.stopped(), 1);
    assert_eq!(list.stopping(), 2);
    assert_eq!(list.num_containers_of_status(ContainerStatus::Unknown), 1);
    assert_eq!(list.num_containers_of_status(ContainerStatus::Restarting), 0);
    assert_eq!(ContainerList::new().running(), 0);
}

#[test]
fn statistics_are_wanted_for_running_containers_only() {
    let mut list = ContainerList::new();
    list.finish_refresh(
        None,
        Some(vec![
            container("a", ContainerStatus::Running, false),
            container("b", ContainerStatus::Exited, false),
        ]),
    );
    assert!(list.wants_stats("a"));
    assert!(!list.wants_stats("b"));
    assert!(!list.wants_stats("c"));
}

#[test]
fn container_remove_event_evicts() {
    let mut list = ContainerList::new();
    list.finish_refresh(
        None,
        Some(vec![
            container("a", ContainerStatus::Running, false),
            container("b", ContainerStatus::Running, false),
        ]),
    );
    match list.handle_event(&event("container", "remove", "a")) {
        Reaction::Evicted(changes) => {
            assert_eq!(changes.len(), 2);
            assert!(matches!(&changes[0], Change::Removed { position: 0, id } if id == "a"));
            assert!(matches!(&changes[1], Change::Deleted { entity } if entity.summary.id == "a"));
        }
        _ => panic!("the container was not evicted"),
    }
    assert!(list.get_container("a").is_none());
    assert_eq!(ids(&list), vec!["b"]);
    assert!(!list.listing());
}

#[test]
fn health_status_asks_for_an_inspection_of_a_known_container() {
    let mut list = ContainerList::new();
    list.finish_refresh(None, Some(vec![container("a", ContainerStatus::Running, false)]));
    assert!(matches!(
        list.handle_event(&event("container", "health_status", "a")),
        Reaction::Inspect(id) if id == "a"
    ));
    assert!(matches!(
        list.handle_event(&event("container", "health_status", "b")),
        Reaction::Nothing
    ));
    assert!(!list.listing());
}

#[test]
fn other_container_events_refresh_the_one_or_all() {
    let mut list = ContainerList::new();
    list.finish_refresh(None, Some(vec![container("a", ContainerStatus::Running, false)]));
    assert!(matches!(
        list.handle_event(&event("container", "start", "a")),
        Reaction::Refresh(Some(id)) if id == "a"
    ));
    assert!(list.listing());
    list.finish_refresh(Some("a"), None);
    assert!(!list.listing());
    assert!(matches!(
        list.handle_event(&event("container", "create", "new")),
        Reaction::Refresh(None)
    ));
    assert!(list.listing());
    assert_eq!(ids(&list), vec!["a"]);
}

#[test]
fn container_and_pod_actions_are_classified() {
    assert_eq!(classify_container_action("remove"), ContainerAction::Remove);
    assert_eq!(classify_container_action("health_status"), ContainerAction::HealthStatus);
    assert_eq!(classify_container_action("start"), ContainerAction::Other);
    assert_eq!(classify_container_action(""), ContainerAction::Other);
    assert_eq!(classify_pod_action("remove"), PodAction::Remove);
    assert_eq!(classify_pod_action("removed"), PodAction::Other);
}

#[test]
fn pods_refresh_and_count() {
    let mut list = PodList::new();
    list.refresh();
    let done = list.finish_refresh(
        None,
        Some(vec![
            pod("p", PodStatus::Running),
            pod("q", PodStatus::Exited),
            pod("r", PodStatus::Running),
        ]),
    );
    assert_eq!(done.changes.len(), 3);
    assert_eq!(list.len(), 3);
    assert_eq!(list.running(), 2);
    let done = list.finish_refresh(None, Some(vec![pod("q", PodStatus::Running)]));
    assert_eq!(list.len(), 1);
    assert_eq!(list.running(), 1);
    assert_eq!(done.changes.len(), 5);
    assert_eq!(list.get_pod("q").unwrap().summary.status, PodStatus::Running);
    assert!(list.get_pod("p").is_none());
}

#[test]
fn pod_events() {
    let mut list = PodList::new();
    list.finish_refresh(None, Some(vec![pod("p", PodStatus::Running), pod("q", PodStatus::Dead)]));
    assert!(matches!(
        list.handle_event(&event("pod", "start", "q")),
        Reaction::Refresh(Some(id)) if id == "q"
    ));
    assert!(list.listing());
    list.finish_refresh(Some("q"), Some(vec![pod("q", PodStatus::Running)]));
    assert_eq!(list.len(), 2);
    assert_eq!(list.running(), 2);
    assert!(matches!(list.handle_event(&event("pod", "create", "zz")), Reaction::Refresh(None)));
    match list.handle_event(&event("pod", "remove", "p")) {
        Reaction::Evicted(changes) => {
            assert_eq!(changes.len(), 2);
            assert!(matches!(&changes[0], Change::Removed { position: 0, id } if id == "p"));
        }
        _ => panic!("the pod was not evicted"),
    }
    assert!(list.get_pod("p").is_none());
    assert_eq!(list.len(), 1);
}
