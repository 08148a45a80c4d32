use pods_model::client::{
    classify_event_type, Client, ClientError, Command, Domain, Handled, SYNC_INTERVAL,
};
use pods_model::connection::Connection;
use pods_model::container::{ContainerStatus, ContainerSummary};
use pods_model::event::Event;
use pods_model::image::ImageSummary;
use pods_model::mirror::{Change, Reaction};
use pods_model::pod::{PodStatus, PodSummary};

fn client() -> Client {
    let connection = Connection::new(
        "u-1".to_string(),
        "local".to_string(),
        "unix:///run/podman.sock".to_string(),
        None,
    );
    match Client::try_from(&connection) {
        Ok(client) => client,
        Err(e) => panic!("no handle for a socket address: {e}"),
    }
}

fn image(id: &str) -> ImageSummary {
    ImageSummary { id: id.to_string(), repo_tags: vec![], size: 1, containers: 0 }
}

fn container(id: &str, image: Option<&str>, pod: Option<&str>) -> ContainerSummary {
    ContainerSummary {
        id: id.to_string(),
        name: id.to_string(),
        image_id: image.map(|s| s.to_string()),
        pod_id: pod.map(|s| s.to_string()),
        status: ContainerStatus::Running,
        is_infra: false,
    }
}

fn pod(id: &str) -> PodSummary {
    PodSummary { id: id.to_string(), name: id.to_string(), status: PodStatus::Running }
}

fn event(typ: &str, action: &str, id: &str) -> Event {
    Event {
        typ: typ.to_string(),
        action: action.to_string(),
        actor_id: id.to_string(),
        attributes: vec![],
    }
}

fn members_of_image(client: &Client, id: &str) -> Vec<String> {
    client.image_list().get_image(id).unwrap().local.containers().clone()
}

fn members_of_pod(client: &Client, id: &str) -> Vec<String> {
    client.pod_list().get_pod(id).unwrap().local.containers().clone()
}

fn image_of(client: &Client, id: &str) -> Option<String> {
    client.container_list().get_container(id).unwrap().local.image().clone()
}

fn pod_of(client: &Client, id: &str) -> Option<String> {
    client.container_list().get_container(id).unwrap().local.pod().clone()
}

#[test]
fn new_client_is_empty_and_idle() {
    let c = client();
    assert_eq!(c.connection().name(), "local");
    assert_eq!(c.image_list().len(), 0);
    assert_eq!(c.container_list().len(), 0);
    assert_eq!(c.pod_list().len(), 0);
    assert!(!c.listening());
    assert!(!c.image_list().listing());
    assert!(!c.image_list().is_initialized());
}

#[test]
fn a_client_needs_an_address_that_a_handle_can_be_made_for() {
    for url in ["unix:///run/podman.sock", "tcp://127.0.0.1:8080", "http://localhost:8080"] {
        let c = Connection::new("u".to_string(), "n".to_string(), url.to_string(), None);
        match Client::try_from(&c) {
            Ok(client) => {
                assert_eq!(client.connection().url(), url);
                assert_eq!(client.connection().uuid(), "u");
                assert_eq!(client.image_list().len(), 0);
            }
            Err(e) => panic!("{url} was refused: {e}"),
        }
    }
    for url in ["ftp://example.org", "", "podman.sock", "tcp"] {
        let c = Connection::new("u".to_string(), "n".to_string(), url.to_string(), None);
        assert!(Client::try_from(&c).is_err(), "{}", url);
    }
}

#[test]
fn the_address_alone_decides_whether_there_is_a_client() {
    for url in ["unix:///run/podman.sock", "tcp://127.0.0.1:8080", "ftp://example.org", "tcp", ""] {
        let first = Connection::new("a".to_string(), "one".to_string(), url.to_string(), None);
        let second = Connection::new(
            "b".to_string(),
            "two".to_string(),
            url.to_string(),
            Some("red".to_string()),
        );
        assert_eq!(
            Client::try_from(&first).is_ok(),
            Client::try_from(&second).is_ok(),
            "{}",
            url
        );
        assert_eq!(Client::try_from(&first).is_ok(), Client::try_from(&first).is_ok());
    }
}

#[test]
fn a_client_is_made_around_the_handle_it_is_given() {
    let c = Connection::new("u".to_string(), "n".to_string(), "anything".to_string(), None);
    let handle = podman_api::Podman::unix("/run/podman.sock");
    assert!(Client::from_gateway(c.duplicate(), Ok(handle)).is_ok());
    let refused = Client::from_gateway(c, Err(podman_api::Error::MissingAuthority));
    assert!(matches!(refused, Err(podman_api::Error::MissingAuthority)));
}

#[test]
fn a_service_that_answers_starts_everything() {
    let mut c = client();
    let commands = c.check_service(true);
    assert_eq!(commands.len(), 6);
    assert!(matches!(
        &commands[0],
        Command::List { domain: Domain::Images, id: None, quiet: false }
    ));
    assert!(matches!(
        &commands[1],
        Command::List { domain: Domain::Containers, id: None, quiet: false }
    ));
    assert!(matches!(&commands[2], Command::List { domain: Domain::Pods, id: None, quiet: false }));
    assert!(matches!(&commands[3], Command::Ready));
    assert!(matches!(&commands[4], Command::Listen));
    assert!(matches!(&commands[5], Command::StartSync { seconds: 5 }));
    assert_eq!(SYNC_INTERVAL, 5);
    assert!(c.listening());
    assert!(c.image_list().listing());
    assert!(c.container_list().listing());
    assert!(c.pod_list().listing());
}

#[test]
fn a_service_that_does_not_answer_starts_nothing() {
    let mut c = client();
    assert!(c.check_service(false).is_empty());
    assert!(!c.listening());
    assert!(!c.image_list().listing());
    assert!(!c.container_list().listing());
    assert!(!c.pod_list().listing());
}

#[test]
fn the_timer_asks_for_three_quiet_listings() {
    let mut c = client();
    let commands = c.sync();
    assert_eq!(commands.len(), 3);
    assert!(matches!(
        &commands[0],
        Command::List { domain: Domain::Images, id: None, quiet: true }
    ));
    assert!(matches!(
        &commands[1],
        Command::List { domain: Domain::Containers, id: None, quiet: true }
    ));
    assert!(matches!(&commands[2], Command::List { domain: Domain::Pods, id: None, quiet: true }));
    assert!(c.image_list().listing() && c.container_list().listing() && c.pod_list().listing());
    assert!(!c.listening());
}

#[test]
fn failed_listings_are_told_unless_quiet() {
    let mut c = client();
    assert_eq!(c.images_listed(false, None).error, Some(ClientError::Images));
    assert_eq!(c.images_listed(true, None).error, None);
    assert_eq!(c.containers_listed(None, false, None).error, Some(ClientError::Containers));
    assert_eq!(c.containers_listed(None, true, None).error, None);
    assert_eq!(c.pods_listed(None, false, None).error, Some(ClientError::Pods));
    assert_eq!(c.pods_listed(None, true, None).error, None);
    assert_eq!(c.images_listed(false, Some(vec![])).error, None);
    assert!(c.image_list().is_initialized());
    assert!(c.container_list().is_initialized());
    assert!(c.pod_list().is_initialized());
}

#[test]
fn a_container_that_arrives_before_its_image_is_linked_when_the_image_arrives() {
    let mut c = client();
    c.containers_listed(
        None,
        false,
        Some(vec![container("c1", Some("i1"), None), container("c2", Some("i2"), None)]),
    );
    assert_eq!(image_of(&c, "c1"), None);
    let report = c.images_listed(false, Some(vec![image("i1"), image("i3")]));
    assert_eq!(report.refreshed.changes.len(), 2);
    assert_eq!(image_of(&c, "c1"), Some("i1".to_string()));
    assert_eq!(image_of(&c, "c2"), None);
    assert_eq!(members_of_image(&c, "i1"), vec!["c1"]);
    assert!(members_of_image(&c, "i3").is_empty());
}

#[test]
fn a_container_that_arrives_after_its_image_and_pod_is_linked_at_once() {
    let mut c = client();
    c.images_listed(false, Some(vec![image("i1")]));
    c.pods_listed(None, false, Some(vec![pod("p1")]));
    c.containers_listed(
        None,
        false,
        Some(vec![
            container("c1", Some("i1"), Some("p1")),
            container("c2", Some("i1"), None),
            container("c3", Some("gone"), Some("nowhere")),
            container("c4", None, None),
        ]),
    );
    assert_eq!(image_of(&c, "c1"), Some("i1".to_string()));
    assert_eq!(pod_of(&c, "c1"), Some("p1".to_string()));
    assert_eq!(image_of(&c, "c2"), Some("i1".to_string()));
    assert_eq!(pod_of(&c, "c2"), None);
    assert_eq!(image_of(&c, "c3"), None);
    assert_eq!(pod_of(&c, "c3"), None);
    assert_eq!(image_of(&c, "c4"), None);
    assert_eq!(members_of_image(&c, "i1"), vec!["c1", "c2"]);
    assert_eq!(members_of_pod(&c, "p1"), vec!["c1"]);
    let image = c.image_list().get_image("i1").unwrap();
    assert!(image.local.has_container("c2"));
    assert!(!image.local.has_container("c3"));
    assert_eq!(c.image_of("c1").unwrap().summary.id, "i1");
    assert_eq!(c.pod_of("c1").unwrap().summary.id, "p1");
    assert!(c.pod_of("c2").is_none());
    assert!(c.image_of("c3").is_none());
    assert!(c.image_of("c4").is_none());
    assert!(c.image_of("nobody").is_none());
}

#[test]
fn a_link_to_an_image_that_left_does_not_resolve() {
    let mut c = client();
    c.images_listed(false, Some(vec![image("i1")]));
    c.containers_listed(None, false, Some(vec![container("c1", Some("i1"), None)]));
    assert_eq!(c.image_of("c1").unwrap().summary.id, "i1");
    c.images_listed(false, Some(vec![]));
    assert!(c.image_of("c1").is_none());
    assert_eq!(image_of(&c, "c1"), Some("i1".to_string()));
}

#[test]
fn an_update_keeps_what_the_client_has_linked() {
    let mut c = client();
    c.images_listed(false, Some(vec![image("i1")]));
    c.containers_listed(None, false, Some(vec![container("c1", Some("i1"), None)]));
    let mut newer = image("i1");
    newer.size = 77;
    newer.repo_tags = vec!["t".to_string()];
    let report = c.images_listed(false, Some(vec![newer]));
    assert_eq!(report.refreshed.changes.len(), 1);
    let image = c.image_list().get_image("i1").unwrap();
    assert_eq!(image.summary.size, 77);
    assert_eq!(image.local.containers(), &vec!["c1".to_string()]);
    let report =
        c.containers_listed(Some("c1"), false, Some(vec![container("c1", Some("i1"), None)]));
    assert_eq!(report.refreshed.changes.len(), 1);
    assert_eq!(c.image_of("c1").unwrap().summary.id, "i1");
}

#[test]
fn a_pod_that_arrives_late_takes_in_its_containers() {
    let mut c = client();
    c.containers_listed(
        None,
        false,
        Some(vec![
            container("c1", None, Some("p1")),
            container("c2", None, Some("p2")),
            container("c3", None, Some("p1")),
        ]),
    );
    c.pods_listed(None, false, Some(vec![pod("p1")]));
    assert_eq!(members_of_pod(&c, "p1"), vec!["c1", "c3"]);
    assert_eq!(pod_of(&c, "c1"), Some("p1".to_string()));
    assert_eq!(pod_of(&c, "c2"), None);
    assert_eq!(pod_of(&c, "c3"), Some("p1".to_string()));
    c.pods_listed(Some("p2"), false, Some(vec![pod("p2")]));
    assert_eq!(members_of_pod(&c, "p2"), vec!["c2"]);
    assert_eq!(members_of_pod(&c, "p1"), vec!["c1", "c3"]);
}

#[test]
fn linking_twice_changes_nothing() {
    let mut c = client();
    c.images_listed(false, Some(vec![image("i1")]));
    c.containers_listed(None, false, Some(vec![container("c1", Some("i1"), None)]));
    c.image_added("i1");
    c.container_added("c1");
    c.image_added("unknown");
    c.container_added("unknown");
    c.pod_added("unknown");
    assert_eq!(members_of_image(&c, "i1"), vec!["c1"]);
    assert_eq!(image_of(&c, "c1"), Some("i1".to_string()));
}

#[test]
fn a_container_that_leaves_is_given_up_by_its_image_and_pod() {
    let mut c = client();
    c.images_listed(false, Some(vec![image("i1")]));
    c.pods_listed(None, false, Some(vec![pod("p1")]));
    c.containers_listed(
        None,
        false,
        Some(vec![
            container("c1", Some("i1"), Some("p1")),
            container("c2", Some("i1"), Some("p1")),
        ]),
    );
    let report =
        c.containers_listed(None, false, Some(vec![container("c2", Some("i1"), Some("p1"))]));
    assert_eq!(report.refreshed.changes.len(), 3);
    assert_eq!(members_of_image(&c, "i1"), vec!["c2"]);
    assert_eq!(members_of_pod(&c, "p1"), vec!["c2"]);

    c.check_service(true);
    match c.handle_stream_item::<String>(Ok(event("container", "remove", "c2"))) {
        Handled::Containers(Reaction::Evicted(changes)) => {
            assert_eq!(changes.len(), 2);
            assert!(matches!(&changes[0], Change::Removed { position: 0, id } if id == "c2"));
            assert!(matches!(&changes[1], Change::Deleted { entity } if entity.summary.id == "c2"));
        }
        _ => panic!("the container was not evicted"),
    }
    assert!(members_of_image(&c, "i1").is_empty());
    assert!(members_of_pod(&c, "p1").is_empty());
    assert_eq!(c.container_list().len(), 0);
}

#[test]
fn an_image_that_left_and_came_back_takes_its_containers_in_again() {
    let mut c = client();
    c.images_listed(false, Some(vec![image("i1")]));
    c.containers_listed(None, false, Some(vec![container("c1", Some("i1"), None)]));
    c.images_listed(false, Some(vec![]));
    assert!(c.image_list().get_image("i1").is_none());
    c.images_listed(false, Some(vec![image("i1")]));
    assert_eq!(members_of_image(&c, "i1"), vec!["c1"]);
    assert_eq!(image_of(&c, "c1"), Some("i1".to_string()));
}

#[test]
fn events_go_to_the_mirror_that_their_type_names() {
    let mut c = client();
    c.check_service(true);
    c.images_listed(false, Some(vec![image("i1")]));
    c.containers_listed(None, false, Some(vec![container("c1", Some("i1"), None)]));
    c.pods_listed(None, false, Some(vec![pod("p1")]));

    assert!(matches!(
        c.handle_stream_item::<String>(Ok(event("image", "pull", "i9"))),
        Handled::Images(Reaction::Refresh(None))
    ));
    assert!(c.image_list().listing());
    assert!(!c.container_list().listing());
    assert!(matches!(
        c.handle_stream_item::<String>(Ok(event("container", "start", "c1"))),
        Handled::Containers(Reaction::Refresh(Some(id))) if id == "c1"
    ));
    assert!(c.container_list().listing());
    assert!(matches!(
        c.handle_stream_item::<String>(Ok(event("container", "health_status", "c1"))),
        Handled::Containers(Reaction::Inspect(id)) if id == "c1"
    ));
    assert!(matches!(
        c.handle_stream_item::<String>(Ok(event("pod", "stop", "p1"))),
        Handled::Pods(Reaction::Refresh(Some(id))) if id == "p1"
    ));
    assert!(c.pod_list().listing());
    assert!(matches!(
        c.handle_stream_item::<String>(Ok(event("volume", "create", "v1"))),
        Handled::Unhandled
    ));
    assert!(matches!(
        c.handle_stream_item::<String>(Ok(event("image", "remove", "i1"))),
        Handled::Images(Reaction::Evicted(changes)) if changes.len() == 2
    ));
    assert_eq!(c.image_list().len(), 0);
    assert!(c.listening());
}

#[test]
fn the_first_failure_of_the_stream_ends_the_listening() {
    let mut c = client();
    assert!(matches!(
        c.handle_stream_item::<String>(Ok(event("image", "pull", "i9"))),
        Handled::Dropped
    ));
    assert!(!c.image_list().listing());
    c.check_service(true);
    c.images_listed(false, Some(vec![]));
    assert!(matches!(
        c.handle_stream_item(Err("broken pipe".to_string())),
        Handled::Fatal(e) if e == "broken pipe"
    ));
    assert!(!c.listening());
    assert!(matches!(
        c.handle_stream_item::<String>(Ok(event("image", "pull", "i9"))),
        Handled::Dropped
    ));
    assert!(!c.image_list().listing());
    assert!(matches!(c.handle_stream_item(Err("again".to_string())), Handled::Dropped));
}

#[test]
fn event_types_are_classified() {
    assert_eq!(classify_event_type("image"), Some(Domain::Images));
    assert_eq!(classify_event_type("container"), Some(Domain::Containers));
    assert_eq!(classify_event_type("pod"), Some(Domain::Pods));
    assert_eq!(classify_event_type("volume"), None);
    assert_eq!(classify_event_type("images"), None);
}
