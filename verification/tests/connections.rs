use pods_model::client::Client;
use pods_model::connection::{Connection, ConnectionInfo};
use pods_model::connection_manager::{ConnectionManager, ManagerError, Selection};
use pods_model::image::ImageSummary;

fn info(name: &str, url: &str) -> ConnectionInfo {
    ConnectionInfo { name: name.to_string(), url: url.to_string(), rgb: None }
}

fn manager_with(names: &[(&str, &str, &str)]) -> ConnectionManager {
    let mut m = ConnectionManager::new();
    let stored = names.iter().map(|(u, n, url)| (u.to_string(), info(n, url))).collect();
    m.setup(stored, "none");
    m
}

fn client_for(connection: &Connection) -> Client {
    match Client::try_from(connection) {
        Ok(client) => client,
        Err(e) => panic!("no handle: {e}"),
    }
}

fn activate(m: &mut ConnectionManager, uuid: &str, reachable: bool) -> bool {
    match m.set_client_from(uuid) {
        Ok(Selection::Connect(client)) => m.client_reached(client, reachable),
        Ok(Selection::Active) => true,
        Err(_) => false,
    }
}

fn uuids(m: &ConnectionManager) -> Vec<String> {
    (0..m.n_items()).map(|i| m.item(i).unwrap().uuid().clone()).collect()
}

#[test]
fn connection_fields_and_locality() {
    let c = Connection::new(
        "u".to_string(),
        "n".to_string(),
        "unix:///run/user/1000/podman/podman.sock".to_string(),
        Some("rgb(1,2,3)".to_string()),
    );
    assert_eq!(c.uuid(), "u");
    assert_eq!(c.name(), "n");
    assert_eq!(c.url(), "unix:///run/user/1000/podman/podman.sock");
    assert_eq!(c.rgb().as_deref(), Some("rgb(1,2,3)"));
    assert!(c.is_local());
    assert!(!c.is_connecting());
    let i = c.info();
    assert_eq!(i.name, "n");
    assert_eq!(i.url, "unix:///run/user/1000/podman/podman.sock");
    assert_eq!(i.rgb.as_deref(), Some("rgb(1,2,3)"));
    let d = c.duplicate();
    assert_eq!(d.uuid(), "u");
    assert_eq!(d.rgb().as_deref(), Some("rgb(1,2,3)"));

    for (url, local) in [
        ("unix", true),
        ("unixx", true),
        ("uni", false),
        ("", false),
        ("tcp://unix", false),
        ("http://localhost:8080", false),
        ("Unix://x", false),
    ] {
        let c = Connection::new("u".to_string(), "n".to_string(), url.to_string(), None);
        assert_eq!(c.is_local(), local, "{}", url);
    }
}

#[test]
fn connecting_flag() {
    let mut c = Connection::from_connection_info("u".to_string(), info("n", "tcp://h:1"));
    assert!(!c.is_connecting());
    assert!(c.set_connecting(true));
    assert!(!c.set_connecting(true));
    assert!(c.is_connecting());
    let mut m = ConnectionManager::new();
    assert!(!m.is_connecting());
    m.connection_reached(client_for(&c), true);
    assert!(m.is_connecting());
}

#[test]
fn try_connect_refuses_a_name_that_exists() {
    let mut m = manager_with(&[("u1", "first", "unix:///a"), ("u2", "second", "tcp://b")]);
    assert!(activate(&mut m, "u1", true));
    match m.try_connect_as("second", "tcp://c:1", None, "u3".to_string()) {
        Err(e) => {
            assert!(matches!(&e, ManagerError::AlreadyExists { name } if name == "second"));
            assert_eq!(e.message(), "Connection 'second' already exists.");
        }
        Ok(_) => panic!("a name that exists was accepted"),
    }
    assert_eq!(uuids(&m), vec!["u1", "u2"]);
    assert_eq!(m.client().unwrap().connection().uuid(), "u1");
}

#[test]
fn try_connect_hands_out_the_connection_to_reach() {
    let m = manager_with(&[("u1", "first", "unix:///a")]);
    let c = m.try_connect_as("third", "tcp://c:1", Some("red".to_string()), "u3".to_string());
    let client = match c {
        Ok(c) => c,
        Err(_) => panic!("a new name was refused"),
    };
    let c = client.connection();
    assert_eq!(c.uuid(), "u3");
    assert_eq!(c.name(), "third");
    assert_eq!(c.url(), "tcp://c:1");
    assert_eq!(c.rgb().as_deref(), Some("red"));
    assert!(!c.is_connecting());
    assert_eq!(client.image_list().len(), 0);
    assert!(!client.listening());
    assert_eq!(uuids(&m), vec!["u1"]);
    assert!(m.client().is_none());
}

#[test]
fn try_connect_fails_where_no_handle_can_be_made() {
    let m = manager_with(&[("u1", "first", "unix:///a")]);
    match m.try_connect_as("new", "ftp://c", None, "u3".to_string()) {
        Err(e) => {
            assert!(matches!(&e, ManagerError::Gateway(_)));
            assert!(!e.message().is_empty());
        }
        Ok(_) => panic!("a handle was made for an address that cannot have one"),
    }
    assert!(matches!(
        m.try_connect_as("first", "ftp://c", None, "u3".to_string()),
        Err(ManagerError::AlreadyExists { .. })
    ));
    assert_eq!(uuids(&m), vec!["u1"]);
}

#[test]
fn try_connect_draws_a_new_uuid_each_time() {
    let mut m = manager_with(&[("u1", "first", "unix:///a")]);
    assert!(matches!(
        m.try_connect("first", "tcp://c", None),
        Err(ManagerError::AlreadyExists { name }) if name == "first"
    ));
    assert!(matches!(m.try_connect("x", "nothing", None), Err(ManagerError::Gateway(_))));
    let a = m.try_connect("a", "tcp://a", None).ok().unwrap();
    let b = m.try_connect("b", "tcp://b", Some("green".to_string())).ok().unwrap();
    let (ua, ub) = (a.connection().uuid().clone(), b.connection().uuid().clone());
    assert_ne!(ua, ub);
    assert_ne!(ua, "u1");
    assert_eq!(ua.len(), 36);
    assert_eq!(a.connection().name(), "a");
    assert_eq!(b.connection().url(), "tcp://b");
    assert_eq!(b.connection().rgb().as_deref(), Some("green"));
    assert_eq!(uuids(&m), vec!["u1"]);
    m.connection_reached(a, true);
    m.connection_reached(b, true);
    assert_eq!(uuids(&m), vec!["u1".to_string(), ua, ub]);
}

#[test]
fn connecting_is_all_or_nothing() {
    let mut m = manager_with(&[("u1", "first", "unix:///a")]);
    let c = m.try_connect_as("new", "tcp://c:1", None, "u9".to_string()).ok().unwrap();
    assert!(m.connection_reached(c, false).is_none());
    assert_eq!(uuids(&m), vec!["u1"]);
    assert!(m.client().is_none());
    assert!(m.has_name("first"));
    assert!(!m.has_name("new"));

    let c = m.try_connect_as("new", "tcp://c:1", None, "u9".to_string()).ok().unwrap();
    let placed = m.connection_reached(c, true).unwrap();
    assert_eq!(placed.position, 1);
    assert!(!placed.replaced);
    assert_eq!(uuids(&m), vec!["u1", "u9"]);
    assert_eq!(m.client().unwrap().connection().uuid(), "u9");
    assert_eq!(m.client().unwrap().connection().name(), "new");
    assert_eq!(m.client().unwrap().image_list().len(), 0);
    assert!(m.has_name("new"));
}

#[test]
fn a_connection_with_a_known_uuid_takes_the_place_of_the_old_one() {
    let mut m = manager_with(&[("u1", "first", "unix:///a"), ("u2", "second", "tcp://b")]);
    let c = Connection::new("u1".to_string(), "renamed".to_string(), "tcp://z:1".to_string(), None);
    let placed = m.connection_reached(client_for(&c), true).unwrap();
    assert_eq!(placed.position, 0);
    assert!(placed.replaced);
    assert_eq!(uuids(&m), vec!["u1", "u2"]);
    assert_eq!(m.item(0).unwrap().name(), "renamed");
    assert_eq!(m.connection_by_uuid("u1").unwrap().url(), "tcp://z:1");
}

#[test]
fn removing_a_connection_clears_its_client() {
    let mut m =
        manager_with(&[("u1", "a", "unix:///a"), ("u2", "b", "tcp://b"), ("u3", "c", "tcp://c")]);
    assert!(activate(&mut m, "u2", true));
    assert!(m.remove_connection("zz").is_none());
    assert_eq!(uuids(&m), vec!["u1", "u2", "u3"]);

    let r = m.remove_connection("u1").unwrap();
    assert_eq!(r.position, 0);
    assert!(!r.client_cleared);
    assert_eq!(m.client().unwrap().connection().uuid(), "u2");
    assert_eq!(uuids(&m), vec!["u2", "u3"]);

    let r = m.remove_connection("u2").unwrap();
    assert_eq!(r.position, 0);
    assert!(r.client_cleared);
    assert!(m.client().is_none());
    assert_eq!(uuids(&m), vec!["u3"]);
    assert!(m.connection_by_uuid("u2").is_none());
    assert!(m.remove_connection("u2").is_none());
}

#[test]
fn selecting_a_stored_connection() {
    let mut m = manager_with(&[("u1", "a", "unix:///a"), ("u2", "b", "tcp://b")]);
    match m.set_client_from("u2") {
        Ok(Selection::Connect(c)) => {
            assert_eq!(c.connection().uuid(), "u2");
            assert_eq!(c.connection().url(), "tcp://b");
        }
        _ => panic!("the connection was not handed out"),
    }
    assert!(m.client().is_none());
    assert!(!activate(&mut m, "u2", false));
    assert!(m.client().is_none());
    let stranger =
        Connection::new("zz".to_string(), "z".to_string(), "tcp://z".to_string(), None);
    assert!(!m.client_reached(client_for(&stranger), true));
    assert!(m.client().is_none());
    assert!(activate(&mut m, "u2", true));
    assert_eq!(m.client().unwrap().connection().uuid(), "u2");
    assert!(matches!(m.set_client_from("u2"), Ok(Selection::Active)));
    match m.set_client_from("zz") {
        Err(e) => {
            assert!(matches!(e, ManagerError::NotFound));
            assert_eq!(e.message(), "connection not found");
        }
        Ok(_) => panic!("an unknown connection was selected"),
    }
    m.unset_client();
    assert!(m.client().is_none());
    assert!(matches!(m.set_client_from("u2"), Ok(Selection::Connect(_))));
}

#[test]
fn setup_takes_in_the_stored_connections() {
    let mut m = ConnectionManager::new();
    let s = m.setup(vec![], "u1");
    assert_eq!((s.previous_len, s.len), (0, 0));
    assert!(matches!(s.selection, Ok(None)));

    let s = m.setup(
        vec![("u1".to_string(), info("a", "unix:///a")), ("u2".to_string(), info("b", "tcp://b"))],
        "u2",
    );
    assert_eq!((s.previous_len, s.len), (0, 2));
    assert!(
        matches!(&s.selection, Ok(Some(Selection::Connect(c))) if c.connection().uuid() == "u2")
    );
    assert_eq!(uuids(&m), vec!["u1", "u2"]);
    assert!(m.contains_local_connection());

    let s = m.setup(
        vec![("u3".to_string(), info("c", "tcp://c")), ("u1".to_string(), info("a2", "tcp://a2"))],
        "gone",
    );
    assert_eq!((s.previous_len, s.len), (2, 3));
    assert!(matches!(&s.selection, Err(ManagerError::NotFound)));
    assert_eq!(uuids(&m), vec!["u1", "u2", "u3"]);
    assert_eq!(m.item(0).unwrap().name(), "a2");
    assert!(!m.contains_local_connection());

    assert!(activate(&mut m, "u3", true));
    let s = m.setup(vec![], "u3");
    assert!(matches!(&s.selection, Ok(Some(Selection::Active))));
}

#[test]
fn snapshot_is_what_setup_takes_back() {
    let mut m = manager_with(&[("u1", "a", "unix:///a"), ("u2", "b", "tcp://b")]);
    let c = Connection::new(
        "u3".to_string(),
        "c".to_string(),
        "tcp://c:1".to_string(),
        Some("blue".to_string()),
    );
    m.connection_reached(client_for(&c), true);
    let stored = m.snapshot();
    assert_eq!(stored.len(), 3);
    assert_eq!(stored[0].0, "u1");
    assert_eq!(stored[2].0, "u3");
    assert_eq!(stored[2].1.name, "c");
    assert_eq!(stored[2].1.url, "tcp://c:1");
    assert_eq!(stored[2].1.rgb.as_deref(), Some("blue"));
    let mut again = ConnectionManager::new();
    again.setup(stored, "u1");
    assert_eq!(uuids(&again), uuids(&m));
    for i in 0..3 {
        assert_eq!(again.item(i).unwrap().name(), m.item(i).unwrap().name());
        assert_eq!(again.item(i).unwrap().url(), m.item(i).unwrap().url());
        assert_eq!(again.item(i).unwrap().rgb(), m.item(i).unwrap().rgb());
    }
    assert!(again.item(3).is_none());
}

#[test]
fn the_active_client_is_driven_through_the_manager() {
    let mut m = manager_with(&[("u1", "a", "unix:///a")]);
    assert!(m.client_mut().is_none());
    assert!(activate(&mut m, "u1", true));
    {
        let client = m.client_mut().unwrap();
        client.check_service(true);
        client.images_listed(
            false,
            Some(vec![ImageSummary {
                id: "i".to_string(),
                repo_tags: vec![],
                size: 3,
                containers: 0,
            }]),
        );
    }
    assert_eq!(m.client().unwrap().image_list().len(), 1);
    assert!(m.client().unwrap().listening());
    assert_eq!(m.client().unwrap().connection().uuid(), "u1");
}
