use pods_model::event::Event;
use pods_model::image::{classify_image_action, ImageAction, ImageList, ImageSummary};
use pods_model::mirror::{Change, Reaction};

fn image(id: &str, tags: &[&str], size: u64) -> ImageSummary {
    ImageSummary {
        id: id.to_string(),
        repo_tags: tags.iter().map(|t| t.to_string()).collect(),
        size,
        containers: 0,
    }
}

fn ids(list: &ImageList) -> Vec<String> {
    (0..list.len()).map(|i| list.get_index(i).unwrap().summary.id.clone()).collect()
}

fn event(action: &str, id: &str, name: Option<&str>) -> Event {
    Event {
        typ: "image".to_string(),
        action: action.to_string(),
        actor_id: id.to_string(),
        attributes: match name {
            Some(n) => vec![
                ("image".to_string(), "ignored".to_string()),
                ("name".to_string(), n.to_string()),
            ],
            None => vec![],
        },
    }
}

#[test]
fn refresh_appends_then_reconciles() {
    let mut list = ImageList::new();
    assert!(!list.listing());
    assert!(!list.is_initialized());
    assert!(list.refresh());
    assert!(!list.refresh());
    assert!(list.listing());
    let done = list.finish_refresh(Some(vec![image("a", &["x"], 1), image("b", &["y"], 2)]));
    assert!(!done.failed);
    assert!(done.listing_changed);
    assert!(done.initialized_changed);
    assert!(!list.listing());
    assert!(list.is_initialized());
    assert_eq!(ids(&list), vec!["a", "b"]);
    assert_eq!(done.changes.len(), 2);
    assert!(matches!(&done.changes[0], Change::Added { position: 0, id } if id == "a"));
    assert!(matches!(&done.changes[1], Change::Added { position: 1, id } if id == "b"));

    let done = list.finish_refresh(Some(vec![image("b", &["y2"], 20), image("c", &[], 3)]));
    assert_eq!(ids(&list), vec!["b", "c"]);
    assert_eq!(done.changes.len(), 4);
    assert!(matches!(&done.changes[0], Change::Removed { position: 0, id } if id == "a"));
    assert!(matches!(&done.changes[1], Change::Deleted { entity } if entity.summary.id == "a"));
    assert!(matches!(&done.changes[2], Change::Updated { position: 0, id } if id == "b"));
    assert!(matches!(&done.changes[3], Change::Added { position: 1, id } if id == "c"));
    assert_eq!(list.get_image("b").unwrap().summary.size, 20);
    assert_eq!(list.get_image("b").unwrap().summary.repo_tags, vec!["y2"]);
    assert!(list.get_image("a").is_none());
    assert!(!done.initialized_changed);
    assert!(!done.listing_changed);
}

#[test]
fn second_identical_refresh_only_updates() {
    let mut list = ImageList::new();
    let listing = || vec![image("a", &["x"], 1), image("b", &[], 2), image("c", &["z"], 3)];
    list.finish_refresh(Some(listing()));
    let before = ids(&list);
    let done = list.finish_refresh(Some(listing()));
    assert_eq!(ids(&list), before);
    assert_eq!(done.changes.len(), 3);
    for (i, change) in done.changes.iter().enumerate() {
        assert!(matches!(change, Change::Updated { position, .. } if *position == i));
    }
    assert_eq!(list.get_image("c").unwrap().summary.repo_tags, vec!["z"]);
}

#[test]
fn a_listing_that_names_an_id_twice_keeps_one_entity() {
    let mut list = ImageList::new();
    let done = list.finish_refresh(Some(vec![
        image("a", &["first"], 1),
        image("b", &[], 2),
        image("a", &["second"], 9),
    ]));
    assert_eq!(ids(&list), vec!["a", "b"]);
    assert_eq!(list.get_image("a").unwrap().summary.size, 9);
    assert_eq!(list.get_image("a").unwrap().summary.repo_tags, vec!["second"]);
    assert_eq!(done.changes.len(), 3);
    assert!(matches!(&done.changes[2], Change::Updated { position: 0, id } if id == "a"));
}

#[test]
fn failed_refresh_leaves_the_images_untouched() {
    let mut list = ImageList::new();
    list.refresh();
    let done = list.finish_refresh(None);
    assert!(done.failed);
    assert!(done.changes.is_empty());
    assert!(done.initialized_changed);
    assert!(list.is_initialized());
    assert!(!list.listing());
    assert_eq!(list.len(), 0);

    list.finish_refresh(Some(vec![image("a", &[], 1)]));
    list.refresh();
    let done = list.finish_refresh(None);
    assert!(done.failed);
    assert!(!done.initialized_changed);
    assert_eq!(ids(&list), vec!["a"]);
}

#[test]
fn empty_full_listing_evicts_everything_in_order() {
    let mut list = ImageList::new();
    list.finish_refresh(Some(vec![image("a", &[], 1), image("b", &[], 2), image("c", &[], 3)]));
    let done = list.finish_refresh(Some(vec![]));
    assert_eq!(list.len(), 0);
    assert_eq!(done.changes.len(), 6);
    for (k, id) in ["a", "b", "c"].iter().enumerate() {
        assert!(
            matches!(&done.changes[2 * k], Change::Removed { position: 0, id: gone } if gone == id)
        );
        assert!(
            matches!(&done.changes[2 * k + 1], Change::Deleted { entity }
                if &entity.summary.id == id)
        );
    }
}

#[test]
fn eviction_positions_count_the_survivors_before() {
    let mut list = ImageList::new();
    list.finish_refresh(Some(vec![
        image("a", &[], 1),
        image("b", &[], 2),
        image("c", &[], 3),
        image("d", &[], 4),
    ]));
    let done = list.finish_refresh(Some(vec![image("c", &[], 3), image("a", &[], 1)]));
    assert_eq!(ids(&list), vec!["a", "c"]);
    assert!(matches!(&done.changes[0], Change::Removed { position: 1, id } if id == "b"));
    assert!(matches!(&done.changes[2], Change::Removed { position: 2, id } if id == "d"));
    assert!(matches!(&done.changes[4], Change::Updated { position: 1, id } if id == "c"));
    assert!(matches!(&done.changes[5], Change::Updated { position: 0, id } if id == "a"));
}

#[test]
fn tag_events_move_the_intermediate_count() {
    let mut list = ImageList::new();
    list.finish_refresh(Some(vec![image("a", &[], 5), image("b", &["t"], 7)]));
    assert_eq!(list.intermediates(), 1);
    assert_eq!(list.total_size(), 12);
    assert_eq!(list.unused_size(), 5);

    let r = list.handle_event(&event("tag", "a", Some("mine")));
    assert!(matches!(r, Reaction::Retagged { intermediates_changed: true }));
    assert_eq!(list.get_image("a").unwrap().summary.repo_tags, vec!["localhost/mine"]);
    assert_eq!(list.intermediates(), 0);
    assert_eq!(list.unused_size(), 0);

    let r = list.handle_event(&event("tag", "a", Some("other")));
    assert!(matches!(r, Reaction::Retagged { intermediates_changed: false }));
    assert_eq!(
        list.get_image("a").unwrap().summary.repo_tags,
        vec!["localhost/mine", "localhost/other"]
    );
    assert_eq!(list.intermediates(), 0);

    let r = list.handle_event(&event("tag", "a", Some("other")));
    assert!(matches!(r, Reaction::Retagged { intermediates_changed: false }));
    assert_eq!(list.get_image("a").unwrap().summary.repo_tags.len(), 2);

    let r = list.handle_event(&event("untag", "a", Some("localhost/other")));
    assert!(matches!(r, Reaction::Retagged { intermediates_changed: false }));
    let r = list.handle_event(&event("untag", "a", Some("localhost/mine")));
    assert!(matches!(r, Reaction::Retagged { intermediates_changed: true }));
    assert_eq!(list.intermediates(), 1);
    assert_eq!(list.unused_size(), 5);

    let r = list.handle_event(&event("untag", "a", Some("localhost/mine")));
    assert!(matches!(r, Reaction::Retagged { intermediates_changed: false }));
    assert_eq!(list.intermediates(), 1);
}

#[test]
fn tag_events_for_an_unknown_image_change_nothing() {
    let mut list = ImageList::new();
    list.finish_refresh(Some(vec![image("a", &[], 5)]));
    let r = list.handle_event(&event("tag", "zz", Some("mine")));
    assert!(matches!(r, Reaction::Retagged { intermediates_changed: false }));
    let r = list.handle_event(&event("untag", "zz", Some("mine")));
    assert!(matches!(r, Reaction::Retagged { intermediates_changed: false }));
    assert_eq!(list.intermediates(), 1);
    assert!(list.get_image("a").unwrap().summary.repo_tags.is_empty());
}

#[test]
fn tag_event_without_a_name_is_invalid() {
    let mut list = ImageList::new();
    list.finish_refresh(Some(vec![image("a", &[], 5)]));
    assert!(matches!(list.handle_event(&event("tag", "a", None)), Reaction::Invalid));
    assert!(matches!(list.handle_event(&event("untag", "a", None)), Reaction::Invalid));
    assert!(list.get_image("a").unwrap().summary.repo_tags.is_empty());
}

#[test]
fn remove_event_evicts_and_reports_removed_then_deleted() {
    let mut list = ImageList::new();
    list.finish_refresh(Some(vec![image("a", &[], 1), image("x", &["t"], 2), image("c", &[], 3)]));
    match list.handle_event(&event("remove", "x", None)) {
        Reaction::Evicted(changes) => {
            assert_eq!(changes.len(), 2);
            assert!(matches!(&changes[0], Change::Removed { position: 1, id } if id == "x"));
            assert!(matches!(&changes[1], Change::Deleted { entity } if entity.summary.id == "x"));
        }
        _ => panic!("the image was not evicted"),
    }
    assert!(list.get_image("x").is_none());
    assert!(list.position("x").is_none());
    assert_eq!(ids(&list), vec!["a", "c"]);
    match list.handle_event(&event("remove", "x", None)) {
        Reaction::Evicted(changes) => assert!(changes.is_empty()),
        _ => panic!("a second removal must report an eviction without changes"),
    }
    assert_eq!(ids(&list), vec!["a", "c"]);
}

#[test]
fn build_and_pull_start_a_full_refresh() {
    for action in ["build", "pull"] {
        let mut list = ImageList::new();
        list.finish_refresh(Some(vec![image("a", &[], 1)]));
        assert!(!list.listing());
        assert!(matches!(list.handle_event(&event(action, "a", None)), Reaction::Refresh(None)));
        assert!(list.listing());
        assert_eq!(ids(&list), vec!["a"]);
    }
}

#[test]
fn unknown_image_action_is_ignored() {
    let mut list = ImageList::new();
    list.finish_refresh(Some(vec![image("a", &[], 1)]));
    assert!(matches!(list.handle_event(&event("prune", "a", None)), Reaction::Unknown));
    assert!(!list.listing());
    assert_eq!(ids(&list), vec!["a"]);
}

#[test]
fn image_actions_are_classified() {
    assert_eq!(classify_image_action("tag"), ImageAction::Tag);
    assert_eq!(classify_image_action("untag"), ImageAction::Untag);
    assert_eq!(classify_image_action("remove"), ImageAction::Remove);
    assert_eq!(classify_image_action("build"), ImageAction::Refresh);
    assert_eq!(classify_image_action("pull"), ImageAction::Refresh);
    assert_eq!(classify_image_action("Tag"), ImageAction::Unknown);
    assert_eq!(classify_image_action(""), ImageAction::Unknown);
}

#[test]
fn sizes_saturate() {
    let mut list = ImageList::new();
    list.finish_refresh(Some(vec![
        image("a", &[], u64::MAX - 1),
        image("b", &["t"], 5),
        image("c", &[], 1),
    ]));
    assert_eq!(list.total_size(), u64::MAX);
    assert_eq!(list.unused_size(), u64::MAX);
    let mut list = ImageList::new();
    list.finish_refresh(Some(vec![image("a", &[], u64::MAX - 1), image("b", &["t"], 1)]));
    assert_eq!(list.total_size(), u64::MAX);
    assert_eq!(list.unused_size(), u64::MAX - 1);
    assert_eq!(ImageList::new().total_size(), 0);
}

#[test]
fn event_attribute_is_the_first_of_its_name() {
    let e = Event {
        typ: "image".to_string(),
        action: "tag".to_string(),
        actor_id: "a".to_string(),
        attributes: vec![
            ("name".to_string(), "one".to_string()),
            ("other".to_string(), "x".to_string()),
            ("name".to_string(), "two".to_string()),
        ],
    };
    assert_eq!(e.attribute("name").map(|s| s.as_str()), Some("one"));
    assert_eq!(e.attribute("other").map(|s| s.as_str()), Some("x"));
    assert!(e.attribute("nam").is_none());
    assert!(e.attribute("").is_none());
}

#[test]
fn overlapping_refreshes_are_applied_as_they_complete() {
    let mut list = ImageList::new();
    assert!(list.refresh());
    assert!(!list.refresh());
    let first = list.finish_refresh(Some(vec![image("a", &[], 1), image("b", &[], 2)]));
    assert!(first.listing_changed);
    assert!(!list.listing());
    let second = list.finish_refresh(Some(vec![image("a", &[], 1)]));
    assert!(!second.listing_changed);
    assert!(!second.initialized_changed);
    assert_eq!(ids(&list), vec!["a"]);
    assert_eq!(second.changes.len(), 3);
}

#[test]
fn marks_are_local_and_survive_updates() {
    let mut list = ImageList::new();
    list.finish_refresh(Some(vec![image("a", &[], 1), image("b", &[], 2), image("c", &[], 3)]));
    assert_eq!(list.num_selected(), 0);
    assert!(!list.get_image("a").unwrap().selected());
    assert!(!list.get_image("a").unwrap().to_be_deleted());
    assert!(list.set_selected("a", true));
    assert!(list.set_selected("c", true));
    assert!(!list.set_selected("zz", true));
    assert!(list.set_to_be_deleted("b", true));
    assert!(!list.set_to_be_deleted("zz", true));
    assert_eq!(list.num_selected(), 2);
    assert!(list.get_image("a").unwrap().selected());
    assert!(!list.get_image("b").unwrap().selected());
    assert!(list.get_image("b").unwrap().to_be_deleted());

    list.finish_refresh(Some(vec![image("a", &["t"], 10), image("b", &[], 2)]));
    assert_eq!(list.num_selected(), 1);
    assert!(list.get_image("a").unwrap().selected());
    assert!(list.get_image("b").unwrap().to_be_deleted());
    assert_eq!(list.get_image("a").unwrap().summary.size, 10);

    assert!(list.set_selected("a", false));
    assert!(list.set_to_be_deleted("b", false));
    assert_eq!(list.num_selected(), 0);
    assert!(!list.get_image("b").unwrap().to_be_deleted());

    list.finish_refresh(Some(vec![]));
    list.finish_refresh(Some(vec![image("a", &[], 1)]));
    assert!(!list.get_image("a").unwrap().selected());
}
