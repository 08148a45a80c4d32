use pods_model::client::Client;
use pods_model::connection::Connection;
use pods_model::container::{ContainerStatus, ContainerSummary};
use pods_model::image::ImageSummary;
use pods_model::view::{
    close_request, deletion_needs_confirmation, describe_group, image_row_classes, selinux_at,
    selinux_position, short_id, shows_container, volume_options, CloseRequest, GroupDescription,
    VolumeSELinux,
};

#[test]
fn short_ids() {
    assert_eq!(short_id("0123456789abcdef"), "0123456789ab");
    assert_eq!(short_id("0123456789ab"), "0123456789ab");
    assert_eq!(short_id("0123"), "0123");
    assert_eq!(short_id(""), "");
    assert_eq!(short_id("ääääääääääääääää"), "ääääääääääää");
}

#[test]
fn image_row_classes_come_before_the_rows_own() {
    let own = vec!["row".to_string(), "activatable".to_string()];
    assert_eq!(image_row_classes(true, false, own.clone()), vec!["row", "activatable"]);
    assert_eq!(
        image_row_classes(false, false, own.clone()),
        vec!["image-tag-none", "row", "activatable"]
    );
    assert_eq!(
        image_row_classes(true, true, own.clone()),
        vec!["image-to-be-deleted", "row", "activatable"]
    );
    assert_eq!(
        image_row_classes(false, true, own),
        vec!["image-tag-none", "image-to-be-deleted", "row", "activatable"]
    );
    assert_eq!(
        image_row_classes(false, true, vec![]),
        vec!["image-tag-none", "image-to-be-deleted"]
    );
    assert!(image_row_classes(true, false, vec![]).is_empty());
}

#[test]
fn deleting_an_image_in_use_needs_confirmation() {
    let connection =
        Connection::new("u".to_string(), "n".to_string(), "unix:///s".to_string(), None);
    let mut c = Client::try_from(&connection).ok().unwrap();
    let image = |id: &str, containers: u64| ImageSummary {
        id: id.to_string(),
        repo_tags: vec![],
        size: 0,
        containers,
    };
    c.images_listed(false, Some(vec![image("free", 0), image("counted", 2), image("linked", 0)]));
    c.containers_listed(
        None,
        false,
        Some(vec![ContainerSummary {
            id: "c".to_string(),
            name: "c".to_string(),
            image_id: Some("linked".to_string()),
            pod_id: None,
            status: ContainerStatus::Exited,
            is_infra: false,
        }]),
    );
    let images = c.image_list();
    assert!(!deletion_needs_confirmation(images.get_image("free").unwrap()));
    assert!(deletion_needs_confirmation(images.get_image("counted").unwrap()));
    assert!(deletion_needs_confirmation(images.get_image("linked").unwrap()));
}

#[test]
fn selinux_labels_and_positions() {
    assert_eq!(selinux_position(VolumeSELinux::NoLabel), 0);
    assert_eq!(selinux_position(VolumeSELinux::Shared), 1);
    assert_eq!(selinux_position(VolumeSELinux::Private), 2);
    assert_eq!(selinux_at(0), VolumeSELinux::NoLabel);
    assert_eq!(selinux_at(1), VolumeSELinux::Shared);
    assert_eq!(selinux_at(2), VolumeSELinux::Private);
    assert_eq!(selinux_at(3), VolumeSELinux::Private);
    assert_eq!(selinux_at(u32::MAX), VolumeSELinux::Private);
    for label in [VolumeSELinux::NoLabel, VolumeSELinux::Shared, VolumeSELinux::Private] {
        assert_eq!(selinux_at(selinux_position(label)), label);
    }
}

#[test]
fn volume_option_labels() {
    assert_eq!(volume_options(true, ""), "rw");
    assert_eq!(volume_options(false, ""), "ro");
    assert_eq!(volume_options(true, "z"), "rw, z");
    assert_eq!(volume_options(false, "Z"), "ro, Z");
}

#[test]
fn group_descriptions() {
    assert_eq!(describe_group(0, 0), GroupDescription::Empty);
    assert_eq!(describe_group(0, 3), GroupDescription::Empty);
    assert_eq!(describe_group(1, 1), GroupDescription::OneRunning);
    assert_eq!(describe_group(1, 0), GroupDescription::OneStopped);
    assert_eq!(describe_group(1, 2), GroupDescription::OneStopped);
    assert_eq!(describe_group(2, 1), GroupDescription::Several { total: 2, running: 1 });
    assert_eq!(describe_group(7, 0), GroupDescription::Several { total: 7, running: 0 });
}

#[test]
fn the_running_filter() {
    assert!(shows_container(false, ContainerStatus::Exited));
    assert!(shows_container(false, ContainerStatus::Running));
    assert!(shows_container(true, ContainerStatus::Running));
    assert!(!shows_container(true, ContainerStatus::Exited));
    assert!(!shows_container(true, ContainerStatus::Paused));
}

#[test]
fn a_renaming_dialog_asked_to_close() {
    assert_eq!(close_request(true, None), CloseRequest::Close);
    assert_eq!(close_request(true, Some("rename")), CloseRequest::Close);
    assert_eq!(close_request(false, Some("close")), CloseRequest::Close);
    assert_eq!(close_request(false, Some("rename")), CloseRequest::Rename);
    assert_eq!(close_request(false, Some("")), CloseRequest::Rename);
    assert_eq!(close_request(false, None), CloseRequest::CloseWhenIdle);
}
