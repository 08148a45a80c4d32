//! What the interface shows of the mirrors: the small decisions behind its rows, labels
//! and dialogs, free of any toolkit.

use crate::container::ContainerStatus;
use crate::image::{Image, ImageView};
use crate::text::str_eq;
use vstd::prelude::*;
use vstd::string::{StrSliceExecFns, StringExecFns};

verus! {

/// The number of characters of an ID that a row shows.
pub const SHORT_ID_LEN: usize = 12;

/// The beginning of an ID that a row shows: its first twelve characters, or all of it if
/// it has fewer.
pub open spec fn short_id_of(id: Seq<char>) -> Seq<char> {
    if id.len() <= SHORT_ID_LEN {
        id
    } else {
        id.subrange(0, SHORT_ID_LEN as int)
    }
}

/// The beginning of an ID that a row shows.
pub fn short_id(id: &str) -> (short: String)
    ensures
        short@ == short_id_of(id@),
{
    let len = id.unicode_len();
    if len <= SHORT_ID_LEN {
        String::from_str(id)
    } else {
        String::from_str(id.substring_char(0, SHORT_ID_LEN))
    }
}

/// The style classes of an image's row: a mark for an image without a tag, a mark for an
/// image that is about to be deleted, then the classes that the row has anyway.
pub open spec fn image_row_classes_of(
    tagged: bool,
    to_be_deleted: bool,
    classes: Seq<Seq<char>>,
) -> Seq<Seq<char>> {
    (if tagged {
        Seq::<Seq<char>>::empty()
    } else {
        seq!["image-tag-none"@]
    }) + (if to_be_deleted {
        seq!["image-to-be-deleted"@]
    } else {
        Seq::<Seq<char>>::empty()
    }) + classes
}

/// The style classes of an image's row.
pub fn image_row_classes(tagged: bool, to_be_deleted: bool, classes: Vec<String>) -> (all:
    Vec<String>)
    ensures
        crate::text::texts(all@) == image_row_classes_of(
            tagged,
            to_be_deleted,
            crate::text::texts(classes@),
        ),
{
    let mut all: Vec<String> = Vec::new();
    if !tagged {
        all.push(String::from_str("image-tag-none"));
    }
    if to_be_deleted {
        all.push(String::from_str("image-to-be-deleted"));
    }
    let ghost marks = all@;
    let ghost rest = classes@;
    let mut classes = classes;
    all.append(&mut classes);
    assert(crate::text::texts(marks + rest) =~= image_row_classes_of(
        tagged,
        to_be_deleted,
        crate::text::texts(rest),
    ));
    all
}

/// Whether deleting the image takes containers with it, so that the user is to be asked
/// first: the runtime counts containers that use it, or the client has linked one.
pub open spec fn is_in_use(image: ImageView) -> bool {
    image.summary.containers > 0 || image.local.containers.len() > 0
}

/// Whether the user is to be asked before the image is deleted.
pub fn deletion_needs_confirmation(image: &Image) -> (needed: bool)
    ensures
        needed == is_in_use(image@),
{
    image.summary.containers > 0 || image.local.containers().len() > 0
}

/// How a volume is labelled for SELinux.
#[derive(Clone, Copy, Debug, PartialEq, Eq, Structural)]
pub enum VolumeSELinux {
    NoLabel,
    Shared,
    Private,
}

/// The position of the label in the list that the user chooses from.
pub fn selinux_position(selinux: VolumeSELinux) -> (position: u32)
    ensures
        position == match selinux {
            VolumeSELinux::NoLabel => 0u32,
            VolumeSELinux::Shared => 1u32,
            VolumeSELinux::Private => 2u32,
        },
{
    match selinux {
        VolumeSELinux::NoLabel => 0,
        VolumeSELinux::Shared => 1,
        VolumeSELinux::Private => 2,
    }
}

/// The label at the given position of the list that the user chooses from; any position
/// behind the list stands for the last label.
pub fn selinux_at(position: u32) -> (selinux: VolumeSELinux)
    ensures
        selinux == match position {
            0u32 => VolumeSELinux::NoLabel,
            1u32 => VolumeSELinux::Shared,
            _ => VolumeSELinux::Private,
        },
{
    match position {
        0 => VolumeSELinux::NoLabel,
        1 => VolumeSELinux::Shared,
        _ => VolumeSELinux::Private,
    }
}

/// The options of a volume as its row shows them: `rw` or `ro`, then the SELinux label
/// after a comma if there is one.
pub open spec fn volume_options_of(writable: bool, selinux: Seq<char>) -> Seq<char> {
    (if writable {
        "rw"@
    } else {
        "ro"@
    }) + (if selinux.len() == 0 {
        Seq::<char>::empty()
    } else {
        ", "@ + selinux
    })
}

/// The options of a volume as its row shows them.
pub fn volume_options(writable: bool, selinux: &str) -> (options: String)
    ensures
        options@ == volume_options_of(writable, selinux@),
{
    let mut options = if writable {
        String::from_str("rw")
    } else {
        String::from_str("ro")
    };
    if selinux.unicode_len() != 0 {
        options.append(", ");
        options.append(selinux);
        assert(options@ =~= volume_options_of(writable, selinux@));
    } else {
        assert(options@ =~= volume_options_of(writable, selinux@));
    }
    options
}

/// What a group of containers says of itself.
#[derive(Clone, Copy, Debug, PartialEq, Eq, Structural)]
pub enum GroupDescription {
    /// There is no container: the group shows the words it was given for that.
    Empty,
    /// There is one container, and it runs.
    OneRunning,
    /// There is one container, and it does not run.
    OneStopped,
    /// There are several containers, so many of them running.
    Several { total: u32, running: u32 },
}

/// What a group of so many containers, so many of them running, says of itself.
pub fn describe_group(total: u32, running: u32) -> (description: GroupDescription)
    ensures
        description == if total == 0 {
            GroupDescription::Empty
        } else if total == 1 {
            if running == 1 {
                GroupDescription::OneRunning
            } else {
                GroupDescription::OneStopped
            }
        } else {
            GroupDescription::Several { total, running }
        },
{
    if total == 0 {
        GroupDescription::Empty
    } else if total == 1 {
        if running == 1 {
            GroupDescription::OneRunning
        } else {
            GroupDescription::OneStopped
        }
    } else {
        GroupDescription::Several { total, running }
    }
}

/// Whether a group that may be set to show running containers only shows a container in
/// the given state.
pub fn shows_container(only_running: bool, status: ContainerStatus) -> (shown: bool)
    ensures
        shown == (!only_running || status == ContainerStatus::Running),
{
    !only_running || status == ContainerStatus::Running
}

/// What a dialog that renames a container does when it is asked to close.
#[derive(Clone, Copy, Debug, PartialEq, Eq, Structural)]
pub enum CloseRequest {
    /// It closes.
    Close,
    /// It stays open and renames the container; it closes once that has succeeded.
    Rename,
    /// It stays open for now and closes as soon as the interface is idle.
    CloseWhenIdle,
}

/// The decision of a renaming dialog that is asked to close. `finished` says that the
/// renaming is over; `response` is the answer that the user gave last, if any.
pub open spec fn close_request_of(finished: bool, response: Option<Seq<char>>) -> CloseRequest {
    if finished {
        CloseRequest::Close
    } else {
        match response {
            Some(response) => if response == "close"@ {
                CloseRequest::Close
            } else {
                CloseRequest::Rename
            },
            None => CloseRequest::CloseWhenIdle,
        }
    }
}

/// The decision of a renaming dialog that is asked to close.
pub fn close_request(finished: bool, response: Option<&str>) -> (decision: CloseRequest)
    ensures
        decision == close_request_of(
            finished,
            match response {
                Some(response) => Some(response@),
                None => None,
            },
        ),
{
    if finished {
        return CloseRequest::Close;
    }
    match response {
        Some(response) => {
            if str_eq(response, "close") {
                CloseRequest::Close
            } else {
                CloseRequest::Rename
            }
        },
        None => CloseRequest::CloseWhenIdle,
    }
}

} // verus!
