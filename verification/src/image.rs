//! The mirror of the runtime's images.

use crate::counting::{count, lemma_count_bounds, lemma_count_step, lemma_count_update, one_if};
use crate::entity::{views, Entity, EntityView, Summary};
use crate::event::{attribute_of, Event};
use crate::links::{Members, MembersView};
use crate::mirror::{
    find, ids, refresh_changes, refreshed, removal, Change, Mirror, Reaction, Refreshed,
};
use crate::text::{insert_item, remove_item, str_eq, texts, with_item, without_item};
use vstd::prelude::*;
use vstd::string::StringExecFns;

verus! {

/// What a listing reports of one image.
pub struct ImageSummary {
    pub id: String,
    /// The names under which the image is known.
    pub repo_tags: Vec<String>,
    /// The size of the image in bytes.
    pub size: u64,
    /// The number of containers that the runtime counts as using the image.
    pub containers: u64,
}

/// The mathematical value of an [`ImageSummary`].
pub ghost struct ImageSummaryView {
    pub id: Seq<char>,
    pub repo_tags: Seq<Seq<char>>,
    pub size: u64,
    pub containers: u64,
}

impl View for ImageSummary {
    type V = ImageSummaryView;

    open spec fn view(&self) -> ImageSummaryView {
        ImageSummaryView {
            id: self.id@,
            repo_tags: texts(self.repo_tags@),
            size: self.size,
            containers: self.containers,
        }
    }
}

impl Summary for ImageSummary {
    open spec fn key(v: ImageSummaryView) -> Seq<char> {
        v.id
    }

    open spec fn listed(v: ImageSummaryView) -> bool {
        true
    }

    fn id(&self) -> (id: &String) {
        &self.id
    }

    fn is_listed(&self) -> (listed: bool) {
        true
    }
}

/// A mirrored image: its snapshot, and the containers that the client has linked to it.
pub type Image = Entity<ImageSummary, Members>;

/// The mathematical value of an [`Image`].
pub type ImageView = EntityView<ImageSummaryView, MembersView>;

/// An image without any tag: an intermediate image.
pub open spec fn is_intermediate(image: ImageView) -> bool {
    image.summary.repo_tags.len() == 0
}

/// The number of intermediate images.
pub open spec fn intermediates_of(images: Seq<ImageView>) -> nat {
    count(images, |image: ImageView| is_intermediate(image))
}

/// The sizes of the images that `wanted` selects, added up.
pub open spec fn sizes(images: Seq<ImageView>, wanted: spec_fn(ImageView) -> bool) -> nat
    decreases images.len(),
{
    if images.len() == 0 {
        0
    } else {
        sizes(images.drop_last(), wanted) + if wanted(images.last()) {
            images.last().summary.size as nat
        } else {
            0
        }
    }
}

/// `image` with other tags.
pub open spec fn retagged(image: ImageView, repo_tags: Seq<Seq<char>>) -> ImageView {
    EntityView {
        summary: ImageSummaryView {
            id: image.summary.id,
            repo_tags,
            size: image.summary.size,
            containers: image.summary.containers,
        },
        local: image.local,
    }
}

/// `images` after the image with the given ID, if there is one, has got the tag.
pub open spec fn with_tag(images: Seq<ImageView>, id: Seq<char>, tag: Seq<char>) -> Seq<
    ImageView,
> {
    if ids::<ImageSummary, Members>(images).contains(id) {
        let i = ids::<ImageSummary, Members>(images).index_of(id);
        images.update(i, retagged(images[i], with_item(images[i].summary.repo_tags, tag)))
    } else {
        images
    }
}

/// `images` after the image with the given ID, if there is one, has lost the tag.
pub open spec fn without_tag(images: Seq<ImageView>, id: Seq<char>, tag: Seq<char>) -> Seq<
    ImageView,
> {
    if ids::<ImageSummary, Members>(images).contains(id) {
        let i = ids::<ImageSummary, Members>(images).index_of(id);
        images.update(i, retagged(images[i], without_item(images[i].summary.repo_tags, tag)))
    } else {
        images
    }
}

/// What an image event asks for.
#[derive(Clone, Copy, Debug, PartialEq, Eq, Structural)]
pub enum ImageAction {
    Tag,
    Untag,
    Remove,
    Refresh,
    Unknown,
}

/// The meaning of an image event's action.
pub open spec fn image_action(action: Seq<char>) -> ImageAction {
    if action == "tag"@ {
        ImageAction::Tag
    } else if action == "untag"@ {
        ImageAction::Untag
    } else if action == "remove"@ {
        ImageAction::Remove
    } else if action == "build"@ || action == "pull"@ {
        ImageAction::Refresh
    } else {
        ImageAction::Unknown
    }
}

/// The name under which a locally tagged image is known.
pub open spec fn local_tag(name: Seq<char>) -> Seq<char> {
    "localhost/"@ + name
}

/// The meaning of an image event's action.
pub fn classify_image_action(action: &str) -> (meaning: ImageAction)
    ensures
        meaning == image_action(action@),
{
    if str_eq(action, "tag") {
        ImageAction::Tag
    } else if str_eq(action, "untag") {
        ImageAction::Untag
    } else if str_eq(action, "remove") {
        ImageAction::Remove
    } else if str_eq(action, "build") || str_eq(action, "pull") {
        ImageAction::Refresh
    } else {
        ImageAction::Unknown
    }
}

/// What [`ImageList::handle_event`] does: how the list after the event and the reaction
/// relate to the list before it.
pub open spec fn image_reaction(
    before: ImageList,
    event: Event,
    after: ImageList,
    reaction: Reaction<ImageSummary, Members>,
) -> bool {
    &&& after.wf()
    &&& after.initialized() == before.initialized()
    &&& after.is_listing() == (before.is_listing() || image_action(event.action@)
        == ImageAction::Refresh)
    &&& match image_action(event.action@) {
        ImageAction::Tag => match attribute_of(event.attributes@, "name"@) {
            Some(name) => {
                &&& after@ == with_tag(before@, event.actor_id@, local_tag(name))
                &&& reaction matches Reaction::Retagged { intermediates_changed }
                &&& intermediates_changed == (intermediates_of(after@)
                    != intermediates_of(before@))
            },
            None => after@ == before@ && reaction is Invalid,
        },
        ImageAction::Untag => match attribute_of(event.attributes@, "name"@) {
            Some(name) => {
                &&& after@ == without_tag(before@, event.actor_id@, name)
                &&& reaction matches Reaction::Retagged { intermediates_changed }
                &&& intermediates_changed == (intermediates_of(after@)
                    != intermediates_of(before@))
            },
            None => after@ == before@ && reaction is Invalid,
        },
        ImageAction::Remove => {
            &&& !ids::<ImageSummary, Members>(after@).contains(event.actor_id@)
            &&& reaction matches Reaction::Evicted(changes)
            &&& match find::<ImageSummary, Members>(before@, event.actor_id@) {
                Some(image) => {
                    let i = ids::<ImageSummary, Members>(before@).index_of(
                        event.actor_id@,
                    );
                    &&& after@ == before@.remove(i)
                    &&& views(changes@) == removal::<ImageSummary, Members>(i, image)
                },
                None => after@ == before@ && changes@.len() == 0,
            }
        },
        ImageAction::Refresh => {
            &&& after@ == before@
            &&& reaction matches Reaction::Refresh(id)
            &&& id is None
        },
        ImageAction::Unknown => after@ == before@ && reaction is Unknown,
    }
}

/// The mirror of the runtime's images.
pub type ImageList = Mirror<ImageSummary, Members>;

impl ImageList {
    /// The image with the given ID.
    pub fn get_image(&self, id: &str) -> (found: Option<&Image>)
        requires
            self.wf(),
        ensures
            found is Some <==> ids::<ImageSummary, Members>(self@).contains(id@),
            found matches Some(image) ==> find::<ImageSummary, Members>(self@, id@) == Some(
                image@,
            ),
    {
        self.get(id)
    }

    /// The number of images without a tag.
    pub fn intermediates(&self) -> (n: usize)
        requires
            self.wf(),
        ensures
            n == intermediates_of(self@),
    {
        let ghost wanted = |image: ImageView| is_intermediate(image);
        let mut n: usize = 0;
        let mut i: usize = 0;
        proof {
            lemma_count_bounds(self@.take(0), wanted);
        }
        while i < self.len()
            invariant
                self.wf(),
                wanted == |image: ImageView| is_intermediate(image),
                i <= self@.len(),
                n == count(self@.take(i as int), wanted),
                n <= i,
            decreases self@.len() - i,
        {
            proof {
                lemma_count_step(self@, wanted, i as int);
            }
            match self.get_index(i) {
                Some(image) => {
                    if image.summary.repo_tags.len() == 0 {
                        n = n + 1;
                    }
                },
                None => {},
            }
            i = i + 1;
        }
        proof {
            assert(self@.take(i as int) =~= self@);
        }
        n
    }

    /// The size of all images together, in bytes; `u64::MAX` where the sum is larger.
    pub fn total_size(&self) -> (size: u64)
        requires
            self.wf(),
        ensures
            size == if sizes(self@, |image: ImageView| true) <= u64::MAX {
                sizes(self@, |image: ImageView| true)
            } else {
                u64::MAX as nat
            },
    {
        let ghost wanted = |image: ImageView| true;
        let mut size: u64 = 0;
        let mut i: usize = 0;
        proof {
            assert(self@.take(0) =~= Seq::empty());
        }
        while i < self.len()
            invariant
                self.wf(),
                wanted == |image: ImageView| true,
                i <= self@.len(),
                size == if sizes(self@.take(i as int), wanted) <= u64::MAX {
                    sizes(self@.take(i as int), wanted)
                } else {
                    u64::MAX as nat
                },
            decreases self@.len() - i,
        {
            proof {
                assert(self@.take(i + 1).drop_last() =~= self@.take(i as int));
            }
            match self.get_index(i) {
                Some(image) => {
                    size = size.saturating_add(image.summary.size);
                },
                None => {},
            }
            i = i + 1;
        }
        proof {
            assert(self@.take(i as int) =~= self@);
        }
        size
    }

    /// The size of the images without a tag together, in bytes; `u64::MAX` where the sum
    /// is larger.
    pub fn unused_size(&self) -> (size: u64)
        requires
            self.wf(),
        ensures
            size == if sizes(self@, |image: ImageView| is_intermediate(image)) <= u64::MAX {
                sizes(self@, |image: ImageView| is_intermediate(image))
            } else {
                u64::MAX as nat
            },
    {
        let ghost wanted = |image: ImageView| is_intermediate(image);
        let mut size: u64 = 0;
        let mut i: usize = 0;
        proof {
            assert(self@.take(0) =~= Seq::empty());
        }
        while i < self.len()
            invariant
                self.wf(),
                wanted == |image: ImageView| is_intermediate(image),
                i <= self@.len(),
                size == if sizes(self@.take(i as int), wanted) <= u64::MAX {
                    sizes(self@.take(i as int), wanted)
                } else {
                    u64::MAX as nat
                },
            decreases self@.len() - i,
        {
            proof {
                assert(self@.take(i + 1).drop_last() =~= self@.take(i as int));
            }
            match self.get_index(i) {
                Some(image) => {
                    if image.summary.repo_tags.len() == 0 {
                        size = size.saturating_add(image.summary.size);
                    }
                },
                None => {},
            }
            i = i + 1;
        }
        proof {
            assert(self@.take(i as int) =~= self@);
        }
        size
    }

    /// Evicts the image with the given ID, if the list holds it: it is removed from the
    /// list, then deleted.
    pub fn remove_image(&mut self, id: &str) -> (changes: Vec<Change<ImageSummary, Members>>)
        requires
            old(self).wf(),
        ensures
            final(self).wf(),
            final(self).is_listing() == old(self).is_listing(),
            final(self).initialized() == old(self).initialized(),
            !ids::<ImageSummary, Members>(final(self)@).contains(id@),
            ids::<ImageSummary, Members>(old(self)@).contains(id@) ==> {
                let i = ids::<ImageSummary, Members>(old(self)@).index_of(id@);
                &&& final(self)@ == old(self)@.remove(i)
                &&& views(changes@) == removal::<ImageSummary, Members>(i, old(self)@[i])
            },
            !ids::<ImageSummary, Members>(old(self)@).contains(id@) ==> {
                &&& final(self)@ == old(self)@
                &&& changes@.len() == 0
            },
    {
        self.remove(id)
    }

    /// Starts a refresh: the list is marked as listing, and its owner is to list the
    /// runtime's images, intermediate ones included. Tells whether the mark is new.
    pub fn refresh(&mut self) -> (changed: bool)
        ensures
            final(self)@ == old(self)@,
            final(self).wf() == old(self).wf(),
            final(self).is_listing(),
            final(self).initialized() == old(self).initialized(),
            changed == !old(self).is_listing(),
    {
        self.set_listing(true)
    }

    /// Ends a refresh with what the listing request came back with: `Some` listing, or
    /// `None` where the request failed.
    pub fn finish_refresh(&mut self, result: Option<Vec<ImageSummary>>) -> (done: Refreshed<
        ImageSummary,
        Members,
    >)
        requires
            old(self).wf(),
        ensures
            final(self).wf(),
            !final(self).is_listing(),
            final(self).initialized(),
            done.listing_changed == old(self).is_listing(),
            done.initialized_changed == !old(self).initialized(),
            done.failed == (result is None),
            result matches Some(response) ==> {
                &&& final(self)@ == refreshed::<ImageSummary, Members>(
                    old(self)@,
                    true,
                    views(response@),
                )
                &&& views(done.changes@) == refresh_changes::<ImageSummary, Members>(
                    old(self)@,
                    true,
                    views(response@),
                )
            },
            result is None ==> final(self)@ == old(self)@ && done.changes@.len() == 0,
    {
        self.apply_refresh(true, result)
    }

    /// Gives the image with the given ID the tag, unless it has it already. Tells whether
    /// the image was intermediate, so that the number of intermediate images changed.
    pub fn tag(&mut self, id: &str, tag: String) -> (intermediates_changed: bool)
        requires
            old(self).wf(),
        ensures
            final(self).wf(),
            final(self).is_listing() == old(self).is_listing(),
            final(self).initialized() == old(self).initialized(),
            final(self)@ == with_tag(old(self)@, id@, tag@),
            intermediates_changed == match find::<ImageSummary, Members>(old(self)@, id@) {
                Some(image) => is_intermediate(image),
                None => false,
            },
            intermediates_of(final(self)@) == intermediates_of(old(self)@) - one_if(
                intermediates_changed,
            ),
    {
        match self.position(id) {
            Some(i) => {
                proof {
                    lemma_count_update(
                        self@,
                        |image: ImageView| is_intermediate(image),
                        i as int,
                        retagged(
                            self@[i as int],
                            with_item(self@[i as int].summary.repo_tags, tag@),
                        ),
                    );
                }
                let image = self.entity_mut(i);
                let was_intermediate = image.summary.repo_tags.len() == 0;
                insert_item(&mut image.summary.repo_tags, tag);
                was_intermediate
            },
            None => false,
        }
    }

    /// Takes the tag from the image with the given ID. Tells whether that left the image
    /// without a tag, so that the number of intermediate images changed.
    pub fn untag(&mut self, id: &str, tag: &str) -> (intermediates_changed: bool)
        requires
            old(self).wf(),
        ensures
            final(self).wf(),
            final(self).is_listing() == old(self).is_listing(),
            final(self).initialized() == old(self).initialized(),
            final(self)@ == without_tag(old(self)@, id@, tag@),
            intermediates_changed == match find::<ImageSummary, Members>(old(self)@, id@) {
                Some(image) => !is_intermediate(image) && without_item(
                    image.summary.repo_tags,
                    tag@,
                ).len() == 0,
                None => false,
            },
            intermediates_of(final(self)@) == intermediates_of(old(self)@) + one_if(
                intermediates_changed,
            ),
    {
        match self.position(id) {
            Some(i) => {
                proof {
                    lemma_count_update(
                        self@,
                        |image: ImageView| is_intermediate(image),
                        i as int,
                        retagged(
                            self@[i as int],
                            without_item(self@[i as int].summary.repo_tags, tag@),
                        ),
                    );
                }
                let image = self.entity_mut(i);
                let was_intermediate = image.summary.repo_tags.len() == 0;
                remove_item(&mut image.summary.repo_tags, tag);
                !was_intermediate && image.summary.repo_tags.len() == 0
            },
            None => false,
        }
    }

    /// Takes in an event about an image.
    ///
    /// `tag` and `untag` change the tags of the image locally; the tag's name is the
    /// event's attribute `name`, for `tag` with `localhost/` before it. `remove` evicts the
    /// image. `build` and `pull` start a refresh. Any other action is unknown.
    pub fn handle_event(&mut self, event: &Event) -> (reaction: Reaction<ImageSummary, Members>)
        requires
            old(self).wf(),
        ensures
            image_reaction(*old(self), *event, *final(self), reaction),
    {
        match classify_image_action(event.action.as_str()) {
            ImageAction::Tag => match event.attribute("name") {
                Some(name) => {
                    let tag = String::from_str("localhost/").concat(name.as_str());
                    let intermediates_changed = self.tag(event.actor_id.as_str(), tag);
                    Reaction::Retagged { intermediates_changed }
                },
                None => Reaction::Invalid,
            },
            ImageAction::Untag => match event.attribute("name") {
                Some(name) => {
                    let intermediates_changed = self.untag(
                        event.actor_id.as_str(),
                        name.as_str(),
                    );
                    Reaction::Retagged { intermediates_changed }
                },
                None => Reaction::Invalid,
            },
            ImageAction::Remove => Reaction::Evicted(self.remove_image(event.actor_id.as_str())),
            ImageAction::Refresh => {
                self.refresh();
                Reaction::Refresh(None)
            },
            ImageAction::Unknown => Reaction::Unknown,
        }
    }
}

} // verus!
