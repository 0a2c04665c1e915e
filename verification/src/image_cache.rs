//! Images that are fetched once and kept.

use vstd::prelude::*;
use crate::registry::Registry;

verus! {

/// What is known of an image.
pub enum CachedImage<I> {
    /// It is being fetched.
    Loading,
    Ready(I),
    Failed,
}

/// An image that was fetched, or could not be.
pub struct ImageLoaded<I> {
    pub url: String,
    pub image: Option<I>,
}

/// Images by their addresses.
pub struct ImageManager<I> {
    cache: Registry<CachedImage<I>>,
}

/// What is known once an image was asked for.
pub open spec fn after_request<I>(images: Map<Seq<char>, CachedImage<I>>, url: Seq<char>) -> Map<
    Seq<char>,
    CachedImage<I>,
> {
    if images.dom().contains(url) {
        images
    } else {
        images.insert(url, CachedImage::Loading)
    }
}

/// What is known once an image was fetched, or could not be.
pub open spec fn after_loading<I>(
    images: Map<Seq<char>, CachedImage<I>>,
    url: Seq<char>,
    image: Option<I>,
) -> Map<Seq<char>, CachedImage<I>> {
    images.insert(
        url,
        match image {
            Some(image) => CachedImage::Ready(image),
            None => CachedImage::Failed,
        },
    )
}

/// An image is fetched when it is asked for.
pub open spec fn is_to_fetch<I>(images: Map<Seq<char>, CachedImage<I>>, url: Seq<char>) -> bool {
    !images.dom().contains(url)
}

impl<I> ImageManager<I> {
    /// What is known of the images.
    pub closed spec fn images(&self) -> Map<Seq<char>, CachedImage<I>> {
        self.cache@
    }

    /// Each address occurs once.
    pub closed spec fn wf(&self) -> bool {
        self.cache.wf()
    }

    pub fn new() -> (r: Self)
        ensures
            r.wf(),
            r.images() == Map::<Seq<char>, CachedImage<I>>::empty(),
    {
        ImageManager { cache: Registry::new() }
    }

    /// Asks for an image and tells whether it is to be fetched: it is at the first time.
    pub fn request(&mut self, url: &str) -> (r: bool)
        requires
            old(self).wf(),
        ensures
            final(self).wf(),
            r == is_to_fetch(old(self).images(), url@),
            final(self).images() == after_request(old(self).images(), url@),
    {
        if self.cache.contains(url) {
            return false;
        }
        self.cache.put(url, CachedImage::Loading);
        true
    }

    /// The image, once it is there.
    pub fn get(&self, url: &str) -> (r: Option<&I>)
        requires
            self.wf(),
        ensures
            match r {
                Some(image) => self.images().dom().contains(url@) && self.images()[url@]
                    == CachedImage::Ready(*image),
                None => !self.images().dom().contains(url@) || !(self.images()[url@] is Ready),
            },
    {
        match self.cache.get(url) {
            Some(CachedImage::Ready(image)) => Some(image),
            _ => None,
        }
    }

    /// Keeps what was fetched.
    pub fn insert(&mut self, message: ImageLoaded<I>)
        requires
            old(self).wf(),
        ensures
            final(self).wf(),
            final(self).images() == after_loading(
                old(self).images(),
                message.url@,
                message.image,
            ),
    {
        let ghost before = self.cache@;
        let state: CachedImage<I> = match message.image {
            Some(image) => CachedImage::Ready(image),
            None => CachedImage::Failed,
        };
        let _ = self.cache.take(&message.url);
        self.cache.put(&message.url, state);
        assert(self.cache@ =~= before.insert(message.url@, state));
    }
}

/// What happens to the images.
pub enum ImageEvent<I> {
    Request { asked: Seq<char> },
    Insert { loaded: Seq<char>, image: Option<I> },
}

/// What is known after events.
pub open spec fn after_events<I>(
    images: Map<Seq<char>, CachedImage<I>>,
    events: Seq<ImageEvent<I>>,
) -> Map<Seq<char>, CachedImage<I>>
    decreases events.len(),
{
    if events.len() == 0 {
        images
    } else {
        let before = after_events(images, events.drop_last());
        match events.last() {
            ImageEvent::Request { asked } => after_request(before, asked),
            ImageEvent::Insert { loaded, image } => after_loading(before, loaded, image),
        }
    }
}

/// An image is fetched once: after the first request for it no other fetches it, whatever is asked
/// for and whatever arrives in between.
pub proof fn law_an_image_is_fetched_once<I>(
    images: Map<Seq<char>, CachedImage<I>>,
    url: Seq<char>,
    events: Seq<ImageEvent<I>>,
)
    ensures
        !is_to_fetch(after_events(after_request(images, url), events), url),
    decreases events.len(),
{
    if events.len() > 0 {
        law_an_image_is_fetched_once(images, url, events.drop_last());
    }
}

} // verus!
