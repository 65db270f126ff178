//! One image of the gallery: its path and what became of decoding it.

use crate::error::GalleryError;
use crate::pixels::{PixelGrid, Pixels};
use vstd::prelude::*;
use vstd::std_specs::convert::FromSpecImpl;

verus! {

/// The outcome of the one decoding attempt an entry gets.
#[derive(Debug)]
pub enum LoadedImage {
    Failed,
    Loaded(Pixels),
}

impl From<Option<Pixels>> for LoadedImage {
    fn from(outcome: Option<Pixels>) -> (loaded: LoadedImage) {
        match outcome {
            None => LoadedImage::Failed,
            Some(pixels) => LoadedImage::Loaded(pixels),
        }
    }
}

impl FromSpecImpl<Option<Pixels>> for LoadedImage {
    open spec fn obeys_from_spec() -> bool {
        true
    }

    open spec fn from_spec(outcome: Option<Pixels>) -> LoadedImage {
        match outcome {
            None => LoadedImage::Failed,
            Some(pixels) => LoadedImage::Loaded(pixels),
        }
    }
}

/// What an entry holds, as contracts see it.
pub enum EntryState {
    /// No decoding attempt was made yet.
    Unloaded,
    /// The attempt was made and failed; it is not made again.
    Failed,
    /// The attempt was made and gave this image.
    Loaded(PixelGrid),
}

impl EntryState {
    /// Whether the decoding attempt was made.
    pub open spec fn resolved(self) -> bool {
        !(self is Unloaded)
    }

    /// The image that the entry can show, if it has one.
    pub open spec fn image(self) -> Option<PixelGrid> {
        match self {
            EntryState::Loaded(grid) => Some(grid),
            _ => None,
        }
    }

    /// The state after a decoding attempt with this outcome is offered to
    /// an entry in this state: only an unloaded entry takes it.
    pub open spec fn resolve(self, outcome: Option<Pixels>) -> EntryState {
        if self is Unloaded {
            committed(outcome)
        } else {
            self
        }
    }
}

/// The state that a decoding attempt with this outcome leaves behind.
pub open spec fn committed(outcome: Option<Pixels>) -> EntryState {
    match outcome {
        None => EntryState::Failed,
        Some(pixels) => EntryState::Loaded(pixels@),
    }
}

/// An entry is resolved once and for all: after the first decoding attempt
/// it is resolved, and whatever a later attempt would give changes nothing.
pub proof fn resolve_once(state: EntryState, first: Option<Pixels>, second: Option<Pixels>)
    ensures
        state.resolve(first).resolved(),
        state.resolve(first).resolve(second) == state.resolve(first),
        state.resolved() ==> state.resolve(first) == state,
{
}

/// An image file and its place in the cache.
#[derive(Debug)]
pub struct ImageFile {
    path: String,
    rgb: Option<LoadedImage>,
}

impl From<String> for ImageFile {
    /// A fresh entry for the image at `path`: nothing was decoded yet.
    fn from(path: String) -> (file: ImageFile)
        ensures
            file.location() == path@,
            file.state() is Unloaded,
    {
        ImageFile { path, rgb: None }
    }
}

impl FromSpecImpl<String> for ImageFile {
    open spec fn obeys_from_spec() -> bool {
        true
    }

    closed spec fn from_spec(path: String) -> ImageFile {
        ImageFile { path, rgb: None }
    }
}

impl ImageFile {
    /// Where the image lies.
    pub closed spec fn location(&self) -> Seq<char> {
        self.path@
    }

    /// What the entry holds.
    pub closed spec fn state(&self) -> EntryState {
        match self.rgb {
            None => EntryState::Unloaded,
            Some(LoadedImage::Failed) => EntryState::Failed,
            Some(LoadedImage::Loaded(pixels)) => EntryState::Loaded(pixels@),
        }
    }

    /// Makes the one decoding attempt of this entry, unless it was made
    /// before.
    pub fn preload<D: FnOnce(&str) -> Option<Pixels>>(&mut self, decode: D)
        requires
            !old(self).state().resolved() ==> forall|path: &str|
                path@ == old(self).location() ==> call_requires(decode, (path,)),
        ensures
            final(self).location() == old(self).location(),
            final(self).state().resolved(),
            old(self).state().resolved() ==> final(self).state() == old(self).state(),
            !old(self).state().resolved() ==> exists|path: &str, outcome: Option<Pixels>|
                path@ == old(self).location() && call_ensures(decode, (path,), outcome)
                    && final(self).state() == old(self).state().resolve(outcome),
    {
        if self.rgb.is_none() {
            let outcome = decode(self.path.as_str());
            self.rgb = Some(LoadedImage::from(outcome));
        }
    }

    /// The path of the image.
    pub fn path(&self) -> (path: &str)
        ensures
            path@ == self.location(),
    {
        self.path.as_str()
    }

    /// Whether the decoding attempt of this entry was made.
    pub fn is_resolved(&self) -> (resolved: bool)
        ensures
            resolved == self.state().resolved(),
    {
        self.rgb.is_some()
    }

    /// The image, where the entry holds one. An entry that failed and one
    /// that was not tried yet both answer `None`.
    pub fn get(&self) -> (image: Option<&Pixels>)
        ensures
            match image {
                Some(pixels) => self.state().image() == Some(pixels@),
                None => self.state().image() is None,
            },
    {
        match &self.rgb {
            Some(LoadedImage::Loaded(pixels)) => Some(pixels),
            _ => None,
        }
    }

    /// The image of this entry, decoded now if no attempt was made before.
    pub fn load<D: FnOnce(&str) -> Option<Pixels>>(&mut self, decode: D) -> (image: Option<Pixels>)
        requires
            !old(self).state().resolved() ==> forall|path: &str|
                path@ == old(self).location() ==> call_requires(decode, (path,)),
        ensures
            final(self).location() == old(self).location(),
            old(self).state().resolved() ==> final(self).state() == old(self).state(),
            !old(self).state().resolved() ==> exists|path: &str, outcome: Option<Pixels>|
                path@ == old(self).location() && call_ensures(decode, (path,), outcome)
                    && final(self).state() == old(self).state().resolve(outcome),
            match image {
                Some(pixels) => final(self).state() == EntryState::Loaded(pixels@),
                None => final(self).state() is Failed,
            },
    {
        self.preload(decode);
        match &self.rgb {
            Some(LoadedImage::Loaded(pixels)) => Some(pixels.clone()),
            _ => None,
        }
    }
}

/// The cache for a list of images: one unloaded entry for each path, in the
/// order given. An empty list is refused.
pub fn cache_for(paths: Vec<String>) -> (made: Result<Vec<ImageFile>, GalleryError>)
    ensures
        match made {
            Ok(files) => {
                &&& paths@.len() > 0
                &&& files@.len() == paths@.len()
                &&& forall|i: int|
                    0 <= i < files@.len() ==> (#[trigger] files@[i]).location() == paths@[i]@
                &&& forall|i: int| 0 <= i < files@.len() ==> (#[trigger] files@[i]).state() is Unloaded
            },
            Err(error) => paths@.len() == 0 && error == GalleryError::EmptySet,
        },
{
    if paths.len() == 0 {
        return Err(GalleryError::EmptySet);
    }
    let mut files: Vec<ImageFile> = Vec::new();
    for path in it: paths
        invariant
            files@.len() == it.index(),
            forall|i: int|
                0 <= i < files@.len() ==> (#[trigger] files@[i]).location() == paths@[i]@,
            forall|i: int| 0 <= i < files@.len() ==> (#[trigger] files@[i]).state() is Unloaded,
    {
        files.push(ImageFile::from(path));
    }
    Ok(files)
}

} // verus!
