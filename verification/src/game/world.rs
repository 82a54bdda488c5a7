//! The asset registry: which ids exist, where each one's file lives, and
//! which of them already have a drawable image.

use std::collections::HashMap;
use std::path::PathBuf;
use vstd::prelude::*;

verus! {

broadcast use vstd::std_specs::hash::group_hash_axioms;

/// Stable integer handle of one discovered asset. Ids are handed out densely
/// from zero, in discovery order, and never reused.
pub type EntityId = usize;

/// `std::path::PathBuf`, carried through the registry as an opaque value.
#[verifier::external_type_specification]
#[verifier::external_body]
pub struct ExPathBuf(PathBuf);

/// `Clone::clone` of `std::path::PathBuf`: the copy equals the path it was
/// made of.
pub assume_specification[ <PathBuf as Clone>::clone ](path: &PathBuf) -> (copy: PathBuf)
    ensures
        copy == *path,
;

/// What a registry holds, as mathematics: the source path of every id, in id
/// order, and the image of every id that has one.
#[verifier::ext_equal]
pub struct Registry<I> {
    pub paths: Seq<PathBuf>,
    pub images: Map<EntityId, I>,
}

/// The asset registry. `I` is the drawable image type of the renderer in use.
pub struct World<I> {
    next_id: EntityId,
    assets: HashMap<EntityId, PathBuf>,
    images: HashMap<EntityId, I>,
}

impl<I> View for World<I> {
    type V = Registry<I>;

    closed spec fn view(&self) -> Registry<I> {
        Registry {
            paths: Seq::new(self.next_id as nat, |id: int| self.assets@[id as usize]),
            images: self.images@,
        }
    }
}

impl<I> World<I> {
    /// Ids are dense: exactly the ids below the counter have a path, and only
    /// those can have an image.
    pub closed spec fn wf(&self) -> bool {
        &&& forall|id: EntityId| self.assets@.contains_key(id) <==> id < self.next_id
        &&& forall|id: EntityId| self.images@.contains_key(id) ==> id < self.next_id
    }

    /// Only registered ids have an image.
    pub proof fn lemma_images_registered(&self)
        requires
            self.wf(),
        ensures
            forall|id: EntityId| self@.images.contains_key(id) ==> id < self@.paths.len(),
    {
    }

    /// An empty registry.
    pub fn new() -> (world: Self)
        ensures
            world.wf(),
            world@.paths == Seq::<PathBuf>::empty(),
            world@.images == Map::<EntityId, I>::empty(),
    {
        Self { next_id: 0, assets: HashMap::new(), images: HashMap::new() }
    }

    /// Number of registered assets.
    pub fn len(&self) -> (count: usize)
        ensures
            count == self@.paths.len(),
    {
        self.next_id
    }

    /// Registers `path` under the next free id and returns that id.
    pub fn spawn_asset(&mut self, path: PathBuf) -> (id: EntityId)
        requires
            old(self).wf(),
            old(self)@.paths.len() < usize::MAX,
        ensures
            final(self).wf(),
            id == old(self)@.paths.len(),
            final(self)@.paths == old(self)@.paths.push(path),
            final(self)@.images == old(self)@.images,
    {
        let id = self.next_id;
        self.assets.insert(id, path);
        self.next_id = id + 1;
        id
    }

    /// The source path of `id`, if `id` is registered.
    pub fn get_path(&self, id: EntityId) -> (path: Option<&PathBuf>)
        requires
            self.wf(),
        ensures
            path == if id < self@.paths.len() {
                Some(&self@.paths[id as int])
            } else {
                None
            },
    {
        self.assets.get(&id)
    }

    /// The image of `id`, once one has been stored.
    pub fn get_image(&self, id: EntityId) -> (image: Option<&I>)
        ensures
            image == if self@.images.contains_key(id) {
                Some(&self@.images[id])
            } else {
                None
            },
    {
        self.images.get(&id)
    }

    /// Stores `image` as the image of `id`, replacing an earlier one. An id
    /// that was never registered is ignored.
    pub fn insert_image(&mut self, id: EntityId, image: I)
        requires
            old(self).wf(),
        ensures
            final(self).wf(),
            final(self)@.paths == old(self)@.paths,
            final(self)@.images == if id < old(self)@.paths.len() {
                old(self)@.images.insert(id, image)
            } else {
                old(self)@.images
            },
    {
        if id < self.next_id {
            self.images.insert(id, image);
        }
    }
}

} // verus!
