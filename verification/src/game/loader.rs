//! A loader for renderers that read image files themselves: it only keeps
//! the order in which ids are to be loaded, one file a frame.

use crate::game::world::{EntityId, World};
use std::path::PathBuf;
use vstd::prelude::*;

verus! {

/// The ids waiting to be loaded. The id asked for last is loaded first.
pub struct Loader {
    queue: Vec<EntityId>,
}

impl Loader {
    /// The ids that wait, in the order in which they were asked for.
    pub closed spec fn waiting(&self) -> Seq<EntityId> {
        self.queue@
    }

    /// No id waits twice.
    pub open spec fn wf(&self) -> bool {
        self.waiting().no_duplicates()
    }

    /// A loader with nothing to do.
    pub fn new() -> (loader: Self)
        ensures
            loader.wf(),
            loader.waiting() == Seq::<EntityId>::empty(),
    {
        Self { queue: Vec::new() }
    }

    /// Asks for `id` to be loaded, unless it already waits.
    pub fn load(&mut self, id: EntityId)
        requires
            old(self).wf(),
        ensures
            final(self).wf(),
            final(self).waiting() == if old(self).waiting().contains(id) {
                old(self).waiting()
            } else {
                old(self).waiting().push(id)
            },
    {
        let mut i: usize = 0;
        while i < self.queue.len()
            invariant
                self.wf(),
                self.waiting() == old(self).waiting(),
                i <= self.queue@.len(),
                forall|k: int| 0 <= k < i ==> self.queue@[k] != id,
            decreases self.queue@.len() - i,
        {
            if self.queue[i] == id {
                return ;
            }
            i += 1;
        }
        self.queue.push(id);
    }

    /// Takes the id asked for last off the queue and says what the caller has
    /// to load for it: the id and its file, where the id is registered and
    /// `world` holds no image of it yet, and nothing otherwise. The caller
    /// reads the file and stores the image with [`World::insert_image`].
    pub fn update<I>(&mut self, world: &World<I>) -> (wanted: Option<(EntityId, PathBuf)>)
        requires
            old(self).wf(),
            world.wf(),
        ensures
            final(self).wf(),
            final(self).waiting() == if old(self).waiting().len() > 0 {
                old(self).waiting().drop_last()
            } else {
                old(self).waiting()
            },
            wanted == if old(self).waiting().len() > 0 && !world@.images.contains_key(
                old(self).waiting().last(),
            ) && old(self).waiting().last() < world@.paths.len() {
                Some((old(self).waiting().last(), world@.paths[old(self).waiting().last() as int]))
            } else {
                None
            },
    {
        match self.queue.pop() {
            Some(id) => {
                if world.get_image(id).is_none() {
                    match world.get_path(id) {
                        Some(path) => Some((id, path.clone())),
                        None => None,
                    }
                } else {
                    None
                }
            },
            None => None,
        }
    }

    /// Whether nothing waits.
    pub fn is_idle(&self) -> (idle: bool)
        ensures
            idle == (self.waiting().len() == 0),
    {
        self.queue.len() == 0
    }
}

} // verus!
