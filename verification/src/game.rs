//! The browser: registry, load scheduling and selection.

pub mod discovery;
pub mod laws;
pub mod loader;
pub mod pipeline;
pub mod policy;
pub mod pool;
pub mod renderer;
pub mod task_manager;
pub mod world;

use crate::game::discovery::{discover, discovered, Candidate};
use crate::game::pipeline::{Outcome, Pipeline};
use crate::game::policy::{
    after_keys, look_ahead, preload_window, select_next, select_previous, Keys,
};
use crate::game::pool::{Task, WorkerEnds};
use crate::game::renderer::Renderer;
use crate::game::task_manager::TaskManager;
use crate::game::world::{EntityId, Registry, World};
use vstd::prelude::*;

verus! {

/// The browser's state: the images found, the scheduler that loads them, the
/// image on show and whether it is tinted. `I` is the drawable image type of
/// the renderer in use.
pub struct Game<I> {
    world: World<I>,
    task_manager: TaskManager,
    selected: EntityId,
    inverted: bool,
}

impl<I> Game<I> {
    /// The registry and the scheduler as one pipeline.
    pub closed spec fn pipeline(&self) -> Pipeline<I> {
        self.task_manager.pipeline(&self.world)
    }

    /// The id of the image on show.
    pub closed spec fn selection(&self) -> EntityId {
        self.selected
    }

    /// Whether the image on show is tinted.
    pub closed spec fn tinted(&self) -> bool {
        self.inverted
    }

    /// The registry and the scheduler are well-formed, and the selection is a
    /// registered id.
    pub closed spec fn wf(&self) -> bool {
        &&& self.world.wf()
        &&& self.task_manager.wf()
        &&& self.selected < self.world@.paths.len()
    }

    /// A well-formed browser has a well-formed pipeline and something on
    /// show.
    pub proof fn lemma_wf(&self)
        requires
            self.wf(),
        ensures
            self.pipeline().wf(),
            self.selection() < self.pipeline().registry.paths.len(),
    {
        self.world.lemma_images_registered();
    }

    /// A browser of the accepted candidates, with the first one on show,
    /// nothing requested yet and no tint, and the worker side of its
    /// channels. `None` where no candidate is accepted: there is nothing to
    /// browse.
    pub fn new(candidates: &Vec<Candidate>) -> (made: Option<(Self, WorkerEnds)>)
        ensures
            made is Some <==> discovered(candidates@).len() > 0,
            made matches Some((game, _)) ==> {
                &&& game.wf()
                &&& game.selection() == 0
                &&& !game.tinted()
                &&& game.pipeline() == (Pipeline {
                    registry: Registry {
                        paths: discovered(candidates@),
                        images: Map::<EntityId, I>::empty(),
                    },
                    in_flight: Seq::<EntityId>::empty(),
                    requests: Seq::<Task>::empty(),
                })
            },
    {
        let world = discover(candidates);
        if world.len() == 0 {
            return None;
        }
        let (task_manager, ends) = TaskManager::new();
        Some((Game { world, task_manager, selected: 0, inverted: false }, ends))
    }

    /// The id of the image on show.
    pub fn selected(&self) -> (id: EntityId)
        ensures
            id == self.selection(),
    {
        self.selected
    }

    /// Whether the image on show is to be drawn tinted.
    pub fn is_inverted(&self) -> (tinted: bool)
        ensures
            tinted == self.tinted(),
    {
        self.inverted
    }

    /// The registry.
    pub fn world(&self) -> (world: &World<I>)
        ensures
            world@ == self.pipeline().registry,
            self.wf() ==> world.wf(),
    {
        &self.world
    }

    /// Whether nothing is in flight.
    pub fn is_idle(&self) -> (idle: bool)
        ensures
            idle == self.pipeline().idle(),
    {
        self.task_manager.is_idle()
    }

    /// Whether `id` is in flight.
    pub fn is_queued(&self, id: EntityId) -> (queued: bool)
        ensures
            queued == self.pipeline().in_flight.contains(id),
    {
        self.task_manager.is_queued(id)
    }

    /// The image on show, once it is loaded.
    pub fn image(&self) -> (image: Option<&I>)
        ensures
            image == if self.pipeline().registry.images.contains_key(self.selection()) {
                Some(&self.pipeline().registry.images[self.selection()])
            } else {
                None
            },
    {
        self.world.get_image(self.selected)
    }

    /// Moves the selection and the tint as `keys` say. Loading is untouched.
    pub fn input(&mut self, keys: Keys)
        requires
            old(self).wf(),
        ensures
            final(self).wf(),
            final(self).pipeline() == old(self).pipeline(),
            final(self).selection() == after_keys(
                old(self).selection(),
                old(self).pipeline().registry.paths.len(),
                keys,
            ),
            final(self).tinted() == (old(self).tinted() != keys.invert),
    {
        let len = self.world.len();
        if keys.next {
            self.selected = select_next(self.selected, len);
        }
        if keys.previous {
            self.selected = select_previous(self.selected, len);
        }
        if keys.invert {
            self.inverted = !self.inverted;
        }
    }

    /// Requests the image of `id` from its own file, where `id` is
    /// registered, not in flight and without an image.
    pub fn request(&mut self, id: EntityId)
        requires
            old(self).wf(),
        ensures
            final(self).wf(),
            final(self).selection() == old(self).selection(),
            final(self).tinted() == old(self).tinted(),
            final(self).pipeline() == old(self).pipeline().request(id),
    {
        if self.world.get_image(id).is_none() {
            match self.world.get_path(id) {
                Some(path) => {
                    self.task_manager.load(&self.world, id, path.clone());
                },
                None => {},
            }
        }
    }

    /// The requests of a frame's first half: the selection, then its
    /// neighbours.
    pub fn request_window(&mut self)
        requires
            old(self).wf(),
        ensures
            final(self).wf(),
            final(self).selection() == old(self).selection(),
            final(self).tinted() == old(self).tinted(),
            final(self).pipeline() == old(self).pipeline().request_window(old(self).selection()),
    {
        let ids = preload_window(self.selected, self.world.len());
        let ghost before = self.pipeline();
        let mut i: usize = 0;
        while i < ids.len()
            invariant
                i <= ids@.len(),
                self.wf(),
                self.selection() == old(self).selection(),
                self.tinted() == old(self).tinted(),
                self.pipeline() == before.request_all(ids@.take(i as int)),
            decreases ids@.len() - i,
        {
            assert(ids@.take(i + 1).drop_last() =~= ids@.take(i as int));
            self.request(ids[i]);
            i += 1;
        }
        assert(ids@.take(i as int) =~= ids@);
    }

    /// The requests of a frame's second half: the selection once more, and
    /// one id past the window where nothing is in flight.
    pub fn read_ahead(&mut self)
        requires
            old(self).wf(),
        ensures
            final(self).wf(),
            final(self).selection() == old(self).selection(),
            final(self).tinted() == old(self).tinted(),
            final(self).pipeline() == old(self).pipeline().read_ahead(old(self).selection()),
    {
        self.request(self.selected);
        if self.task_manager.is_idle() {
            match look_ahead(self.selected, self.world.len()) {
                Some(id) => {
                    self.request(id);
                },
                None => {},
            }
        }
    }

    /// Delivers one result of a worker: `image` is what the renderer made of
    /// the pixels decoded for `id`, as in [`TaskManager::resolve`].
    pub fn deliver(&mut self, id: EntityId, image: Option<I>)
        requires
            old(self).wf(),
        ensures
            final(self).wf(),
            final(self).selection() == old(self).selection(),
            final(self).tinted() == old(self).tinted(),
            final(self).pipeline() == old(self).pipeline().deliver(Outcome { id, image }),
    {
        self.task_manager.resolve(&mut self.world, id, image);
    }

    /// One frame of loading: the window around the selection is requested,
    /// what the workers have finished is drained, the look-ahead is requested
    /// and what has finished since is drained too. Never waits for a worker.
    pub fn update<R: Renderer<Image = I>>(&mut self, renderer: &mut R, _current_frame: u64)
        requires
            old(self).wf(),
        ensures
            final(self).wf(),
            final(self).selection() == old(self).selection(),
            final(self).tinted() == old(self).tinted(),
            exists|first: Seq<Outcome<I>>, second: Seq<Outcome<I>>|
                final(self).pipeline() == old(self).pipeline().frame(
                    old(self).selection(),
                    first,
                    second,
                ),
    {
        self.request_window();
        let ghost asked = self.pipeline();
        self.task_manager.update(&mut self.world, renderer);
        let ghost first = choose|first: Seq<Outcome<I>>| self.pipeline() == asked.drain(first);
        self.read_ahead();
        let ghost ahead = self.pipeline();
        self.task_manager.update(&mut self.world, renderer);
        let ghost second = choose|second: Seq<Outcome<I>>| self.pipeline() == ahead.drain(second);
        assert(self.pipeline() == old(self).pipeline().frame(old(self).selection(), first, second));
    }
}

} // verus!
