//! The load scheduler: the one place where the frame loop meets the decode
//! workers. It sends each request once, remembers what is in flight, and once
//! a frame moves finished work into the registry. It never waits.

use crate::game::pipeline::{
    consistent, lemma_consistent_others, lemma_consistent_push, others, Outcome, Pipeline,
};
use crate::game::pool::{Task, TaskResult, WorkerEnds};
use crate::game::renderer::{realize, Renderer};
use crate::game::world::{EntityId, World};
use crossbeam_channel::{unbounded, Receiver, Sender};
use std::collections::VecDeque;
use std::path::PathBuf;
use vstd::prelude::*;

verus! {

/// The load scheduler.
pub struct TaskManager {
    sender: Sender<Task>,
    result_receiver: Receiver<TaskResult>,
    queue: VecDeque<EntityId>,
    submitted: Ghost<Seq<Task>>,
}

impl TaskManager {
    /// The ids requested and not yet resolved, oldest first.
    pub closed spec fn in_flight(&self) -> Seq<EntityId> {
        self.queue@
    }

    /// Every request that this scheduler has handed to the workers' channel,
    /// in order.
    pub closed spec fn requests(&self) -> Seq<Task> {
        self.submitted@
    }

    /// The scheduler and `world` as one pipeline.
    pub open spec fn pipeline<I>(&self, world: &World<I>) -> Pipeline<I> {
        Pipeline { registry: world@, in_flight: self.in_flight(), requests: self.requests() }
    }

    /// No id is in flight twice, and every id in flight was asked for.
    pub open spec fn wf(&self) -> bool {
        consistent(self.in_flight(), self.requests())
    }

    /// A scheduler with nothing in flight, and the worker side of its two
    /// new channels. The caller starts the workers on clones of those ends.
    pub fn new() -> (made: (TaskManager, WorkerEnds))
        ensures
            made.0.wf(),
            made.0.in_flight() == Seq::<EntityId>::empty(),
            made.0.requests() == Seq::<Task>::empty(),
    {
        let (sender, tasks) = unbounded::<Task>();
        let (results, result_receiver) = unbounded::<TaskResult>();
        let manager = TaskManager {
            sender,
            result_receiver,
            queue: VecDeque::new(),
            submitted: Ghost(Seq::empty()),
        };
        (manager, WorkerEnds { tasks, results })
    }

    /// Whether `id` is in flight.
    pub fn is_queued(&self, id: EntityId) -> (queued: bool)
        ensures
            queued == self.in_flight().contains(id),
    {
        let mut i: usize = 0;
        while i < self.queue.len()
            invariant
                i <= self.queue@.len(),
                forall|k: int| 0 <= k < i ==> self.queue@[k] != id,
            decreases self.queue@.len() - i,
        {
            if self.queue[i] == id {
                return true;
            }
            i += 1;
        }
        false
    }

    /// Takes `id` out of flight.
    fn forget(&mut self, id: EntityId)
        ensures
            final(self).in_flight() == old(self).in_flight().filter(others(id)),
            final(self).requests() == old(self).requests(),
    {
        let mut kept: VecDeque<EntityId> = VecDeque::new();
        let mut i: usize = 0;
        while i < self.queue.len()
            invariant
                i <= self.queue@.len(),
                kept@ == self.queue@.take(i as int).filter(others(id)),
            decreases self.queue@.len() - i,
        {
            let queued = self.queue[i];
            proof {
                let seen = self.queue@.take(i as int);
                assert(self.queue@.take(i + 1) =~= seen.push(queued));
                seen.lemma_filter_push(queued, others(id));
            }
            if queued != id {
                kept.push_back(queued);
            }
            i += 1;
        }
        assert(self.queue@.take(i as int) =~= self.queue@);
        self.queue = kept;
    }

    /// Requests the image of `id` from the file at `path`, unless `id` is in
    /// flight or `world` already holds its image: then nothing happens.
    /// Otherwise one request goes to the workers and `id` is in flight, behind
    /// the ids requested before it. Returns at once; a channel that no worker
    /// listens to any more takes nothing, and the caller is not told.
    pub fn load<I>(&mut self, world: &World<I>, id: EntityId, path: PathBuf)
        requires
            old(self).wf(),
        ensures
            final(self).wf(),
            final(self).pipeline(world) == old(self).pipeline(world).load(id, path),
    {
        if self.is_queued(id) || world.get_image(id).is_some() {
            return ;
        }
        let task = Task::Load { id, path };
        proof {
            lemma_consistent_push(self.in_flight(), self.requests(), task);
            self.submitted@ = self.submitted@.push(task);
        }
        let _ = self.sender.try_send(task);
        self.queue.push_back(id);
    }

    /// Delivers one result: `image` is what the renderer made of the pixels
    /// decoded for `id`. Where there is an image and `id` is registered, the
    /// image goes into `world` and `id` is out of flight. A result without an
    /// image, or for an id that `world` does not know, is dropped: nothing
    /// changes, and an id in flight stays in flight.
    pub fn resolve<I>(&mut self, world: &mut World<I>, id: EntityId, image: Option<I>)
        requires
            old(self).wf(),
            old(world).wf(),
        ensures
            final(self).wf(),
            final(world).wf(),
            final(self).pipeline(final(world)) == old(self).pipeline(old(world)).deliver(
                Outcome { id, image },
            ),
    {
        match image {
            Some(image) => {
                if id < world.len() {
                    proof {
                        lemma_consistent_others(self.in_flight(), self.requests(), id);
                    }
                    world.insert_image(id, image);
                    self.forget(id);
                }
            },
            None => {},
        }
    }

    /// Moves the results that the workers have finished into `world`: each
    /// result buffered when the call begins is taken from the channel, its
    /// pixels are handed to `renderer`, and the outcome is delivered as by
    /// [`TaskManager::resolve`]. Never waits for a worker. What arrives is up
    /// to the workers and what becomes an image is up to the renderer, so the
    /// contract speaks of some sequence of outcomes, delivered in order.
    pub fn update<R: Renderer>(&mut self, world: &mut World<R::Image>, renderer: &mut R)
        requires
            old(self).wf(),
            old(world).wf(),
        ensures
            final(self).wf(),
            final(world).wf(),
            final(world)@.paths == old(world)@.paths,
            final(self).requests() == old(self).requests(),
            exists|outcomes: Seq<Outcome<R::Image>>|
                final(self).pipeline(final(world)) == old(self).pipeline(old(world)).drain(
                    outcomes,
                ),
    {
        let ghost before = self.pipeline(world);
        let ghost mut outcomes: Seq<Outcome<R::Image>> = Seq::empty();
        let buffered = self.result_receiver.len();
        let mut taken: usize = 0;
        while taken < buffered
            invariant
                self.wf(),
                world.wf(),
                before == old(self).pipeline(old(world)),
                world@.paths == old(world)@.paths,
                self.requests() == old(self).requests(),
                self.pipeline(world) == before.drain(outcomes),
            decreases buffered - taken,
        {
            match self.result_receiver.try_recv() {
                Ok(TaskResult::DecodedImage { id, bytes, width, height }) => {
                    let image = realize(renderer, &bytes, width, height);
                    proof {
                        let outcome = Outcome { id, image };
                        assert(outcomes.push(outcome).drop_last() =~= outcomes);
                        outcomes = outcomes.push(outcome);
                    }
                    self.resolve(world, id, image);
                },
                Err(_) => {
                    return ;
                },
            }
            taken += 1;
        }
    }

    /// Whether nothing is in flight.
    pub fn is_idle(&self) -> (idle: bool)
        ensures
            idle == (self.in_flight().len() == 0),
    {
        self.queue.len() == 0
    }
}

} // verus!
