//! The loading pipeline as mathematics: what is registered, what is in
//! flight, what has been asked of the workers, and how a `load` or a drained
//! result changes that. The contracts of the scheduler are stated over this
//! model.

use crate::game::policy::{beyond_window, window};
use crate::game::pool::Task;
use crate::game::world::{EntityId, Registry};
use std::path::PathBuf;
use vstd::prelude::*;

verus! {

/// The id that `task` asks for.
pub open spec fn task_id(task: Task) -> EntityId {
    match task {
        Task::Load { id, .. } => id,
    }
}

/// Holds of every queued id but `id`.
pub open spec fn others(id: EntityId) -> spec_fn(EntityId) -> bool {
    |queued: EntityId| queued != id
}

/// Holds of the requests for `id`.
pub open spec fn asks_for(id: EntityId) -> spec_fn(Task) -> bool {
    |task: Task| task_id(task) == id
}

/// How many of `requests` ask for `id`.
pub open spec fn requests_for(requests: Seq<Task>, id: EntityId) -> nat {
    requests.filter(asks_for(id)).len()
}

/// What must hold between the ids in flight and the requests sent: no id is
/// in flight twice, and every id in flight was asked for.
pub open spec fn consistent(in_flight: Seq<EntityId>, requests: Seq<Task>) -> bool {
    &&& in_flight.no_duplicates()
    &&& forall|id: EntityId| in_flight.contains(id) ==> requests_for(requests, id) > 0
}

/// One more request is one more for its id and no fewer for any other.
pub proof fn lemma_requests_for_push(requests: Seq<Task>, task: Task, id: EntityId)
    ensures
        requests_for(requests.push(task), id) == requests_for(requests, id) + if task_id(task)
            == id {
            1nat
        } else {
            0nat
        },
{
    requests.lemma_filter_push(task, asks_for(id));
}

/// Taking `id` out of flight leaves every other id where it was, and leaves
/// `id` nowhere.
pub proof fn lemma_others_contains(in_flight: Seq<EntityId>, id: EntityId, queued: EntityId)
    ensures
        in_flight.filter(others(id)).contains(queued) <==> in_flight.contains(queued) && queued
            != id,
{
    let rest = in_flight.filter(others(id));
    if rest.contains(queued) {
        let k = choose|k: int| 0 <= k < rest.len() && rest[k] == queued;
        in_flight.lemma_filter_pred(others(id), k);
        in_flight.lemma_filter_contains_rev(others(id), queued);
    }
    if in_flight.contains(queued) && queued != id {
        let k = choose|k: int| 0 <= k < in_flight.len() && in_flight[k] == queued;
        in_flight.lemma_filter_contains(others(id), k);
    }
}

/// Taking an id out of flight cannot bring one in twice.
pub proof fn lemma_others_no_duplicates(in_flight: Seq<EntityId>, id: EntityId)
    requires
        in_flight.no_duplicates(),
    ensures
        in_flight.filter(others(id)).no_duplicates(),
    decreases in_flight.len(),
{
    reveal(Seq::filter);
    if in_flight.len() > 0 {
        let front = in_flight.drop_last();
        lemma_others_no_duplicates(front, id);
        let rest = front.filter(others(id));
        if in_flight.last() != id {
            assert(!rest.contains(in_flight.last())) by {
                lemma_others_contains(front, id, in_flight.last());
            }
        }
    }
}

/// Sending a request for an id that is not in flight, and putting the id in
/// flight, keeps the two consistent.
pub proof fn lemma_consistent_push(in_flight: Seq<EntityId>, requests: Seq<Task>, task: Task)
    requires
        consistent(in_flight, requests),
        !in_flight.contains(task_id(task)),
    ensures
        consistent(in_flight.push(task_id(task)), requests.push(task)),
{
    let id = task_id(task);
    assert forall|queued: EntityId| in_flight.push(id).contains(queued) implies requests_for(
        requests.push(task),
        queued,
    ) > 0 by {
        lemma_requests_for_push(requests, task, queued);
        if queued != id {
            let k = choose|k: int| 0 <= k < in_flight.push(id).len() && in_flight.push(id)[k]
                == queued;
            assert(k < in_flight.len());
            assert(in_flight[k] == queued);
            assert(in_flight.contains(queued));
        }
    }
}

/// Taking an id out of flight keeps what is in flight consistent with the
/// requests sent.
pub proof fn lemma_consistent_others(in_flight: Seq<EntityId>, requests: Seq<Task>, id: EntityId)
    requires
        consistent(in_flight, requests),
    ensures
        consistent(in_flight.filter(others(id)), requests),
{
    lemma_others_no_duplicates(in_flight, id);
    assert forall|queued: EntityId|
        in_flight.filter(others(id)).contains(queued) implies requests_for(requests, queued)
        > 0 by {
        lemma_others_contains(in_flight, id, queued);
    }
}

/// One drained result as the scheduler sees it: the id it is for, and the
/// image that the renderer made of its pixels, if it made one.
#[verifier::ext_equal]
pub struct Outcome<I> {
    pub id: EntityId,
    pub image: Option<I>,
}

/// One thing that happens to the pipeline.
pub enum Event<I> {
    /// `load(id, path)` was called.
    Load { id: EntityId, path: PathBuf },
    /// A result was taken from the workers and delivered.
    Drained { outcome: Outcome<I> },
}

/// Where one id stands.
pub enum LoadState {
    /// Neither in flight nor in the registry's image map.
    Unrequested,
    /// A request was sent and no image has been stored yet.
    Requested,
    /// The registry holds an image for it.
    Resolved,
}

/// The registry together with the scheduler's bookkeeping.
#[verifier::ext_equal]
pub struct Pipeline<I> {
    /// Paths and images of the registered ids.
    pub registry: Registry<I>,
    /// The ids requested and not yet resolved, oldest first.
    pub in_flight: Seq<EntityId>,
    /// Every request handed to the workers' channel so far, in order.
    pub requests: Seq<Task>,
}

impl<I> Pipeline<I> {
    /// No id is in flight twice, every id in flight was asked for, and only
    /// registered ids have an image.
    pub open spec fn wf(self) -> bool {
        &&& consistent(self.in_flight, self.requests)
        &&& forall|id: EntityId|
            self.registry.images.contains_key(id) ==> id < self.registry.paths.len()
    }

    /// The state of `id`.
    pub open spec fn state_of(self, id: EntityId) -> LoadState {
        if self.registry.images.contains_key(id) {
            LoadState::Resolved
        } else if self.in_flight.contains(id) {
            LoadState::Requested
        } else {
            LoadState::Unrequested
        }
    }

    /// No id is in flight.
    pub open spec fn idle(self) -> bool {
        self.in_flight.len() == 0
    }

    /// After `load(id, path)`: an unrequested id is appended to the ids in
    /// flight and one request for it is sent; for any other id nothing
    /// changes.
    pub open spec fn load(self, id: EntityId, path: PathBuf) -> Self {
        if self.state_of(id) is Unrequested {
            Pipeline {
                registry: self.registry,
                in_flight: self.in_flight.push(id),
                requests: self.requests.push(Task::Load { id, path }),
            }
        } else {
            self
        }
    }

    /// After `load` of a registered id with its own path; an id that is not
    /// registered is passed over.
    pub open spec fn request(self, id: EntityId) -> Self {
        if id < self.registry.paths.len() {
            self.load(id, self.registry.paths[id as int])
        } else {
            self
        }
    }

    /// After `request` of each of `ids`, first to last.
    pub open spec fn request_all(self, ids: Seq<EntityId>) -> Self
        decreases ids.len(),
    {
        if ids.len() == 0 {
            self
        } else {
            self.request_all(ids.drop_last()).request(ids.last())
        }
    }

    /// After the requests of a frame's first half: every id of the window
    /// around `selected`, most urgent first.
    pub open spec fn request_window(self, selected: EntityId) -> Self {
        self.request_all(window(selected, self.registry.paths.len()))
    }

    /// After the requests of a frame's second half: the selection once more,
    /// and then, only where nothing is in flight, the first id past the
    /// window.
    pub open spec fn read_ahead(self, selected: EntityId) -> Self {
        let asked = self.request(selected);
        match beyond_window(selected, self.registry.paths.len()) {
            Some(id) => if asked.idle() {
                asked.request(id)
            } else {
                asked
            },
            None => asked,
        }
    }

    /// After one frame with `selected` on show, in which `first` were drained
    /// after the window was requested and `second` at the frame's end.
    pub open spec fn frame(
        self,
        selected: EntityId,
        first: Seq<Outcome<I>>,
        second: Seq<Outcome<I>>,
    ) -> Self {
        self.request_window(selected).drain(first).read_ahead(selected).drain(second)
    }

    /// Whether `outcome` resolves its id: the renderer made an image, and the
    /// id is registered.
    pub open spec fn resolves(self, outcome: Outcome<I>) -> bool {
        outcome.image is Some && outcome.id < self.registry.paths.len()
    }

    /// After one drained result: an outcome that resolves its id stores the
    /// image and takes the id out of flight; any other is dropped.
    pub open spec fn deliver(self, outcome: Outcome<I>) -> Self {
        if self.resolves(outcome) {
            Pipeline {
                registry: Registry {
                    paths: self.registry.paths,
                    images: self.registry.images.insert(outcome.id, outcome.image->0),
                },
                in_flight: self.in_flight.filter(others(outcome.id)),
                requests: self.requests,
            }
        } else {
            self
        }
    }

    /// After `event`.
    pub open spec fn step(self, event: Event<I>) -> Self {
        match event {
            Event::Load { id, path } => self.load(id, path),
            Event::Drained { outcome } => self.deliver(outcome),
        }
    }

    /// After each of `events`, first to last.
    pub open spec fn run(self, events: Seq<Event<I>>) -> Self
        decreases events.len(),
    {
        if events.len() == 0 {
            self
        } else {
            self.run(events.drop_last()).step(events.last())
        }
    }

    /// After each of `outcomes` was delivered, first to last.
    pub open spec fn drain(self, outcomes: Seq<Outcome<I>>) -> Self
        decreases outcomes.len(),
    {
        if outcomes.len() == 0 {
            self
        } else {
            self.drain(outcomes.drop_last()).deliver(outcomes.last())
        }
    }
}

} // verus!
