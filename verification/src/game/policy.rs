//! Which ids to load around the selection, and how the selection moves.

use crate::game::world::EntityId;
use vstd::prelude::*;

verus! {

/// The ids to load around `selected` among `len` registered ones, most
/// urgent first: the selection itself, the one before it, and up to two
/// after it.
pub open spec fn window(selected: EntityId, len: nat) -> Seq<EntityId> {
    let behind = if selected > 0 {
        seq![(selected - 1) as EntityId]
    } else {
        Seq::empty()
    };
    let ahead = if selected + 1 < len {
        seq![(selected + 1) as EntityId]
    } else {
        Seq::empty()
    };
    let further = if selected + 2 < len {
        seq![(selected + 2) as EntityId]
    } else {
        Seq::empty()
    };
    seq![selected] + behind + ahead + further
}

/// The id to read ahead once nothing is in flight: the first one past the
/// window, where there is one.
pub open spec fn beyond_window(selected: EntityId, len: nat) -> Option<EntityId> {
    if selected + 3 < len {
        Some((selected + 3) as EntityId)
    } else {
        None
    }
}

/// The selection after a step forward: the next id, and from the last one
/// back to the first.
pub open spec fn next_of(selected: EntityId, len: nat) -> EntityId {
    if selected + 1 >= len {
        0
    } else {
        (selected + 1) as EntityId
    }
}

/// The selection after a step back: the id before, and from the first one
/// round to the last. With nothing registered there is nowhere to go.
pub open spec fn previous_of(selected: EntityId, len: nat) -> EntityId {
    if selected > 0 {
        (selected - 1) as EntityId
    } else if len > 0 {
        (len - 1) as EntityId
    } else {
        0
    }
}

/// The keys that act on the browser, each `true` where it went down since
/// the frame before.
#[derive(Clone, Copy, Debug, PartialEq, Eq)]
pub struct Keys {
    /// Step to the next image.
    pub next: bool,
    /// Step to the previous image.
    pub previous: bool,
    /// Switch the tint on or off.
    pub invert: bool,
}

/// The selection after `keys`: a step forward where that key went down, and
/// then a step back where that one did.
pub open spec fn after_keys(selected: EntityId, len: nat, keys: Keys) -> EntityId {
    let forward = if keys.next {
        next_of(selected, len)
    } else {
        selected
    };
    if keys.previous {
        previous_of(forward, len)
    } else {
        forward
    }
}

/// The ids to load around `selected`, most urgent first.
pub fn preload_window(selected: EntityId, len: usize) -> (ids: Vec<EntityId>)
    ensures
        ids@ == window(selected, len as nat),
{
    let mut ids: Vec<EntityId> = Vec::new();
    ids.push(selected);
    if selected > 0 {
        ids.push(selected - 1);
    }
    if selected < len && len - selected > 1 {
        ids.push(selected + 1);
    }
    if selected < len && len - selected > 2 {
        ids.push(selected + 2);
    }
    ids
}

/// The id to read ahead once nothing is in flight.
pub fn look_ahead(selected: EntityId, len: usize) -> (id: Option<EntityId>)
    ensures
        id == beyond_window(selected, len as nat),
{
    if selected < len && len - selected > 3 {
        Some(selected + 3)
    } else {
        None
    }
}

/// The selection after a step forward.
pub fn select_next(selected: EntityId, len: usize) -> (id: EntityId)
    ensures
        id == next_of(selected, len as nat),
{
    if selected < len && len - selected > 1 {
        selected + 1
    } else {
        0
    }
}

/// The selection after a step back.
pub fn select_previous(selected: EntityId, len: usize) -> (id: EntityId)
    ensures
        id == previous_of(selected, len as nat),
{
    if selected > 0 {
        selected - 1
    } else if len > 0 {
        len - 1
    } else {
        0
    }
}

} // verus!
