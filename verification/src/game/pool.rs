//! The messages exchanged with the decode workers, and the channels that
//! carry them.

use crate::game::world::EntityId;
use crossbeam_channel::{Receiver, Sender, TryRecvError, TrySendError};
use std::path::PathBuf;
use vstd::prelude::*;

verus! {

/// `crossbeam_channel::Sender`, held as an opaque handle.
#[verifier::external_type_specification]
#[verifier::external_body]
#[verifier::reject_recursive_types(T)]
pub struct ExSender<T>(Sender<T>);

/// `crossbeam_channel::Receiver`, held as an opaque handle.
#[verifier::external_type_specification]
#[verifier::external_body]
#[verifier::reject_recursive_types(T)]
pub struct ExReceiver<T>(Receiver<T>);

/// `crossbeam_channel::TrySendError`: why a message was not taken, with the
/// message handed back.
#[verifier::external_type_specification]
#[verifier::reject_recursive_types(T)]
pub struct ExTrySendError<T>(TrySendError<T>);

/// `crossbeam_channel::TryRecvError`: why no message was received.
#[verifier::external_type_specification]
pub struct ExTryRecvError(TryRecvError);

/// `crossbeam_channel::unbounded` makes the two ends of a new channel.
/// Nothing is claimed of them.
pub assume_specification<T>[ crossbeam_channel::unbounded::<T> ]() -> (ends: (
    Sender<T>,
    Receiver<T>,
));

/// `Sender::try_send` returns at once, whatever the channel holds. Whether
/// the message was taken depends on the other threads, so nothing is claimed
/// of the result.
pub assume_specification<T>[ Sender::<T>::try_send ](sender: &Sender<T>, msg: T) -> (sent: Result<
    (),
    TrySendError<T>,
>);

/// `Receiver::try_recv` returns at once with a message or without one. Which
/// depends on the other threads, so nothing is claimed of the result.
pub assume_specification<T>[ Receiver::<T>::try_recv ](receiver: &Receiver<T>) -> (received:
    Result<T, TryRecvError>);

/// `Receiver::len` counts the messages buffered at the moment of the call.
/// Other threads may add to them at any time, so nothing is claimed of the
/// count.
pub assume_specification<T>[ Receiver::<T>::len ](receiver: &Receiver<T>) -> (count: usize);

/// A request to the decode workers.
#[derive(Debug, PartialEq, Eq)]
pub enum Task {
    /// Decode the file at `path` for the asset `id`.
    Load { id: EntityId, path: PathBuf },
}

/// What a decode worker sends back. A failed decode sends nothing.
#[derive(Debug, PartialEq, Eq)]
pub enum TaskResult {
    /// The file of `id` decoded to `width` x `height` pixels, four bytes
    /// each (red, green, blue, alpha), row by row in `bytes`.
    DecodedImage { id: EntityId, bytes: Vec<u8>, width: u32, height: u32 },
}

/// The pixels of one decoded file.
#[derive(Debug, PartialEq, Eq)]
pub struct Decoded {
    /// Four bytes to the pixel (red, green, blue, alpha), row by row.
    pub bytes: Vec<u8>,
    /// Pixels in a row.
    pub width: u32,
    /// Rows.
    pub height: u32,
}

/// What a worker sends back for `task` once the decoder is done with its
/// file: the pixels under the task's id, and nothing at all where the file
/// could not be read or decoded. A failure is never reported and never tried
/// again.
pub fn answer(task: &Task, decoded: Option<Decoded>) -> (result: Option<TaskResult>)
    ensures
        result == match decoded {
            Some(pixels) => Some(
                TaskResult::DecodedImage {
                    id: task->id,
                    bytes: pixels.bytes,
                    width: pixels.width,
                    height: pixels.height,
                },
            ),
            None => None,
        },
{
    match task {
        Task::Load { id, .. } => match decoded {
            Some(pixels) => Some(
                TaskResult::DecodedImage {
                    id: *id,
                    bytes: pixels.bytes,
                    width: pixels.width,
                    height: pixels.height,
                },
            ),
            None => None,
        },
    }
}

/// The worker side of the two channels: where requests arrive and where
/// results go. Each worker holds a clone of both.
pub struct WorkerEnds {
    /// Where the scheduler's requests arrive.
    pub tasks: Receiver<Task>,
    /// Where the workers' results go.
    pub results: Sender<TaskResult>,
}

} // verus!
