//! What one look at a background worker's channel finds.
use vstd::prelude::*;

verus! {

/// What a worker thread has to say when the page looks, without waiting:
/// nothing yet, its result, or that it ended without sending one.
pub enum WorkerPoll<T> {
    Pending,
    Done(T),
    Ended,
}

} // verus!
