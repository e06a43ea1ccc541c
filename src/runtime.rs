//! What a concurrency substrate offers the units: a way to start independent work.
use vstd::prelude::*;

verus! {

/// A scheduler that units are launched onto.
pub trait Runtime {
    /// A unit of independently progressing work.
    type Work;

    /// Hands `work` to the scheduler, with no way to wait for it.
    fn spawn(work: Self::Work);
}

} // verus!
