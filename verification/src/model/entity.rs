//! Identifiers for the things that the simulation keeps apart.
use vstd::prelude::*;

verus! {

/// Something that has an identifier and takes part in a tick.
pub trait Entity {
    fn entity_id(&self) -> u64;

    fn update(&mut self);
}

/// The source of identifiers: it counts up from zero and starts over after
/// the largest number.
#[derive(Clone, Copy, Debug, PartialEq, Eq, Structural)]
pub struct IdCounter {
    pub next: u64,
}

/// The number after `id`, with zero after the largest.
pub open spec fn successor(id: u64) -> u64 {
    if id == u64::MAX {
        0
    } else {
        (id + 1) as u64
    }
}

impl IdCounter {
    /// A counter that has not given out any identifier.
    pub fn new() -> (counter: IdCounter)
        ensures
            counter.next == 0,
    {
        IdCounter { next: 0 }
    }
}

/// Gives out the next identifier.
pub fn generate_id(counter: &mut IdCounter) -> (id: u64)
    ensures
        id == old(counter).next,
        final(counter).next == successor(id),
{
    let id: u64 = counter.next;
    counter.next = if id == u64::MAX {
        0
    } else {
        id + 1
    };
    id
}

} // verus!
