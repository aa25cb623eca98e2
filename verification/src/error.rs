use vstd::prelude::*;

verus! {

/// Everything an arena operation can report instead of a result.
#[derive(Clone, Copy, PartialEq, Eq, Structural, Debug)]
pub enum ArenaError {
    /// The handle's generation is not the slot's live generation: the slot was
    /// overwritten or recycled after the handle was issued, or it holds no value.
    InvalidHandle,
    /// The arena already holds as many sections as it is allowed to.
    CapacityExhausted,
    /// The slot is frozen for reading, a write to it is still in flight, the
    /// expected flag word was stale, or its generation counter is used up.
    WriteRejected,
    /// The section id or the slot index names nothing in the arena.
    IndexOutOfBounds,
    /// A write to the slot was abandoned half way; the slot refuses every
    /// access until its writer recovers it.
    Poisoned,
    /// A slot waits and nothing will ever wake it. The arena never reports this
    /// by itself; it is the verdict of an outside liveness monitor.
    Deadlock,
}

} // verus!
