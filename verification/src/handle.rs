use crate::error::ArenaError;
use vstd::prelude::*;

verus! {

/// What a handle says: the section, the slot in it, and the generation the slot
/// had when the handle was issued.
pub struct HandleView {
    pub section: nat,
    pub slot: nat,
    pub generation: nat,
}

/// A weak reference to one value in the arena. A handle owns nothing and is
/// checked on every use; two handles can be compared for equality and nothing
/// else.
#[derive(Clone, Copy, PartialEq, Eq, Structural, Debug)]
pub struct Handle {
    section_id: u64,
    slot_index: usize,
    generation: u64,
}

impl View for Handle {
    type V = HandleView;

    closed spec fn view(&self) -> HandleView {
        HandleView {
            section: self.section_id as nat,
            slot: self.slot_index as nat,
            generation: self.generation as nat,
        }
    }
}

impl Handle {
    /// Puts a handle together from its outside representation.
    pub fn from_parts(section_id: u64, slot_index: usize, generation: u64) -> (r: Handle)
        ensures
            r@ == (HandleView {
                section: section_id as nat,
                slot: slot_index as nat,
                generation: generation as nat,
            }),
    {
        Handle { section_id, slot_index, generation }
    }

    /// The section the handle points into.
    pub fn section_id(&self) -> (r: u64)
        ensures
            r == self@.section,
    {
        self.section_id
    }

    /// The slot the handle points at.
    pub fn slot_index(&self) -> (r: usize)
        ensures
            r == self@.slot,
    {
        self.slot_index
    }

    /// The generation the slot had when the handle was issued.
    pub fn generation(&self) -> (r: u64)
        ensures
            r == self@.generation,
    {
        self.generation
    }
}

/// The outcome `r` of an operation is the handle, or the error, that `expected`
/// says.
pub open spec fn issues(
    r: Result<Handle, ArenaError>,
    expected: Result<HandleView, ArenaError>,
) -> bool {
    match r {
        Ok(h) => expected == Ok::<HandleView, ArenaError>(h@),
        Err(e) => expected == Err::<HandleView, ArenaError>(e),
    }
}

/// The outcome `r` of a read is the value, or the error, that `expected` says.
pub open spec fn yields<T>(r: Result<&T, ArenaError>, expected: Result<T, ArenaError>) -> bool {
    match r {
        Ok(v) => expected == Ok::<T, ArenaError>(*v),
        Err(e) => expected == Err::<T, ArenaError>(e),
    }
}

/// The right to write to one section. It is handed out by the arena, counted by
/// the section, and given back to the arena when its holder is done; the
/// section's storage lives as long as one of them does.
#[derive(Debug)]
pub struct SectionHandle {
    id: u64,
}

impl View for SectionHandle {
    type V = nat;

    closed spec fn view(&self) -> nat {
        self.id as nat
    }
}

impl SectionHandle {
    pub(crate) fn issue(id: u64) -> (r: SectionHandle)
        ensures
            r@ == id,
    {
        SectionHandle { id }
    }

    /// The id of the section the handle stands for.
    pub fn id(&self) -> (r: u64)
        ensures
            r == self@,
    {
        self.id
    }
}

/// A handle is nothing but its three parts: handles that say the same are equal.
pub proof fn lemma_handle_is_its_parts(a: Handle, b: Handle)
    requires
        a@ == b@,
    ensures
        a == b,
{
}

} // verus!
