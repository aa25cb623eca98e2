use crate::error::ArenaError;
use crate::handle::{issues, yields, Handle, HandleView};
use crate::flags::{APAllocFlags, FlagState};
use crate::slot::{lemma_generation_never_decreases, ArenaInner, SlotControl, SlotOp, SlotView};
use vstd::prelude::*;

verus! {

/// What a section is: a ring of slots of fixed capacity, the position of the
/// next write, and how many handles to the section are alive.
pub struct SectionView<T> {
    pub id: nat,
    pub capacity: nat,
    pub slots: Seq<SlotView<T>>,
    pub cursor: nat,
    pub refs: nat,
    pub released: bool,
}

/// One thing that can be done to a section.
pub enum SectionOp<T> {
    /// A claim of the slot under the cursor by a writer that last saw its flag
    /// word as given.
    Claim(FlagState),
    /// A commit of the value to the slot under the cursor.
    Commit(T),
    /// A write of the value at the cursor.
    Push(T),
    /// A write of the value over the one that the generation names in the slot.
    Overwrite(nat, nat, T),
    /// A reader who presents the generation for the slot freezes it.
    Freeze(nat, nat),
    /// An adjustment of the flag word of the slot.
    Control(nat, SlotControl),
    /// The write in flight on the slot is marked as abandoned half way.
    Poison(nat),
    /// The slot is recovered from poisoning.
    Recover(nat),
    /// The reset at the end of a cycle.
    Recycle,
    /// One more handle to the section is issued.
    Retain,
    /// A handle to the section is given back.
    Release,
    /// The storage is freed if nobody holds the section.
    Destroy,
}

impl<T> SectionView<T> {
    /// A section as it is created: every slot untouched, the cursor on the first
    /// slot, and nobody holding it yet.
    pub open spec fn fresh(id: nat, capacity: nat) -> SectionView<T> {
        SectionView {
            id,
            capacity,
            slots: Seq::new(capacity, |i: int| SlotView::empty()),
            cursor: 0,
            refs: 0,
            released: false,
        }
    }

    /// A section of one slot, created around the value in it.
    pub open spec fn holding(id: nat, data: T) -> SectionView<T> {
        SectionView {
            id,
            capacity: 1,
            slots: seq![SlotView::holding(data)],
            cursor: 0,
            refs: 0,
            released: false,
        }
    }

    /// A section created for values that stay: as `fresh`, with every slot
    /// sticky.
    pub open spec fn fresh_static(id: nat, capacity: nat) -> SectionView<T> {
        SectionView {
            slots: Seq::new(
                capacity,
                |i: int| SlotView::<T>::empty().after_control(SlotControl::Stick),
            ),
            ..SectionView::fresh(id, capacity)
        }
    }

    /// The ring holds exactly `capacity` slots until the section is released and
    /// none after; the cursor stays inside the ring; a released section has no
    /// holder left.
    pub open spec fn wf(self) -> bool {
        &&& self.id <= u64::MAX
        &&& self.capacity <= usize::MAX
        &&& self.refs <= usize::MAX
        &&& self.slots.len() == (if self.released {
            0
        } else {
            self.capacity
        })
        &&& self.released ==> self.refs == 0
        &&& self.cursor < self.capacity || self.cursor == 0
        &&& forall|i: int| 0 <= i < self.slots.len() ==> (#[trigger] self.slots[i]).wf()
    }

    /// The slot storage exists and `index` names a slot in it.
    pub open spec fn locate(self, index: nat) -> Result<(), ArenaError> {
        if self.released {
            Err(ArenaError::InvalidHandle)
        } else if index >= self.capacity {
            Err(ArenaError::IndexOutOfBounds)
        } else {
            Ok(())
        }
    }

    /// What a reader gets who presents `generation` for the slot `index`.
    pub open spec fn read(self, index: nat, generation: nat) -> Result<T, ArenaError> {
        match self.locate(index) {
            Err(e) => Err(e),
            Ok(_) => self.slots[index as int].read(generation),
        }
    }

    /// The cursor after one more write: one slot on, and back to the first slot
    /// after the last.
    pub open spec fn next_cursor(self) -> nat {
        ((self.cursor + 1) as nat) % self.capacity
    }

    /// Whether a claim of the slot under the cursor goes through for a writer
    /// that last saw its flag word as `expected`.
    pub open spec fn claim(self, expected: FlagState) -> Result<(), ArenaError> {
        match self.locate(self.cursor) {
            Err(e) => Err(e),
            Ok(_) => self.slots[self.cursor as int].claim(expected),
        }
    }

    /// The section after that claim.
    pub open spec fn after_claim(self, expected: FlagState) -> SectionView<T> {
        if self.locate(self.cursor) is Err {
            self
        } else {
            SectionView {
                slots: self.slots.update(
                    self.cursor as int,
                    self.slots[self.cursor as int].after_claim(expected),
                ),
                ..self
            }
        }
    }

    /// Whether a commit to the slot under the cursor goes through, and the
    /// handle it issues.
    pub open spec fn commit(self) -> Result<HandleView, ArenaError> {
        match self.locate(self.cursor) {
            Err(e) => Err(e),
            Ok(_) => match self.slots[self.cursor as int].commit() {
                Err(e) => Err(e),
                Ok(generation) => Ok(
                    HandleView {
                        section: self.id,
                        slot: self.cursor,
                        generation: generation as nat,
                    },
                ),
            },
        }
    }

    /// The section after a commit of `value` to the slot under the cursor. The
    /// cursor moves on only if the commit went through.
    pub open spec fn after_commit(self, value: T) -> SectionView<T> {
        if self.locate(self.cursor) is Err {
            self
        } else {
            SectionView {
                slots: self.slots.update(
                    self.cursor as int,
                    self.slots[self.cursor as int].after_commit(value),
                ),
                cursor: if self.commit() is Ok {
                    self.next_cursor()
                } else {
                    self.cursor
                },
                ..self
            }
        }
    }

    /// Whether a write at the cursor goes through, and the handle it issues.
    pub open spec fn push(self) -> Result<HandleView, ArenaError> {
        match self.locate(self.cursor) {
            Err(e) => Err(e),
            Ok(_) => match self.slots[self.cursor as int].write() {
                Err(e) => Err(e),
                Ok(generation) => Ok(
                    HandleView {
                        section: self.id,
                        slot: self.cursor,
                        generation: generation as nat,
                    },
                ),
            },
        }
    }

    /// The section after a write of `value` at the cursor. The cursor moves on
    /// only if the write went through.
    pub open spec fn after_push(self, value: T) -> SectionView<T> {
        if self.locate(self.cursor) is Err {
            self
        } else {
            SectionView {
                slots: self.slots.update(
                    self.cursor as int,
                    self.slots[self.cursor as int].after_write(value),
                ),
                cursor: if self.push() is Ok {
                    self.next_cursor()
                } else {
                    self.cursor
                },
                ..self
            }
        }
    }

    /// Whether a write over the value that `generation` names in slot `index`
    /// goes through, and the handle it issues.
    pub open spec fn overwrite(self, index: nat, generation: nat) -> Result<
        HandleView,
        ArenaError,
    > {
        match self.read(index, generation) {
            Err(e) => Err(e),
            Ok(_) => match self.slots[index as int].write() {
                Err(e) => Err(e),
                Ok(next) => Ok(
                    HandleView { section: self.id, slot: index, generation: next as nat },
                ),
            },
        }
    }

    /// The section after that write of `value`. The cursor stays where it is.
    pub open spec fn after_overwrite(self, index: nat, generation: nat, value: T) -> SectionView<
        T,
    > {
        if self.read(index, generation) is Err {
            self
        } else {
            SectionView {
                slots: self.slots.update(index as int, self.slots[index as int].after_write(value)),
                ..self
            }
        }
    }

    /// The generations of the slots, in ring order.
    pub open spec fn generations(self) -> Seq<nat> {
        Seq::new(self.slots.len(), |i: int| self.slots[i].generation)
    }

    /// No slot shows a generation other than 0, `a` and `b`.
    pub open spec fn shows_only(self, a: nat, b: nat) -> bool {
        forall|i: int|
            0 <= i < self.slots.len() ==> (#[trigger] self.slots[i]).generation == 0
                || self.slots[i].generation == a || self.slots[i].generation == b
    }

    /// The slots show at most two generations other than 0 between them. This is
    /// what a ring looks like whose writer moves through it in order: the slots
    /// it has passed in this round are one generation ahead of the rest.
    pub open spec fn two_generations(self) -> bool {
        exists|a: nat, b: nat| self.shows_only(a, b)
    }

    /// The generations other than 0 that the slots show, in the order in which
    /// they first appear, with 0 where there is none.
    pub open spec fn generation_summary(self) -> (nat, nat) {
        let first = first_other(self.generations(), 0);
        (first, first_other(self.generations(), first))
    }

    /// The section after the reset at the end of a cycle: every slot that is not
    /// sticky is emptied and moved to its next generation. The cursor stays.
    pub open spec fn recycled(self) -> SectionView<T> {
        SectionView {
            slots: Seq::new(self.slots.len(), |i: int| self.slots[i].recycled()),
            ..self
        }
    }

    /// The slot storage exists and nobody holds the section yet.
    pub open spec fn unclaimed(self) -> bool {
        !self.released && self.refs == 0
    }

    /// Whether one more handle to the section can be issued.
    pub open spec fn retain(self) -> Result<(), ArenaError> {
        if self.released {
            Err(ArenaError::InvalidHandle)
        } else if self.refs >= usize::MAX {
            Err(ArenaError::CapacityExhausted)
        } else {
            Ok(())
        }
    }

    /// The section after one more handle to it has been issued.
    pub open spec fn after_retain(self) -> SectionView<T> {
        if self.retain() is Ok {
            SectionView { refs: self.refs + 1, ..self }
        } else {
            self
        }
    }

    /// Whether a handle to the section can be given back, and whether it was the
    /// last one.
    pub open spec fn release(self) -> Result<bool, ArenaError> {
        if self.refs == 0 {
            Err(ArenaError::InvalidHandle)
        } else {
            Ok(self.refs == 1)
        }
    }

    /// The section after a handle to it has been given back. With the last
    /// handle the slot storage goes too.
    pub open spec fn after_release(self) -> SectionView<T> {
        if self.refs == 0 {
            self
        } else if self.refs == 1 {
            SectionView { refs: 0, released: true, slots: Seq::empty(), cursor: 0, ..self }
        } else {
            SectionView { refs: (self.refs - 1) as nat, ..self }
        }
    }

    /// The section after its storage has been freed, which happens only while
    /// nobody holds it.
    pub open spec fn destroyed(self) -> SectionView<T> {
        if self.unclaimed() {
            SectionView { released: true, slots: Seq::empty(), cursor: 0, ..self }
        } else {
            self
        }
    }

    /// Whether the adjustment `op` of slot `index` goes through.
    pub open spec fn control(self, index: nat, op: SlotControl) -> Result<bool, ArenaError> {
        match self.locate(index) {
            Err(e) => Err(e),
            Ok(_) => self.slots[index as int].control(op),
        }
    }

    /// The section after the adjustment `op` of slot `index`.
    pub open spec fn after_control(self, index: nat, op: SlotControl) -> SectionView<T> {
        if self.locate(index) is Err {
            self
        } else {
            SectionView {
                slots: self.slots.update(index as int, self.slots[index as int].after_control(op)),
                ..self
            }
        }
    }

    /// Whether a reader who presents `generation` for slot `index` may freeze
    /// the slot, and whether the slot accepts.
    pub open spec fn freeze(self, index: nat, generation: nat) -> Result<bool, ArenaError> {
        match self.read(index, generation) {
            Err(e) => Err(e),
            Ok(_) => self.control(index, SlotControl::Freeze),
        }
    }

    /// The section after that reader's attempt.
    pub open spec fn after_freeze(self, index: nat, generation: nat) -> SectionView<T> {
        if self.read(index, generation) is Err {
            self
        } else {
            self.after_control(index, SlotControl::Freeze)
        }
    }

    /// Whether a write to slot `index` can be marked as abandoned half way, and
    /// whether one was in flight.
    pub open spec fn poison(self, index: nat) -> Result<bool, ArenaError> {
        match self.locate(index) {
            Err(e) => Err(e),
            Ok(_) => Ok(self.slots[index as int].flags.in_flight()),
        }
    }

    /// The section after that.
    pub open spec fn after_poison(self, index: nat) -> SectionView<T> {
        if self.locate(index) is Err {
            self
        } else {
            SectionView {
                slots: self.slots.update(index as int, self.slots[index as int].abandoned()),
                ..self
            }
        }
    }

    /// Whether slot `index` can be recovered, and whether it was poisoned.
    pub open spec fn recover(self, index: nat) -> Result<bool, ArenaError> {
        match self.locate(index) {
            Err(e) => Err(e),
            Ok(_) => Ok(self.slots[index as int].poisoned),
        }
    }

    /// The section after slot `index` has been recovered.
    pub open spec fn after_recover(self, index: nat) -> SectionView<T> {
        if self.locate(index) is Err {
            self
        } else {
            SectionView {
                slots: self.slots.update(index as int, self.slots[index as int].recovered()),
                ..self
            }
        }
    }

    /// The writer is in round `round` of the ring: the slots it has passed hold
    /// values of generation `round`, and each of the others will get one of
    /// generation `round` when the writer reaches it.
    pub open spec fn in_round(self, round: nat) -> bool {
        forall|i: int|
            0 <= i < self.slots.len() ==> if i < self.cursor {
                (#[trigger] self.slots[i]).generation == round && self.slots[i].data is Some
            } else {
                self.slots[i].write_generation() == round
            }
    }

    /// The ring was written in order: every value in it came from a write at the
    /// cursor.
    pub open spec fn ordered(self) -> bool {
        exists|round: nat| self.in_round(round)
    }

    /// The section after `op`.
    pub open spec fn apply(self, op: SectionOp<T>) -> SectionView<T> {
        match op {
            SectionOp::Claim(expected) => self.after_claim(expected),
            SectionOp::Commit(value) => self.after_commit(value),
            SectionOp::Push(value) => self.after_push(value),
            SectionOp::Overwrite(index, generation, value) => self.after_overwrite(
                index,
                generation,
                value,
            ),
            SectionOp::Freeze(index, generation) => self.after_freeze(index, generation),
            SectionOp::Control(index, op) => self.after_control(index, op),
            SectionOp::Poison(index) => self.after_poison(index),
            SectionOp::Recover(index) => self.after_recover(index),
            SectionOp::Recycle => self.recycled(),
            SectionOp::Retain => self.after_retain(),
            SectionOp::Release => self.after_release(),
            SectionOp::Destroy => self.destroyed(),
        }
    }

    /// The section after `n` more handles to it have been issued.
    pub open spec fn retained(self, n: nat) -> SectionView<T>
        decreases n,
    {
        if n == 0 {
            self
        } else {
            self.retained((n - 1) as nat).after_retain()
        }
    }

    /// The section after `n` handles to it have been given back.
    pub open spec fn dropped(self, n: nat) -> SectionView<T>
        decreases n,
    {
        if n == 0 {
            self
        } else {
            self.dropped((n - 1) as nat).after_release()
        }
    }
}

/// The first entry of `gens` that is neither 0 nor `skip`, or 0 if there is none.
pub open spec fn first_other(gens: Seq<nat>, skip: nat) -> nat
    decreases gens.len(),
{
    if gens.len() == 0 {
        0
    } else if gens[0] != 0 && gens[0] != skip {
        gens[0]
    } else {
        first_other(gens.drop_first(), skip)
    }
}

/// `first_other` is the entry at `k` if nothing before `k` qualifies and the
/// entry at `k` does.
pub proof fn lemma_first_other_at(gens: Seq<nat>, skip: nat, k: int)
    requires
        0 <= k < gens.len(),
        gens[k] != 0 && gens[k] != skip,
        forall|j: int| 0 <= j < k ==> gens[j] == 0 || gens[j] == skip,
    ensures
        first_other(gens, skip) == gens[k],
    decreases k,
{
    if k > 0 {
        lemma_first_other_at(gens.drop_first(), skip, k - 1);
    }
}

/// `first_other` is 0 if no entry qualifies.
pub proof fn lemma_first_other_none(gens: Seq<nat>, skip: nat)
    requires
        forall|j: int| 0 <= j < gens.len() ==> gens[j] == 0 || gens[j] == skip,
    ensures
        first_other(gens, skip) == 0,
    decreases gens.len(),
{
    if gens.len() > 0 {
        lemma_first_other_none(gens.drop_first(), skip);
    }
}

/// A fixed-capacity ring of slots that one writer fills: each write goes to the
/// slot under the cursor and moves the cursor on, wrapping over the oldest
/// value once the ring is full.
pub struct APASection<T> {
    id: u64,
    size: usize,
    slots: Vec<ArenaInner<T>>,
    cursor: usize,
    refs: usize,
    released: bool,
}

impl<T> View for APASection<T> {
    type V = SectionView<T>;

    closed spec fn view(&self) -> SectionView<T> {
        SectionView {
            id: self.id as nat,
            capacity: self.size as nat,
            slots: Seq::new(self.slots@.len(), |i: int| self.slots@[i]@),
            cursor: self.cursor as nat,
            refs: self.refs as nat,
            released: self.released,
        }
    }
}

impl<T> APASection<T> {
    /// A section of `size` untouched slots that nobody holds yet.
    pub fn new(id: u64, size: usize) -> (r: APASection<T>)
        ensures
            r@ == SectionView::<T>::fresh(id as nat, size as nat),
            r@.wf(),
    {
        let mut slots: Vec<ArenaInner<T>> = Vec::with_capacity(size);
        let mut filled: usize = 0;
        while filled < size
            invariant
                filled <= size,
                slots@.len() == filled,
                forall|i: int|
                    0 <= i < filled ==> (#[trigger] slots@[i])@ == SlotView::<T>::empty(),
            decreases size - filled,
        {
            slots.push(ArenaInner::empty());
            filled = filled + 1;
        }
        let r = APASection { id, size, slots, cursor: 0, refs: 0, released: false };
        assert(r@.slots =~= SectionView::<T>::fresh(id as nat, size as nat).slots);
        r
    }

    /// A section of one slot around `data`. The next write goes to that slot
    /// again and overwrites the value.
    pub fn holding(id: u64, data: T) -> (r: APASection<T>)
        ensures
            r@ == SectionView::holding(id as nat, data),
            r@.wf(),
    {
        let mut slots: Vec<ArenaInner<T>> = Vec::with_capacity(1);
        slots.push(ArenaInner::new(data));
        let r = APASection { id, size: 1, slots, cursor: 0, refs: 0, released: false };
        assert(r@.slots =~= SectionView::holding(id as nat, data).slots);
        r
    }

    /// A section of `size` untouched slots for values that stay: every slot is
    /// sticky, so the reset at the end of a cycle passes the section by.
    pub fn new_static(id: u64, size: usize) -> (r: APASection<T>)
        ensures
            r@ == SectionView::<T>::fresh_static(id as nat, size as nat),
            r@.wf(),
    {
        let ghost sticky = SlotView::<T>::empty().after_control(SlotControl::Stick);
        let mut slots: Vec<ArenaInner<T>> = Vec::with_capacity(size);
        let mut filled: usize = 0;
        while filled < size
            invariant
                filled <= size,
                slots@.len() == filled,
                sticky == SlotView::<T>::empty().after_control(SlotControl::Stick),
                forall|i: int| 0 <= i < filled ==> (#[trigger] slots@[i])@ == sticky,
            decreases size - filled,
        {
            let mut slot = ArenaInner::empty();
            let _ = slot.control(SlotControl::Stick);
            slots.push(slot);
            filled = filled + 1;
        }
        let r = APASection { id, size, slots, cursor: 0, refs: 0, released: false };
        assert(r@.slots =~= SectionView::<T>::fresh_static(id as nat, size as nat).slots);
        r
    }

    /// The id under which the arena knows the section.
    pub fn id(&self) -> (r: u64)
        ensures
            r == self@.id,
    {
        self.id
    }

    /// The number of slots in the ring, fixed when the section was created.
    pub fn capacity(&self) -> (r: usize)
        ensures
            r == self@.capacity,
    {
        self.size
    }

    /// The slot the next write goes to.
    pub fn cursor(&self) -> (r: usize)
        ensures
            r == self@.cursor,
    {
        self.cursor
    }

    /// The number of handles to the section that are alive.
    pub fn refs(&self) -> (r: usize)
        ensures
            r == self@.refs,
    {
        self.refs
    }

    /// Whether the slot storage has been given back.
    pub fn is_released(&self) -> (r: bool)
        ensures
            r == self@.released,
    {
        self.released
    }

    /// Whether the slot storage exists and has a slot `index`.
    fn locate(&self, index: usize) -> (r: Result<(), ArenaError>)
        ensures
            r == self@.locate(index as nat),
    {
        if self.released {
            Err(ArenaError::InvalidHandle)
        } else if index >= self.size {
            Err(ArenaError::IndexOutOfBounds)
        } else {
            Ok(())
        }
    }

    /// The value in slot `index`, for a reader who presents the slot's live
    /// generation. A reader never waits and never changes anything.
    pub fn read(&self, index: usize, generation: u64) -> (r: Result<&T, ArenaError>)
        requires
            self@.wf(),
        ensures
            yields(r, self@.read(index as nat, generation as nat)),
    {
        if let Err(e) = self.locate(index) {
            return Err(e);
        }
        self.slots[index].read(generation)
    }

    /// The live generation of slot `index`.
    pub fn index_generation(&self, index: usize) -> (r: u64)
        requires
            self@.wf(),
            index < self@.slots.len(),
        ensures
            r == self@.slots[index as int].generation,
    {
        self.slots[index].generation()
    }

    /// Slot `index`, to look at.
    pub fn slot(&self, index: usize) -> (r: Option<&ArenaInner<T>>)
        requires
            self@.wf(),
        ensures
            r is Some <==> index < self@.slots.len(),
            r matches Some(slot) ==> slot@ == self@.slots[index as int] && slot@.wf(),
    {
        if index < self.slots.len() {
            Some(&self.slots[index])
        } else {
            None
        }
    }

    /// Claims the slot under the cursor for a write, provided its flag word is
    /// still what the writer last saw. The write is in flight until `commit`.
    pub fn claim(&mut self, expected_flags: APAllocFlags) -> (r: Result<(), ArenaError>)
        requires
            old(self)@.wf(),
        ensures
            final(self)@.wf(),
            final(self)@ == old(self)@.after_claim(expected_flags@),
            r == old(self)@.claim(expected_flags@),
    {
        let index = self.cursor;
        if let Err(e) = self.locate(index) {
            return Err(e);
        }
        let r = self.slots[index].claim(expected_flags);
        assert(self@.slots =~= old(self)@.after_claim(expected_flags@).slots);
        r
    }

    /// Stores `value` in the slot under the cursor, which finishes the write in
    /// flight there, and moves the cursor on. A slot frozen since the claim
    /// refuses, and nothing is stored.
    pub fn commit(&mut self, value: T) -> (r: Result<Handle, ArenaError>)
        requires
            old(self)@.wf(),
        ensures
            final(self)@.wf(),
            final(self)@ == old(self)@.after_commit(value),
            issues(r, old(self)@.commit()),
    {
        let index = self.cursor;
        if let Err(e) = self.locate(index) {
            return Err(e);
        }
        let written = self.slots[index].commit(value);
        assert(self@.slots =~= old(self)@.slots.update(
            index as int,
            old(self)@.slots[index as int].after_commit(value),
        ));
        match written {
            Ok(generation) => {
                self.cursor = (index + 1) % self.size;
                Ok(Handle::from_parts(self.id, index, generation))
            },
            Err(e) => Err(e),
        }
    }

    /// Writes `value` to the slot under the cursor and moves the cursor on,
    /// wrapping to the first slot after the last. A value that was there is
    /// overwritten and the slot moves to its next generation, which makes every
    /// handle to the old value stale.
    pub fn push(&mut self, value: T) -> (r: Result<Handle, ArenaError>)
        requires
            old(self)@.wf(),
        ensures
            final(self)@.wf(),
            final(self)@ == old(self)@.after_push(value),
            issues(r, old(self)@.push()),
    {
        let index = self.cursor;
        if let Err(e) = self.locate(index) {
            return Err(e);
        }
        let written = self.slots[index].write(value);
        assert(self@.slots =~= old(self)@.slots.update(
            index as int,
            old(self)@.slots[index as int].after_write(value),
        ));
        match written {
            Ok(generation) => {
                self.cursor = (index + 1) % self.size;
                Ok(Handle::from_parts(self.id, index, generation))
            },
            Err(e) => Err(e),
        }
    }

    /// Writes `value` over the value that `generation` names in slot `index`,
    /// and issues the handle to the new value. The cursor stays where it is.
    pub fn update(&mut self, index: usize, generation: u64, value: T) -> (r: Result<
        Handle,
        ArenaError,
    >)
        requires
            old(self)@.wf(),
        ensures
            final(self)@.wf(),
            final(self)@ == old(self)@.after_overwrite(index as nat, generation as nat, value),
            issues(r, old(self)@.overwrite(index as nat, generation as nat)),
    {
        match self.read(index, generation) {
            Err(e) => Err(e),
            Ok(_) => {
                let written = self.slots[index].write(value);
                assert(self@.slots =~= old(self)@.slots.update(
                    index as int,
                    old(self)@.slots[index as int].after_write(value),
                ));
                match written {
                    Ok(next) => Ok(Handle::from_parts(self.id, index, next)),
                    Err(e) => Err(e),
                }
            },
        }
    }

    /// The generations other than 0 that the slots show, in the order in which
    /// they first appear, with 0 where there is none; or `None` if they show more
    /// than two, which happens only in a ring that was written out of order.
    pub fn try_generation_summary(&self) -> (r: Option<(u64, u64)>)
        requires
            self@.wf(),
        ensures
            r is Some <==> self@.two_generations(),
            r matches Some(pair) ==> (pair.0 as nat, pair.1 as nat) == self@.generation_summary(),
    {
        let ghost gens = self@.generations();
        let mut first: u64 = 0;
        let mut second: u64 = 0;
        let ghost mut at_first: int = 0;
        let ghost mut at_second: int = 0;
        let mut i: usize = 0;
        while i < self.slots.len()
            invariant
                i <= self.slots@.len(),
                gens == self@.generations(),
                gens.len() == self.slots@.len(),
                first == 0 ==> second == 0,
                first != 0 ==> 0 <= at_first < i && gens[at_first] == first && forall|j: int|
                    0 <= j < at_first ==> gens[j] == 0,
                second != 0 ==> second != first && 0 <= at_second < i && gens[at_second] == second
                    && forall|j: int| 0 <= j < at_second ==> gens[j] == 0 || gens[j] == first,
                forall|j: int| 0 <= j < i ==> gens[j] == 0 || gens[j] == first || gens[j] == second,
            decreases self.slots@.len() - i,
        {
            let g = self.slots[i].generation();
            if g != 0 && g != first && g != second {
                if first == 0 {
                    first = g;
                    proof {
                        at_first = i as int;
                    }
                } else if second == 0 {
                    second = g;
                    proof {
                        at_second = i as int;
                    }
                } else {
                    proof {
                        if self@.two_generations() {
                            let (a, b) = choose|a: nat, b: nat| self@.shows_only(a, b);
                            assert(self@.slots[at_first].generation == gens[at_first]);
                            assert(self@.slots[at_second].generation == gens[at_second]);
                            assert(self@.slots[i as int].generation == g);
                            assert(false);
                        }
                    }
                    return None;
                }
            }
            i = i + 1;
        }
        proof {
            if first == 0 {
                lemma_first_other_none(gens, 0);
            } else {
                lemma_first_other_at(gens, 0, at_first);
            }
            if second == 0 {
                lemma_first_other_none(gens, first as nat);
            } else {
                lemma_first_other_at(gens, first as nat, at_second);
            }
            assert(self@.shows_only(first as nat, second as nat)) by {
                assert forall|j: int| 0 <= j < gens.len() implies gens[j] == (
                #[trigger] self@.slots[j]).generation by {}
            }
        }
        Some((first, second))
    }

    /// Whether the slots show at most two generations other than 0, as they do
    /// in a ring whose writer moved through it in order.
    pub fn check_generations(&self) -> (r: bool)
        requires
            self@.wf(),
        ensures
            r == self@.two_generations(),
    {
        self.try_generation_summary().is_some()
    }

    /// The generations other than 0 that the slots show, in the order in which
    /// they first appear, with 0 where there is none. A ring that shows a third
    /// one has been written out of order; where that cannot be ruled out, call
    /// `try_generation_summary`.
    pub fn generation_summary(&self) -> (r: (u64, u64))
        requires
            self@.wf(),
            self@.two_generations(),
        ensures
            (r.0 as nat, r.1 as nat) == self@.generation_summary(),
    {
        match self.try_generation_summary() {
            Some(pair) => pair,
            None => (0, 0),
        }
    }

    /// The reset at the end of a cycle: every slot that is not sticky loses its
    /// value, is no longer claimed, frozen or finished, and moves to its next
    /// generation. Sticky slots keep value, generation and flags.
    pub fn recycle(&mut self)
        requires
            old(self)@.wf(),
        ensures
            final(self)@.wf(),
            final(self)@ == old(self)@.recycled(),
    {
        let ghost before = self@;
        let mut i: usize = 0;
        while i < self.slots.len()
            invariant
                i <= self.slots@.len(),
                self@.wf(),
                self@.slots.len() == before.slots.len(),
                self@ == (SectionView { slots: self@.slots, ..before }),
                forall|j: int|
                    0 <= j < i ==> (#[trigger] self@.slots[j]) == before.slots[j].recycled(),
                forall|j: int|
                    i <= j < self@.slots.len() ==> (#[trigger] self@.slots[j]) == before.slots[j],
            decreases self.slots@.len() - i,
        {
            let ghost seen = self@;
            assert(seen.slots[i as int].wf());
            let _ = self.slots[i].recycle();
            assert forall|j: int| 0 <= j < self@.slots.len() && j != i implies (
            #[trigger] self@.slots[j]) == seen.slots[j] by {}
            i = i + 1;
        }
        assert(self@.slots =~= before.recycled().slots);
    }

    /// Counts one more handle to the section.
    pub fn retain(&mut self) -> (r: Result<(), ArenaError>)
        requires
            old(self)@.wf(),
        ensures
            final(self)@.wf(),
            final(self)@ == old(self)@.after_retain(),
            r == old(self)@.retain(),
    {
        if self.released {
            return Err(ArenaError::InvalidHandle);
        }
        if self.refs == usize::MAX {
            return Err(ArenaError::CapacityExhausted);
        }
        self.refs = self.refs + 1;
        Ok(())
    }

    /// Gives one handle to the section back. With the last one the slot storage
    /// is freed, and the result says so.
    pub fn release(&mut self) -> (r: Result<bool, ArenaError>)
        requires
            old(self)@.wf(),
        ensures
            final(self)@.wf(),
            final(self)@ == old(self)@.after_release(),
            r == old(self)@.release(),
    {
        if self.refs == 0 {
            return Err(ArenaError::InvalidHandle);
        }
        self.refs = self.refs - 1;
        if self.refs == 0 {
            self.released = true;
            self.slots = Vec::new();
            self.cursor = 0;
            assert(self@.slots =~= Seq::<SlotView<T>>::empty());
            Ok(true)
        } else {
            Ok(false)
        }
    }

    /// Frees the slot storage of a section that nobody holds, and says whether it
    /// did. A section that is held, or whose storage is gone already, stays as
    /// it is.
    pub fn destroy(&mut self) -> (r: bool)
        requires
            old(self)@.wf(),
        ensures
            final(self)@.wf(),
            final(self)@ == old(self)@.destroyed(),
            r == old(self)@.unclaimed(),
    {
        if !self.released && self.refs == 0 {
            self.released = true;
            self.slots = Vec::new();
            self.cursor = 0;
            assert(self@.slots =~= Seq::<SlotView<T>>::empty());
            true
        } else {
            false
        }
    }

    /// Adjusts the flag word of slot `index` without touching its value, and
    /// says whether the word accepted the adjustment.
    pub fn control(&mut self, index: usize, op: SlotControl) -> (r: Result<bool, ArenaError>)
        requires
            old(self)@.wf(),
        ensures
            final(self)@.wf(),
            final(self)@ == old(self)@.after_control(index as nat, op),
            r == old(self)@.control(index as nat, op),
    {
        if let Err(e) = self.locate(index) {
            return Err(e);
        }
        let r = self.slots[index].control(op);
        assert(self@.slots =~= old(self)@.slots.update(
            index as int,
            old(self)@.slots[index as int].after_control(op),
        ));
        r
    }

    /// Freezes slot `index` for a reader who presents the slot's live
    /// generation, and says whether the slot accepted.
    pub fn freeze(&mut self, index: usize, generation: u64) -> (r: Result<bool, ArenaError>)
        requires
            old(self)@.wf(),
        ensures
            final(self)@.wf(),
            final(self)@ == old(self)@.after_freeze(index as nat, generation as nat),
            r == old(self)@.freeze(index as nat, generation as nat),
    {
        match self.read(index, generation) {
            Err(e) => Err(e),
            Ok(_) => self.control(index, SlotControl::Freeze),
        }
    }

    /// Marks the write in flight on slot `index` as abandoned half way, and says
    /// whether there was one.
    pub fn poison(&mut self, index: usize) -> (r: Result<bool, ArenaError>)
        requires
            old(self)@.wf(),
        ensures
            final(self)@.wf(),
            final(self)@ == old(self)@.after_poison(index as nat),
            r == old(self)@.poison(index as nat),
    {
        if let Err(e) = self.locate(index) {
            return Err(e);
        }
        let r = self.slots[index].poison();
        assert(self@.slots =~= old(self)@.after_poison(index as nat).slots);
        Ok(r)
    }

    /// Recovers slot `index` from poisoning, and says whether it was poisoned.
    pub fn clear_poison(&mut self, index: usize) -> (r: Result<bool, ArenaError>)
        requires
            old(self)@.wf(),
        ensures
            final(self)@.wf(),
            final(self)@ == old(self)@.after_recover(index as nat),
            r == old(self)@.recover(index as nat),
    {
        if let Err(e) = self.locate(index) {
            return Err(e);
        }
        let r = self.slots[index].clear_poison();
        assert(self@.slots =~= old(self)@.after_recover(index as nat).slots);
        Ok(r)
    }
}

/// `first_other` is 0 only if no entry qualifies; otherwise it is an entry that
/// does.
pub proof fn lemma_first_other_is_an_entry(gens: Seq<nat>, skip: nat)
    ensures
        first_other(gens, skip) == 0 ==> forall|j: int|
            0 <= j < gens.len() ==> gens[j] == 0 || gens[j] == skip,
        first_other(gens, skip) != 0 ==> first_other(gens, skip) != skip && exists|k: int|
            0 <= k < gens.len() && gens[k] == first_other(gens, skip),
    decreases gens.len(),
{
    if gens.len() > 0 {
        let rest = gens.drop_first();
        lemma_first_other_is_an_entry(rest, skip);
        if gens[0] != 0 && gens[0] != skip {
            assert(gens[0] == first_other(gens, skip));
        } else {
            if first_other(gens, skip) == 0 {
                assert forall|j: int| 0 <= j < gens.len() implies gens[j] == 0 || gens[j]
                    == skip by {
                    if j > 0 {
                        assert(rest[j - 1] == gens[j]);
                    }
                }
            } else {
                let k = choose|k: int| 0 <= k < rest.len() && rest[k] == first_other(rest, skip);
                assert(gens[k + 1] == first_other(gens, skip));
            }
        }
    }
}

/// The summary of a ring that shows at most two generations names them all:
/// its entries differ unless both are 0, the second is 0 if the first is, every
/// entry other than 0 is the generation of some slot, and no slot shows a
/// generation other than 0 that the summary does not name.
pub proof fn lemma_summary_names_every_generation<T>(section: SectionView<T>)
    requires
        section.two_generations(),
    ensures
        ({
            let (first, second) = section.generation_summary();
            &&& section.shows_only(first, second)
            &&& first == 0 ==> second == 0
            &&& second != 0 ==> second != first
            &&& first != 0 ==> exists|i: int|
                0 <= i < section.slots.len() && section.slots[i].generation == first
            &&& second != 0 ==> exists|i: int|
                0 <= i < section.slots.len() && section.slots[i].generation == second
        }),
{
    let gens = section.generations();
    let (first, second) = section.generation_summary();
    let (a, b) = choose|a: nat, b: nat| section.shows_only(a, b);
    lemma_first_other_is_an_entry(gens, 0);
    lemma_first_other_is_an_entry(gens, first);
    if first != 0 {
        let i = choose|i: int| 0 <= i < gens.len() && gens[i] == first;
        assert(section.slots[i].generation == first);
    }
    if second != 0 {
        let i = choose|i: int| 0 <= i < gens.len() && gens[i] == second;
        assert(section.slots[i].generation == second);
    }
    assert(section.shows_only(first, second)) by {
        assert forall|i: int| 0 <= i < gens.len() implies gens[i] == (
        #[trigger] section.slots[i]).generation by {}
    }
}

/// A section as it is created is in round 0.
pub proof fn lemma_fresh_is_ordered<T>(id: nat, capacity: nat)
    ensures
        SectionView::<T>::fresh(id, capacity).in_round(0),
        SectionView::<T>::fresh(id, capacity).ordered(),
{
    assert(SectionView::<T>::fresh(id, capacity).in_round(0));
}

/// A write at the cursor keeps the ring in order. The handle it issues carries
/// the generation of the round, and the round moves on when the cursor wraps.
pub proof fn lemma_push_keeps_order<T>(section: SectionView<T>, value: T, round: nat)
    requires
        section.wf(),
        section.in_round(round),
        section.push() is Ok,
    ensures
        section.push()->Ok_0.generation == round,
        section.after_push(value).in_round(
            if section.cursor + 1 == section.capacity {
                round + 1
            } else {
                round
            },
        ),
        section.after_push(value).ordered(),
{
    let after = section.after_push(value);
    let at = section.cursor as int;
    assert(section.slots[at].wf());
    assert(section.slots[at].write_generation() == round);
    if section.cursor + 1 == section.capacity {
        assert(section.next_cursor() == 0) by (nonlinear_arith)
            requires
                section.next_cursor() == ((section.cursor + 1) as nat) % section.capacity,
                section.cursor + 1 == section.capacity,
                section.capacity > 0,
        ;
        assert(after.in_round(round + 1)) by {
            assert forall|i: int| 0 <= i < after.slots.len() && i != at implies (
            #[trigger] after.slots[i]).write_generation() == round + 1 by {
                assert(section.slots[i].generation == round);
            }
        }
    } else {
        assert(section.next_cursor() == section.cursor + 1) by (nonlinear_arith)
            requires
                section.next_cursor() == ((section.cursor + 1) as nat) % section.capacity,
                section.cursor + 1 < section.capacity,
        ;
        assert(after.in_round(round)) by {
            assert forall|i: int| 0 <= i < after.slots.len() implies if i < after.cursor {
                (#[trigger] after.slots[i]).generation == round && after.slots[i].data is Some
            } else {
                after.slots[i].write_generation() == round
            } by {
                if i != at {
                    assert(after.slots[i] == section.slots[i]);
                }
            }
        }
    }
}

/// A ring that was written in order shows at most two generations: that of the
/// round and the one before.
pub proof fn lemma_ordered_shows_two_generations<T>(section: SectionView<T>)
    requires
        section.ordered(),
    ensures
        section.two_generations(),
{
    let round = choose|round: nat| section.in_round(round);
    let before = if round == 0 {
        0nat
    } else {
        (round - 1) as nat
    };
    assert(section.shows_only(round, before)) by {
        assert forall|i: int| section.cursor <= i < section.slots.len() implies (
        #[trigger] section.slots[i]).write_generation() == round by {}
    }
}

/// A write at the cursor goes through whenever the ring has a slot there that
/// is not poisoned, not frozen, has no other write in flight and has a
/// generation left to move to, and only then.
pub proof fn lemma_push_goes_through<T>(section: SectionView<T>)
    requires
        section.wf(),
    ensures
        section.push() is Ok <==> !section.released && section.capacity > 0 && {
            let slot = section.slots[section.cursor as int];
            !slot.poisoned && !slot.exhausted() && slot.flags.claimable()
        },
{
}

/// A write at the cursor is a claim by a writer that has just seen the flag
/// word, followed by a commit.
pub proof fn lemma_push_is_claim_then_commit<T>(section: SectionView<T>, value: T)
    requires
        section.wf(),
        section.locate(section.cursor) is Ok,
    ensures
        ({
            let seen = section.slots[section.cursor as int].flags;
            &&& section.claim(seen) is Err ==> section.push() == Err::<HandleView, ArenaError>(
                section.claim(seen)->Err_0,
            ) && section.after_push(value) == section.after_claim(seen)
            &&& section.claim(seen) is Ok ==> section.push() == section.after_claim(seen).commit()
                && section.after_push(value) == section.after_claim(seen).after_commit(value)
        }),
{
    let seen = section.slots[section.cursor as int].flags;
    let claimed = section.after_claim(seen);
    if section.claim(seen) is Ok {
        assert(claimed.after_commit(value).slots =~= section.after_push(value).slots);
    }
}

/// A write at the cursor makes the handle to the value it overwrites stale and
/// touches no other slot: every other handle reads what it read before, and
/// the handle that the write issues reads the new value.
pub proof fn lemma_push_outdates_only_its_slot<T>(
    section: SectionView<T>,
    value: T,
    index: nat,
    generation: nat,
)
    requires
        section.wf(),
        section.push() is Ok,
    ensures
        index != section.cursor ==> section.after_push(value).read(index, generation)
            == section.read(index, generation),
        index == section.cursor && section.read(index, generation) is Ok ==> section.after_push(
            value,
        ).read(index, generation) == Err::<T, ArenaError>(ArenaError::InvalidHandle),
        section.after_push(value).read(
            section.push()->Ok_0.slot,
            section.push()->Ok_0.generation,
        ) == Ok::<T, ArenaError>(value),
{
    assert(section.slots[section.cursor as int].wf());
}

/// Every operation keeps a well-formed section well formed, and none changes
/// its id or its capacity.
pub proof fn lemma_apply_keeps_wf<T>(section: SectionView<T>, op: SectionOp<T>)
    requires
        section.wf(),
    ensures
        section.apply(op).wf(),
        section.apply(op).id == section.id,
        section.apply(op).capacity == section.capacity,
{
    let after = section.apply(op);
    match op {
        SectionOp::Claim(_) | SectionOp::Commit(_) | SectionOp::Push(_) => {
            if section.locate(section.cursor) is Ok {
                assert(section.slots[section.cursor as int].wf());
                if after.cursor != section.cursor {
                    assert(section.next_cursor() < section.capacity) by (nonlinear_arith)
                        requires
                            section.next_cursor() == ((section.cursor + 1) as nat)
                                % section.capacity,
                            section.capacity > 0,
                    ;
                }
            }
        },
        SectionOp::Overwrite(index, _, _) | SectionOp::Freeze(index, _) | SectionOp::Control(
            index,
            _,
        ) | SectionOp::Poison(index) | SectionOp::Recover(index) => {
            if section.locate(index) is Ok {
                assert(section.slots[index as int].wf());
            }
        },
        SectionOp::Recycle => {
            assert forall|i: int| 0 <= i < after.slots.len() implies (
            #[trigger] after.slots[i]).wf() by {
                assert(section.slots[i].wf());
            }
        },
        _ => {},
    }
}

/// No operation takes a slot of the section back to an earlier generation, for
/// as long as the slot exists.
pub proof fn lemma_slot_generations_never_decrease<T>(
    section: SectionView<T>,
    op: SectionOp<T>,
    index: int,
)
    requires
        section.wf(),
        0 <= index < section.apply(op).slots.len(),
    ensures
        index < section.slots.len(),
        section.apply(op).slots[index].generation >= section.slots[index].generation,
{
    let slot = section.slots[index];
    match op {
        SectionOp::Claim(expected) => {
            lemma_generation_never_decreases(slot, SlotOp::Claim(expected));
        },
        SectionOp::Commit(value) => {
            lemma_generation_never_decreases(slot, SlotOp::Commit(value));
        },
        SectionOp::Push(value) => {
            lemma_generation_never_decreases(slot, SlotOp::Write(value));
        },
        SectionOp::Overwrite(_, _, value) => {
            lemma_generation_never_decreases(slot, SlotOp::Write(value));
        },
        SectionOp::Freeze(_, _) => {
            lemma_generation_never_decreases(slot, SlotOp::Control(SlotControl::Freeze));
        },
        SectionOp::Control(_, control) => {
            lemma_generation_never_decreases(slot, SlotOp::Control(control));
        },
        SectionOp::Poison(_) => {
            lemma_generation_never_decreases(slot, SlotOp::Poison);
        },
        SectionOp::Recover(_) => {
            lemma_generation_never_decreases(slot, SlotOp::Recover);
        },
        SectionOp::Recycle => {
            lemma_generation_never_decreases(slot, SlotOp::Recycle);
        },
        _ => {},
    }
}

/// The storage of a section is freed with the last handle that is given back,
/// or on request while nobody holds the section, and in no other way: while
/// more than one handle is alive, nothing frees it.
pub proof fn lemma_storage_goes_with_the_last_holder<T>(section: SectionView<T>, op: SectionOp<T>)
    requires
        section.wf(),
        !section.released,
        section.apply(op).released,
    ensures
        op is Release && section.refs == 1 || op is Destroy && section.refs == 0,
        section.apply(op).refs == 0,
{
}

/// The count of handles changes only when one is issued or given back.
pub proof fn lemma_count_follows_handles<T>(section: SectionView<T>, op: SectionOp<T>)
    requires
        section.wf(),
    ensures
        op is Retain && section.retain() is Ok ==> section.apply(op).refs == section.refs + 1,
        op is Release && section.release() is Ok ==> section.apply(op).refs == section.refs - 1,
        !(op is Retain) && !(op is Release) ==> section.apply(op).refs == section.refs,
{
}

/// While somebody holds a section its storage exists, whole.
pub proof fn lemma_storage_outlives_holders<T>(section: SectionView<T>)
    requires
        section.wf(),
        section.refs > 0,
    ensures
        !section.released,
        section.slots.len() == section.capacity,
{
}

/// Handles that are issued are counted, and nothing else changes.
pub proof fn lemma_retained_counts<T>(section: SectionView<T>, n: nat)
    requires
        !section.released,
        section.refs + n <= usize::MAX,
    ensures
        section.retained(n) == (SectionView { refs: section.refs + n, ..section }),
    decreases n,
{
    if n > 0 {
        lemma_retained_counts(section, (n - 1) as nat);
    }
}

/// The count of a section's handles reaches zero with the last handle that is
/// given back and not before, and the storage is freed then and not before:
/// after fewer returns than there are handles, the section is as it was but
/// for the count.
pub proof fn lemma_dropped_counts<T>(section: SectionView<T>, n: nat)
    requires
        section.wf(),
        n <= section.refs,
    ensures
        n < section.refs ==> section.dropped(n) == (SectionView {
            refs: (section.refs - n) as nat,
            ..section
        }),
        n == section.refs && n > 0 ==> section.dropped(n).released && section.dropped(n).refs == 0
            && section.dropped(n).slots.len() == 0,
        section.dropped(n).wf(),
    decreases n,
{
    if n > 0 {
        lemma_dropped_counts(section, (n - 1) as nat);
    }
}

} // verus!
