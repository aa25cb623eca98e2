use crate::error::ArenaError;
use crate::handle::yields;
use crate::flags::{APAllocFlags, FailureMode, FlagState, Transition};
use vstd::prelude::*;

verus! {

/// What a slot is: the value it holds, if any, the generation of that value, the
/// meaning of its flag word, and whether a write to it was abandoned half way.
pub struct SlotView<T> {
    pub data: Option<T>,
    pub generation: nat,
    pub flags: FlagState,
    pub poisoned: bool,
}

/// An adjustment of a slot's flag word that does not touch the value.
#[derive(Clone, Copy, PartialEq, Eq, Structural, Debug)]
pub enum SlotControl {
    /// Freeze the slot for reading.
    Freeze,
    /// Open a new cycle on the slot.
    StartCycle,
    /// Register whoever works on the slot as waiting.
    Park,
    /// Fire the waker.
    Wake,
    /// Exempt the slot from recycling.
    Stick,
    /// Hand the slot back to recycling.
    Unstick,
    /// Select what a writer does when it finds the slot frozen.
    OnContention(FailureMode),
}

impl SlotControl {
    /// The move of the flag protocol that carries the adjustment out.
    pub open spec fn transition(self) -> Transition {
        match self {
            SlotControl::Freeze => Transition::MakeReadOnly,
            SlotControl::StartCycle => Transition::StartCycle,
            SlotControl::Park => Transition::SetWaker,
            SlotControl::Wake => Transition::Wake,
            SlotControl::Stick => Transition::SetSticky,
            SlotControl::Unstick => Transition::ClearSticky,
            SlotControl::OnContention(mode) => Transition::SetFailureMode(mode),
        }
    }
}

/// One thing that can be done to a slot.
pub enum SlotOp<T> {
    /// A claim by a writer that last saw the flag word as given.
    Claim(FlagState),
    /// A commit of the value.
    Commit(T),
    /// A whole write of the value: claim and commit in one go.
    Write(T),
    /// The reset at the end of a cycle.
    Recycle,
    /// The write in flight is marked as abandoned half way.
    Poison,
    /// The slot is recovered from poisoning.
    Recover,
    /// An adjustment of the flag word.
    Control(SlotControl),
}

impl<T> SlotView<T> {
    /// A slot that was never written: no value, generation 0, no flag set.
    pub open spec fn empty() -> SlotView<T> {
        SlotView { data: None, generation: 0, flags: FlagState::empty(), poisoned: false }
    }

    /// A slot created around its first value: generation 0, write cycle finished.
    pub open spec fn holding(data: T) -> SlotView<T> {
        SlotView {
            data: Some(data),
            generation: 0,
            flags: FlagState::empty().claimed().finished(),
            poisoned: false,
        }
    }

    /// A finished write cycle has left a value behind and was not abandoned, and
    /// the generation fits its counter.
    pub open spec fn wf(self) -> bool {
        &&& self.flags.completed ==> self.data is Some && !self.poisoned
        &&& self.generation <= u64::MAX
    }

    /// The generation counter has no value left to move on to. Such a slot takes
    /// no further write.
    pub open spec fn exhausted(self) -> bool {
        self.generation >= u64::MAX
    }

    /// The generation after one more step, which an exhausted counter cannot take.
    pub open spec fn next_generation(self) -> nat {
        if self.exhausted() {
            self.generation
        } else {
            self.generation + 1
        }
    }

    /// The generation of the value that the next write will store: the slot's
    /// own if it is empty, the next one if a value is overwritten.
    pub open spec fn write_generation(self) -> nat {
        if self.data is Some {
            self.generation + 1
        } else {
            self.generation
        }
    }

    /// What a reader gets who presents `generation`: the value, if the slot holds
    /// one of exactly that generation.
    pub open spec fn read(self, generation: nat) -> Result<T, ArenaError> {
        if self.poisoned {
            Err(ArenaError::Poisoned)
        } else if self.data is None || self.generation != generation {
            Err(ArenaError::InvalidHandle)
        } else {
            Ok(self.data->Some_0)
        }
    }

    /// Whether a claim goes through for a writer that last saw the flag word as
    /// `expected`.
    pub open spec fn claim(self, expected: FlagState) -> Result<(), ArenaError> {
        if self.poisoned {
            Err(ArenaError::Poisoned)
        } else if self.flags != expected || self.exhausted() || !self.flags.accepts(
            Transition::Claim,
        ) {
            Err(ArenaError::WriteRejected)
        } else {
            Ok(())
        }
    }

    /// The slot after that claim. A claim with a stale `expected`, or on a
    /// poisoned or exhausted slot, changes nothing.
    pub open spec fn after_claim(self, expected: FlagState) -> SlotView<T> {
        if self.poisoned || self.flags != expected || self.exhausted() {
            self
        } else {
            SlotView { flags: self.flags.step(Transition::Claim), ..self }
        }
    }

    /// Whether a commit goes through, and the generation of the value it stores:
    /// the slot's generation if it held nothing, the next one if it overwrites.
    pub open spec fn commit(self) -> Result<u64, ArenaError> {
        if self.poisoned {
            Err(ArenaError::Poisoned)
        } else if self.exhausted() || !self.flags.accepts(Transition::Complete) {
            Err(ArenaError::WriteRejected)
        } else if self.data is Some {
            Ok((self.generation + 1) as u64)
        } else {
            Ok(self.generation as u64)
        }
    }

    /// The slot after a commit of `value`. A commit that is refused stores
    /// nothing and leaves the generation alone.
    pub open spec fn after_commit(self, value: T) -> SlotView<T> {
        if self.poisoned || self.exhausted() {
            self
        } else if self.flags.accepts(Transition::Complete) {
            SlotView {
                data: Some(value),
                generation: if self.data is Some {
                    self.generation + 1
                } else {
                    self.generation
                },
                flags: self.flags.step(Transition::Complete),
                poisoned: false,
            }
        } else {
            SlotView { flags: self.flags.step(Transition::Complete), ..self }
        }
    }

    /// Whether a whole write, claim and commit in one go, goes through, and the
    /// generation of the value it stores.
    pub open spec fn write(self) -> Result<u64, ArenaError> {
        match self.claim(self.flags) {
            Err(e) => Err(e),
            Ok(_) => self.after_claim(self.flags).commit(),
        }
    }

    /// The slot after a whole write of `value`.
    pub open spec fn after_write(self, value: T) -> SlotView<T> {
        match self.claim(self.flags) {
            Err(_) => self.after_claim(self.flags),
            Ok(_) => self.after_claim(self.flags).after_commit(value),
        }
    }

    /// The slot after the reset at the end of a cycle. A sticky slot is exempt;
    /// any other loses its value and moves to the next generation.
    pub open spec fn recycled(self) -> SlotView<T> {
        if self.flags.sticky {
            self
        } else {
            SlotView {
                data: None,
                generation: self.next_generation(),
                flags: self.flags.recycled(),
                poisoned: self.poisoned,
            }
        }
    }

    /// The slot after its writer has recovered it from poisoning: the value is
    /// gone, the generation has moved on so that no handle issued before fits,
    /// and a new cycle is opened on it unless it is frozen.
    pub open spec fn recovered(self) -> SlotView<T> {
        if self.poisoned {
            SlotView {
                data: None,
                generation: self.next_generation(),
                flags: self.flags.step(Transition::StartCycle),
                poisoned: false,
            }
        } else {
            self
        }
    }

    /// Whether the adjustment `op` goes through.
    pub open spec fn control(self, op: SlotControl) -> Result<bool, ArenaError> {
        if self.poisoned {
            Err(ArenaError::Poisoned)
        } else {
            Ok(self.flags.accepts(op.transition()))
        }
    }

    /// The slot after the adjustment `op`.
    pub open spec fn after_control(self, op: SlotControl) -> SlotView<T> {
        if self.poisoned {
            self
        } else {
            SlotView { flags: self.flags.step(op.transition()), ..self }
        }
    }

    /// The slot after the write in flight, if there is one, has been marked as
    /// abandoned half way.
    pub open spec fn abandoned(self) -> SlotView<T> {
        SlotView { poisoned: self.poisoned || self.flags.in_flight(), ..self }
    }

    /// The slot after `op`.
    pub open spec fn apply(self, op: SlotOp<T>) -> SlotView<T> {
        match op {
            SlotOp::Claim(expected) => self.after_claim(expected),
            SlotOp::Commit(value) => self.after_commit(value),
            SlotOp::Write(value) => self.after_write(value),
            SlotOp::Recycle => self.recycled(),
            SlotOp::Poison => self.abandoned(),
            SlotOp::Recover => self.recovered(),
            SlotOp::Control(op) => self.after_control(op),
        }
    }

    /// The slot after the operations `ops`, carried out in order.
    pub open spec fn run(self, ops: Seq<SlotOp<T>>) -> SlotView<T>
        decreases ops.len(),
    {
        if ops.len() == 0 {
            self
        } else {
            self.run(ops.drop_last()).apply(ops.last())
        }
    }
}

/// Whether `op` can store a value in a slot, or take the value out of one that
/// is not recycled.
pub open spec fn touches_value<T>(op: SlotOp<T>) -> bool {
    op is Commit || op is Write || op is Recover
}

/// One storage cell of the arena: a value, the generation of that value, and
/// the flag word through which every change to the cell goes.
pub struct ArenaInner<T> {
    data: Option<T>,
    gen: u64,
    flags: APAllocFlags,
    poisoned: bool,
}

impl<T> View for ArenaInner<T> {
    type V = SlotView<T>;

    closed spec fn view(&self) -> SlotView<T> {
        SlotView {
            data: self.data,
            generation: self.gen as nat,
            flags: self.flags@,
            poisoned: self.poisoned,
        }
    }
}

impl<T> ArenaInner<T> {
    /// A slot around its first value, at generation 0 with its write cycle
    /// finished.
    pub fn new(data: T) -> (r: ArenaInner<T>)
        ensures
            r@ == SlotView::holding(data),
            r@.wf(),
    {
        let mut flags = APAllocFlags::new();
        let _ = flags.claim();
        let _ = flags.complete();
        ArenaInner { data: Some(data), gen: 0, flags, poisoned: false }
    }

    /// A slot that was never written.
    pub fn empty() -> (r: ArenaInner<T>)
        ensures
            r@ == SlotView::<T>::empty(),
            r@.wf(),
    {
        ArenaInner { data: None, gen: 0, flags: APAllocFlags::new(), poisoned: false }
    }

    /// The slot's live generation.
    pub fn generation(&self) -> (r: u64)
        ensures
            r == self@.generation,
    {
        self.gen
    }

    /// The slot's flag word.
    pub fn flags(&self) -> (r: APAllocFlags)
        ensures
            r@ == self@.flags,
    {
        self.flags
    }

    /// Whether a write to the slot was abandoned half way.
    pub fn is_poisoned(&self) -> (r: bool)
        ensures
            r == self@.poisoned,
    {
        self.poisoned
    }

    /// Stores `data` over the value in the slot and moves the slot to its next
    /// generation.
    fn update(&mut self, data: T)
        requires
            old(self)@.wf(),
            !old(self)@.exhausted(),
        ensures
            final(self)@ == (SlotView {
                data: Some(data),
                generation: old(self)@.generation + 1,
                ..old(self)@
            }),
            final(self)@.wf(),
    {
        self.data = Some(data);
        self.gen = self.gen + 1;
    }

    /// The value, for a reader who presents the slot's live generation.
    pub fn read(&self, generation: u64) -> (r: Result<&T, ArenaError>)
        ensures
            yields(r, self@.read(generation as nat)),
    {
        if self.poisoned {
            return Err(ArenaError::Poisoned);
        }
        if self.gen != generation {
            return Err(ArenaError::InvalidHandle);
        }
        match &self.data {
            Some(v) => Ok(v),
            None => Err(ArenaError::InvalidHandle),
        }
    }

    /// Claims the slot for a write cycle, provided its flag word is still what
    /// the writer last saw.
    pub fn claim(&mut self, expected_flags: APAllocFlags) -> (r: Result<(), ArenaError>)
        requires
            old(self)@.wf(),
        ensures
            r == old(self)@.claim(expected_flags@),
            final(self)@ == old(self)@.after_claim(expected_flags@),
            final(self)@.wf(),
    {
        if self.poisoned {
            return Err(ArenaError::Poisoned);
        }
        if !self.flags.same(&expected_flags) || self.gen == u64::MAX {
            return Err(ArenaError::WriteRejected);
        }
        match self.flags.claim() {
            Ok(_) => Ok(()),
            Err(e) => Err(e),
        }
    }

    /// Stores `value` and finishes the write cycle in flight. The generation
    /// moves on if a value was overwritten. A slot frozen since the claim
    /// refuses, and nothing is stored.
    pub fn commit(&mut self, value: T) -> (r: Result<u64, ArenaError>)
        requires
            old(self)@.wf(),
        ensures
            r == old(self)@.commit(),
            final(self)@ == old(self)@.after_commit(value),
            final(self)@.wf(),
    {
        if self.poisoned {
            return Err(ArenaError::Poisoned);
        }
        if self.gen == u64::MAX {
            return Err(ArenaError::WriteRejected);
        }
        let state = self.flags.state();
        if state.mem_in_use && !state.completed && !state.read_only {
            if self.data.is_some() {
                self.update(value);
            } else {
                self.data = Some(value);
            }
            let _ = self.flags.complete();
            Ok(self.gen)
        } else {
            let _ = self.flags.complete();
            Err(ArenaError::WriteRejected)
        }
    }

    /// A whole write: claim and commit in one go.
    pub fn write(&mut self, value: T) -> (r: Result<u64, ArenaError>)
        requires
            old(self)@.wf(),
        ensures
            r == old(self)@.write(),
            final(self)@ == old(self)@.after_write(value),
            final(self)@.wf(),
    {
        let seen = self.flags;
        match self.claim(seen) {
            Err(e) => Err(e),
            Ok(_) => self.commit(value),
        }
    }

    /// The reset at the end of a cycle. Says whether the slot took part.
    pub fn recycle(&mut self) -> (r: bool)
        requires
            old(self)@.wf(),
        ensures
            r == !old(self)@.flags.sticky,
            final(self)@ == old(self)@.recycled(),
            final(self)@.wf(),
    {
        if self.flags.recycle() {
            self.data = None;
            if self.gen < u64::MAX {
                self.gen = self.gen + 1;
            }
            true
        } else {
            false
        }
    }

    /// Marks the write in flight as abandoned half way. Says whether there was
    /// one.
    pub fn poison(&mut self) -> (r: bool)
        requires
            old(self)@.wf(),
        ensures
            r == old(self)@.flags.in_flight(),
            final(self)@ == old(self)@.abandoned(),
            final(self)@.wf(),
    {
        let state = self.flags.state();
        if state.mem_in_use && !state.completed {
            self.poisoned = true;
            true
        } else {
            false
        }
    }

    /// Recovers a poisoned slot. Says whether it was poisoned.
    pub fn clear_poison(&mut self) -> (r: bool)
        requires
            old(self)@.wf(),
        ensures
            r == old(self)@.poisoned,
            final(self)@ == old(self)@.recovered(),
            final(self)@.wf(),
    {
        if self.poisoned {
            let _ = self.flags.start_cycle();
            self.data = None;
            if self.gen < u64::MAX {
                self.gen = self.gen + 1;
            }
            self.poisoned = false;
            true
        } else {
            false
        }
    }

    /// Adjusts the flag word without touching the value, and says whether the
    /// word accepted the adjustment.
    pub fn control(&mut self, op: SlotControl) -> (r: Result<bool, ArenaError>)
        requires
            old(self)@.wf(),
        ensures
            r == old(self)@.control(op),
            final(self)@ == old(self)@.after_control(op),
            final(self)@.wf(),
    {
        if self.poisoned {
            return Err(ArenaError::Poisoned);
        }
        let accepted = match op {
            SlotControl::Freeze => self.flags.make_ReadOnly(),
            SlotControl::StartCycle => self.flags.start_cycle().is_ok(),
            SlotControl::Park => {
                self.flags.set_Waker();
                true
            },
            SlotControl::Wake => self.flags.wake(),
            SlotControl::Stick => {
                self.flags.set_Sticky();
                true
            },
            SlotControl::Unstick => {
                self.flags.clear_sticky();
                true
            },
            SlotControl::OnContention(mode) => {
                self.flags.set_Failure_Mode(mode);
                true
            },
        };
        Ok(accepted)
    }
}

/// A reader gets the value exactly if it presents the slot's live generation.
pub proof fn lemma_read_checks_generation<T>(slot: SlotView<T>, generation: nat)
    requires
        !slot.poisoned,
        slot.data is Some,
    ensures
        slot.read(generation) is Ok <==> generation == slot.generation,
        slot.read(generation) is Ok ==> slot.read(generation) == Ok::<T, ArenaError>(
            slot.data->Some_0,
        ),
{
}

/// A write over a value moves the slot to the next generation: the handle to
/// the old value is stale from then on, and the handle that the write issues
/// reads the new value.
pub proof fn lemma_write_outdates_handles<T>(slot: SlotView<T>, value: T, generation: nat)
    requires
        slot.wf(),
        slot.write() is Ok,
        slot.read(generation) is Ok,
    ensures
        slot.write()->Ok_0 == slot.generation + 1,
        slot.after_write(value).read(generation) == Err::<T, ArenaError>(
            ArenaError::InvalidHandle,
        ),
        slot.after_write(value).read(slot.write()->Ok_0 as nat) == Ok::<T, ArenaError>(value),
{
}

/// The first write to an empty slot keeps the slot's generation, and the handle
/// it issues reads the value.
pub proof fn lemma_first_write_keeps_generation<T>(slot: SlotView<T>, value: T)
    requires
        slot.wf(),
        slot.write() is Ok,
        slot.data is None,
    ensures
        slot.write()->Ok_0 == slot.generation,
        slot.after_write(value).read(slot.generation) == Ok::<T, ArenaError>(value),
{
}

/// A write goes through exactly on a slot that is not poisoned, not frozen, has
/// no other write in flight and has a generation left to move to.
pub proof fn lemma_write_goes_through<T>(slot: SlotView<T>)
    ensures
        slot.write() is Ok <==> !slot.poisoned && !slot.exhausted() && slot.flags.claimable(),
{
}

/// No operation takes a slot back to an earlier generation.
pub proof fn lemma_generation_never_decreases<T>(slot: SlotView<T>, op: SlotOp<T>)
    ensures
        slot.apply(op).generation >= slot.generation,
{
}

/// Over its whole life a slot's generation only grows.
pub proof fn lemma_generation_is_monotonic<T>(slot: SlotView<T>, ops: Seq<SlotOp<T>>)
    ensures
        slot.run(ops).generation >= slot.generation,
    decreases ops.len(),
{
    if ops.len() > 0 {
        lemma_generation_is_monotonic(slot, ops.drop_last());
        lemma_generation_never_decreases(slot.run(ops.drop_last()), ops.last());
    }
}

/// The generation moves one step at a time, and only when a write overwrites a
/// value or the slot is recycled or recovered: a claim, a refused write, a first
/// write through the protocol and every adjustment of the flag word leave it
/// alone.
pub proof fn lemma_generation_moves_with_value<T>(slot: SlotView<T>, op: SlotOp<T>)
    requires
        slot.apply(op).generation != slot.generation,
    ensures
        slot.apply(op).generation == slot.generation + 1,
        op is Commit || op is Write || op is Recycle || op is Recover,
        op is Commit || op is Write ==> slot.data is Some && slot.apply(op).data is Some,
{
}

/// Every operation keeps a well-formed slot well formed.
pub proof fn lemma_apply_keeps_wf<T>(slot: SlotView<T>, op: SlotOp<T>)
    requires
        slot.wf(),
    ensures
        slot.apply(op).wf(),
{
}

/// The reset at the end of a cycle passes a sticky slot by: value, generation
/// and flags stay what they were.
pub proof fn lemma_recycle_spares_sticky<T>(slot: SlotView<T>)
    requires
        slot.flags.sticky,
    ensures
        slot.recycled() == slot,
{
}

/// The reset at the end of a cycle empties a slot that is not sticky, leaves it
/// neither claimed nor frozen nor finished, and moves it to the next
/// generation, unless its counter is exhausted.
pub proof fn lemma_recycle_resets_others<T>(slot: SlotView<T>)
    requires
        !slot.flags.sticky,
    ensures
        slot.recycled().data is None,
        !slot.recycled().flags.mem_in_use,
        !slot.recycled().flags.read_only,
        !slot.recycled().flags.completed,
        slot.recycled().flags.waiting == slot.flags.waiting,
        slot.recycled().flags.awaiting_waker == slot.flags.awaiting_waker,
        slot.recycled().flags.mode == slot.flags.mode,
        !slot.exhausted() ==> slot.recycled().generation == slot.generation + 1,
        slot.exhausted() ==> slot.recycled().generation == slot.generation,
{
}

/// A sticky slot keeps value and generation through any number of cycles, as
/// long as nothing is written to it and its stickiness is not taken back.
pub proof fn lemma_sticky_survives_cycles<T>(slot: SlotView<T>, ops: Seq<SlotOp<T>>)
    requires
        slot.flags.sticky,
        forall|i: int|
            0 <= i < ops.len() ==> !touches_value(#[trigger] ops[i]) && ops[i] != SlotOp::<
                T,
            >::Control(SlotControl::Unstick),
    ensures
        slot.run(ops).flags.sticky,
        slot.run(ops).data == slot.data,
        slot.run(ops).generation == slot.generation,
    decreases ops.len(),
{
    if ops.len() > 0 {
        lemma_sticky_survives_cycles(slot, ops.drop_last());
        let op = ops.last();
        assert(!touches_value(op));
    }
}

/// A frozen slot turns every writer away: claim, commit and write are refused
/// and leave value and generation alone, and the slot stays frozen.
pub proof fn lemma_frozen_is_immutable<T>(slot: SlotView<T>, op: SlotOp<T>)
    requires
        slot.flags.read_only,
        op is Claim || op is Commit || op is Write,
    ensures
        slot.apply(op).data == slot.data,
        slot.apply(op).generation == slot.generation,
        slot.apply(op).flags.read_only,
        op matches SlotOp::Claim(expected) ==> slot.claim(expected) is Err,
        op is Commit ==> slot.commit() is Err,
        op is Write ==> slot.write() is Err,
{
}

/// When a writer and a freeze race for a slot, the write is either stored
/// whole before the slot freezes, or refused whole because the slot froze
/// first. Here the freeze comes between claim and commit, and nothing is
/// stored.
pub proof fn lemma_freeze_beats_commit<T>(slot: SlotView<T>, value: T)
    requires
        slot.wf(),
        slot.claim(slot.flags) is Ok,
        slot.flags.first_run(),
    ensures
        ({
            let claimed = slot.after_claim(slot.flags);
            let frozen = claimed.after_control(SlotControl::Freeze);
            &&& claimed.control(SlotControl::Freeze) == Ok::<bool, ArenaError>(true)
            &&& frozen.commit() == Err::<u64, ArenaError>(ArenaError::WriteRejected)
            &&& frozen.after_commit(value).data == slot.data
            &&& frozen.after_commit(value).generation == slot.generation
            &&& frozen.after_commit(value).flags.read_only
        }),
{
}

/// Here the commit comes before the freeze: the value is stored whole, and the
/// slot then freezes around it.
pub proof fn lemma_commit_beats_freeze<T>(slot: SlotView<T>, value: T)
    requires
        slot.wf(),
        slot.claim(slot.flags) is Ok,
    ensures
        ({
            let written = slot.after_claim(slot.flags).after_commit(value);
            let frozen = written.after_control(SlotControl::Freeze);
            &&& slot.after_claim(slot.flags).commit() is Ok
            &&& written.control(SlotControl::Freeze) == Ok::<bool, ArenaError>(true)
            &&& frozen.data == Some(value)
            &&& frozen.generation == written.generation
            &&& frozen.flags.read_only
        }),
{
}

/// A poisoned slot refuses every read, claim, commit, write and adjustment
/// with `Poisoned`, and recovery leaves no handle valid that was issued before.
pub proof fn lemma_poison_is_sticky<T>(slot: SlotView<T>, generation: nat, value: T)
    requires
        slot.wf(),
        slot.poisoned,
    ensures
        slot.read(generation) == Err::<T, ArenaError>(ArenaError::Poisoned),
        slot.claim(slot.flags) == Err::<(), ArenaError>(ArenaError::Poisoned),
        slot.commit() == Err::<u64, ArenaError>(ArenaError::Poisoned),
        slot.write() == Err::<u64, ArenaError>(ArenaError::Poisoned),
        forall|op: SlotControl| #[trigger]
            slot.control(op) == Err::<bool, ArenaError>(ArenaError::Poisoned),
        slot.after_write(value) == slot,
        !slot.recovered().poisoned,
        slot.recovered().read(generation) == Err::<T, ArenaError>(ArenaError::InvalidHandle),
{
}

} // verus!
