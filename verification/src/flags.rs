#![allow(non_snake_case)]

use crate::error::ArenaError;
use vstd::prelude::*;

verus! {

/// What a writer does when the slot it wants is frozen for reading.
#[derive(Clone, Copy, PartialEq, Eq, Structural, Debug)]
pub enum FailureMode {
    /// Give the write up; the slot is left exactly as it was.
    Drop,
    /// Register as waiting on the slot and try again once it has been woken.
    Sleep,
}

/// The meaning of a flag word: one boolean for each protocol bit, and the
/// failure mode selected by the two top bits.
#[derive(Clone, Copy, PartialEq, Eq, Structural, Debug)]
pub struct FlagState {
    /// A write cycle has claimed the slot.
    pub mem_in_use: bool,
    /// The slot is frozen: no writer may change it before the next recycle.
    pub read_only: bool,
    /// Whoever works on the slot is blocked on something else.
    pub waiting: bool,
    /// A wake request is registered for the slot.
    pub awaiting_waker: bool,
    /// The current write cycle has finished.
    pub completed: bool,
    /// The slot is exempt from recycling.
    pub sticky: bool,
    /// What a writer does when it finds the slot frozen.
    pub mode: FailureMode,
}

/// One move of the flag protocol.
#[derive(Clone, Copy, PartialEq, Eq, Structural, Debug)]
pub enum Transition {
    /// A writer claims the slot for a write cycle.
    Claim,
    /// The writer finishes the write cycle in flight.
    Complete,
    /// The slot is frozen for reading.
    MakeReadOnly,
    /// A new cycle is opened on the slot.
    StartCycle,
    /// Whoever works on the slot registers as waiting.
    SetWaker,
    /// The waker fires.
    Wake,
    /// The slot is exempted from recycling.
    SetSticky,
    /// The slot is handed back to recycling.
    ClearSticky,
    /// The failure mode is selected.
    SetFailureMode(FailureMode),
    /// The reset at the end of a cycle.
    Recycle,
}

impl FlagState {
    /// The word with no bit set: an untouched slot whose writers drop on contention.
    pub open spec fn empty() -> FlagState {
        FlagState {
            mem_in_use: false,
            read_only: false,
            waiting: false,
            awaiting_waker: false,
            completed: false,
            sticky: false,
            mode: FailureMode::Drop,
        }
    }

    /// The byte that stores this state: bit 0 `MEM_IN_USE`, bit 1 `READ_ONLY`,
    /// bit 2 `WAITING`, bit 3 `AWAITING_WAKER`, bit 4 `COMPLETED`, bit 5 `STICKY`,
    /// bits 6 and 7 the failure mode (`00` drop, `01` sleep).
    pub open spec fn encode(self) -> int {
        (if self.mem_in_use { 1int } else { 0 })
            + (if self.read_only { 2int } else { 0 })
            + (if self.waiting { 4int } else { 0 })
            + (if self.awaiting_waker { 8int } else { 0 })
            + (if self.completed { 16int } else { 0 })
            + (if self.sticky { 32int } else { 0 })
            + (if self.mode == FailureMode::Sleep { 64int } else { 0 })
    }

    /// A write cycle is under way: claimed and not yet finished.
    pub open spec fn in_flight(self) -> bool {
        self.mem_in_use && !self.completed
    }

    /// A new write cycle may claim the slot: it is not frozen, and it is either
    /// untouched or its last cycle has finished.
    pub open spec fn claimable(self) -> bool {
        !self.read_only && !self.in_flight()
    }

    /// Nobody waits on the slot and no wake request is pending.
    pub open spec fn first_run(self) -> bool {
        !self.waiting && !self.awaiting_waker
    }

    /// The state once a writer has registered as waiting.
    pub open spec fn parked(self) -> FlagState {
        FlagState { waiting: true, awaiting_waker: true, ..self }
    }

    /// The state a frozen slot is left in when it turns a writer away: untouched
    /// under `Drop`, with the writer registered as waiting under `Sleep`.
    pub open spec fn turned_away(self) -> FlagState {
        match self.mode {
            FailureMode::Drop => self,
            FailureMode::Sleep => self.parked(),
        }
    }

    /// The state once a write cycle has claimed the slot.
    pub open spec fn claimed(self) -> FlagState {
        FlagState { mem_in_use: true, completed: false, ..self }
    }

    /// The state once the write cycle has finished; finishing ends every wait.
    pub open spec fn finished(self) -> FlagState {
        FlagState { completed: true, waiting: false, awaiting_waker: false, ..self }
    }

    /// The state once the waker has fired.
    pub open spec fn woken(self) -> FlagState {
        FlagState { waiting: false, awaiting_waker: false, ..self }
    }

    /// The state at the start of a new cycle: neither claimed nor finished.
    pub open spec fn restarted(self) -> FlagState {
        FlagState { mem_in_use: false, completed: false, ..self }
    }

    /// The state after the reset at the end of a cycle. A sticky slot is exempt.
    pub open spec fn recycled(self) -> FlagState {
        if self.sticky {
            self
        } else {
            FlagState { mem_in_use: false, read_only: false, completed: false, ..self }
        }
    }

    /// Whether the word accepts the transition `t`. A transition that is not
    /// accepted leaves the word as it is, except that a frozen slot in `Sleep`
    /// mode registers the writer it turns away.
    pub open spec fn accepts(self, t: Transition) -> bool {
        match t {
            Transition::Claim => self.claimable(),
            Transition::Complete => self.in_flight() && !self.read_only,
            Transition::MakeReadOnly => self.first_run(),
            Transition::StartCycle => !self.read_only,
            Transition::SetWaker => true,
            Transition::Wake => self.awaiting_waker,
            Transition::SetSticky => true,
            Transition::ClearSticky => true,
            Transition::SetFailureMode(_) => true,
            Transition::Recycle => !self.sticky,
        }
    }

    /// The transition table of the protocol: the state that `t` leaves behind.
    pub open spec fn step(self, t: Transition) -> FlagState {
        match t {
            Transition::Claim => if self.claimable() {
                self.claimed()
            } else if self.read_only {
                self.turned_away()
            } else {
                self
            },
            Transition::Complete => if !self.in_flight() {
                self
            } else if self.read_only {
                self.turned_away()
            } else {
                self.finished()
            },
            Transition::MakeReadOnly => if self.first_run() {
                FlagState { read_only: true, ..self }
            } else {
                self
            },
            Transition::StartCycle => if self.read_only {
                self
            } else {
                self.restarted()
            },
            Transition::SetWaker => self.parked(),
            Transition::Wake => if self.awaiting_waker {
                self.woken()
            } else {
                self
            },
            Transition::SetSticky => FlagState { sticky: true, ..self },
            Transition::ClearSticky => FlagState { sticky: false, ..self },
            Transition::SetFailureMode(mode) => FlagState { mode: mode, ..self },
            Transition::Recycle => self.recycled(),
        }
    }

    /// The state after the transitions `ts`, carried out in order.
    pub open spec fn run(self, ts: Seq<Transition>) -> FlagState
        decreases ts.len(),
    {
        if ts.len() == 0 {
            self
        } else {
            self.run(ts.drop_last()).step(ts.last())
        }
    }
}

/// The meaning of the byte `bits`, read bit by bit.
pub open spec fn decode(bits: u8) -> FlagState {
    FlagState {
        mem_in_use: bits & 1 != 0,
        read_only: bits & 2 != 0,
        waiting: bits & 4 != 0,
        awaiting_waker: bits & 8 != 0,
        completed: bits & 16 != 0,
        sticky: bits & 32 != 0,
        mode: if bits & 64 != 0 {
            FailureMode::Sleep
        } else {
            FailureMode::Drop
        },
    }
}

/// The flag word of one slot. Bit 7 belongs to failure modes that do not exist
/// yet and is always clear.
#[derive(Clone, Copy, Debug)]
pub struct APAllocFlags(u8);

impl View for APAllocFlags {
    type V = FlagState;

    closed spec fn view(&self) -> FlagState {
        decode(self.0)
    }
}

/// Whether `mask` is one of the seven bits that carry meaning.
spec fn is_flag(mask: u8) -> bool {
    mask == 1 || mask == 2 || mask == 4 || mask == 8 || mask == 16 || mask == 32 || mask == 64
}

impl FlagState {
    /// The state with the bit `mask` set or cleared, and every other bit as it
    /// is.
    spec fn with_bit(self, mask: u8, on: bool) -> FlagState {
        if mask == 1 {
            FlagState { mem_in_use: on, ..self }
        } else if mask == 2 {
            FlagState { read_only: on, ..self }
        } else if mask == 4 {
            FlagState { waiting: on, ..self }
        } else if mask == 8 {
            FlagState { awaiting_waker: on, ..self }
        } else if mask == 16 {
            FlagState { completed: on, ..self }
        } else if mask == 32 {
            FlagState { sticky: on, ..self }
        } else if mask == 64 {
            FlagState {
                mode: if on {
                    FailureMode::Sleep
                } else {
                    FailureMode::Drop
                },
                ..self
            }
        } else {
            self
        }
    }
}

/// A byte without bit 7 is the byte that stores its own meaning.
proof fn lemma_encode_decode(bits: u8)
    requires
        bits & 128 == 0,
    ensures
        decode(bits).encode() == bits,
{
    lemma_bits_add_up(bits);
}

/// A byte without bit 7 is the sum of its seven low bits.
proof fn lemma_bits_add_up(bits: u8)
    by (bit_vector)
    requires
        bits & 128 == 0,
    ensures
        bits == (bits & 1) + (bits & 2) + (bits & 4) + (bits & 8) + (bits & 16) + (bits & 32) + (
        bits & 64),
        bits & 1 == 0 || bits & 1 == 1,
        bits & 2 == 0 || bits & 2 == 2,
        bits & 4 == 0 || bits & 4 == 4,
        bits & 8 == 0 || bits & 8 == 8,
        bits & 16 == 0 || bits & 16 == 16,
        bits & 32 == 0 || bits & 32 == 32,
        bits & 64 == 0 || bits & 64 == 64,
{
}

/// Setting one of the seven bits leaves the other seven alone.
proof fn lemma_set_touches_one_bit(bits: u8, mask: u8)
    by (bit_vector)
    requires
        mask == 1 || mask == 2 || mask == 4 || mask == 8 || mask == 16 || mask == 32 || mask == 64,
    ensures
        (bits | mask) & mask != 0,
        mask != 1 ==> (bits | mask) & 1 == bits & 1,
        mask != 2 ==> (bits | mask) & 2 == bits & 2,
        mask != 4 ==> (bits | mask) & 4 == bits & 4,
        mask != 8 ==> (bits | mask) & 8 == bits & 8,
        mask != 16 ==> (bits | mask) & 16 == bits & 16,
        mask != 32 ==> (bits | mask) & 32 == bits & 32,
        mask != 64 ==> (bits | mask) & 64 == bits & 64,
        (bits | mask) & 128 == bits & 128,
{
}

/// Clearing one of the seven bits leaves the other seven alone.
proof fn lemma_clear_touches_one_bit(bits: u8, mask: u8)
    by (bit_vector)
    requires
        mask == 1 || mask == 2 || mask == 4 || mask == 8 || mask == 16 || mask == 32 || mask == 64,
    ensures
        (bits & !mask) & mask == 0,
        mask != 1 ==> (bits & !mask) & 1 == bits & 1,
        mask != 2 ==> (bits & !mask) & 2 == bits & 2,
        mask != 4 ==> (bits & !mask) & 4 == bits & 4,
        mask != 8 ==> (bits & !mask) & 8 == bits & 8,
        mask != 16 ==> (bits & !mask) & 16 == bits & 16,
        mask != 32 ==> (bits & !mask) & 32 == bits & 32,
        mask != 64 ==> (bits & !mask) & 64 == bits & 64,
        (bits & !mask) & 128 == bits & 128,
{
}

/// The byte 0 has no bit set.
proof fn lemma_no_bit_in_zero()
    by (bit_vector)
    ensures
        0u8 & 1 == 0,
        0u8 & 2 == 0,
        0u8 & 4 == 0,
        0u8 & 8 == 0,
        0u8 & 16 == 0,
        0u8 & 32 == 0,
        0u8 & 64 == 0,
        0u8 & 128 == 0,
{
}

impl APAllocFlags {
    pub const MEM_IN_USE: u8 = 0b0000_0001;

    pub const READ_ONLY: u8 = 0b0000_0010;

    pub const WAITING: u8 = 0b0000_0100;

    pub const WAKER: u8 = 0b0000_1000;

    pub const COMPLETED: u8 = 0b0001_0000;

    pub const STICKY: u8 = 0b0010_0000;

    pub const SLEEP: u8 = 0b0100_0000;

    #[verifier::type_invariant]
    spec fn reserved_bit_clear(self) -> bool {
        self.0 & 128 == 0
    }

    /// The flag word of an untouched slot: no bit set.
    pub fn new() -> (r: APAllocFlags)
        ensures
            r@ == FlagState::empty(),
    {
        proof {
            lemma_no_bit_in_zero();
        }
        APAllocFlags(0)
    }

    /// Reads a raw byte as a flag word. Bytes with bit 7 set name failure modes
    /// that do not exist and are refused.
    pub fn from_bits(bits: u8) -> (r: Option<APAllocFlags>)
        ensures
            r is Some <==> bits < 128,
            r matches Some(word) ==> word@ == decode(bits) && word@.encode() == bits,
    {
        assert(bits & 128 == 0 <==> bits < 128) by (bit_vector);
        if bits & 128 == 0 {
            proof {
                lemma_encode_decode(bits);
            }
            Some(APAllocFlags(bits))
        } else {
            None
        }
    }

    /// The raw byte, for tools that inspect flag words from outside.
    pub fn bits(&self) -> (r: u8)
        ensures
            r == self@.encode(),
    {
        proof {
            use_type_invariant(self);
            lemma_encode_decode(self.0);
        }
        self.0
    }

    /// With `evokation` true, the mask of the bits that are set; with `evokation`
    /// false, the mask of the bits that are clear.
    pub fn flags(&self, evokation: bool) -> (r: u8)
        ensures
            evokation ==> r == self@.encode(),
            !evokation ==> r == 255 - self@.encode(),
    {
        proof {
            use_type_invariant(self);
            lemma_encode_decode(self.0);
        }
        if evokation {
            self.0
        } else {
            let bits: u8 = self.0;
            assert(!bits == 255 - bits) by (bit_vector);
            !self.0
        }
    }

    /// The meaning of the word, bit by bit.
    pub fn state(&self) -> (r: FlagState)
        ensures
            r == self@,
    {
        FlagState {
            mem_in_use: self.0 & Self::MEM_IN_USE != 0,
            read_only: self.0 & Self::READ_ONLY != 0,
            waiting: self.0 & Self::WAITING != 0,
            awaiting_waker: self.0 & Self::WAKER != 0,
            completed: self.0 & Self::COMPLETED != 0,
            sticky: self.0 & Self::STICKY != 0,
            mode: if self.0 & Self::SLEEP != 0 {
                FailureMode::Sleep
            } else {
                FailureMode::Drop
            },
        }
    }

    /// Whether both words hold the same bits.
    pub fn same(&self, other: &APAllocFlags) -> (r: bool)
        ensures
            r == (self@ == other@),
    {
        proof {
            use_type_invariant(self);
            use_type_invariant(other);
            lemma_encode_decode(self.0);
            lemma_encode_decode(other.0);
        }
        self.0 == other.0
    }

    /// Sets the one bit `mask`.
    fn set(&mut self, mask: u8)
        requires
            is_flag(mask),
        ensures
            final(self)@ == old(self)@.with_bit(mask, true),
    {
        proof {
            use_type_invariant(&*self);
            lemma_set_touches_one_bit(self.0, mask);
        }
        self.0 = self.0 | mask;
    }

    /// Clears the one bit `mask`.
    fn clear(&mut self, mask: u8)
        requires
            is_flag(mask),
        ensures
            final(self)@ == old(self)@.with_bit(mask, false),
    {
        proof {
            use_type_invariant(&*self);
            lemma_clear_touches_one_bit(self.0, mask);
        }
        self.0 = self.0 & !mask;
    }

    /// Freezes the slot for reading. This goes through whenever nobody waits on
    /// the slot and no wake request is pending, whatever else the word says; it
    /// is the one transition that a writer and a reader can race for.
    pub fn make_ReadOnly(&mut self) -> (r: bool)
        ensures
            r == old(self)@.accepts(Transition::MakeReadOnly),
            final(self)@ == old(self)@.step(Transition::MakeReadOnly),
    {
        if self.0 & Self::WAITING == 0 && self.0 & Self::WAKER == 0 {
            self.set(Self::READ_ONLY);
            true
        } else {
            false
        }
    }

    /// Registers the writer that a frozen slot has turned away: nothing under
    /// `Drop`, a wait and a wake request under `Sleep`.
    fn turn_away(&mut self)
        ensures
            final(self)@ == old(self)@.turned_away(),
    {
        if self.0 & Self::SLEEP != 0 {
            self.set_Waker();
        }
    }

    /// Opens a new cycle on the slot: it ends up neither claimed nor finished,
    /// ready for the next claim. A frozen slot refuses and stays as it is.
    pub fn start_cycle(&mut self) -> (r: Result<(), ArenaError>)
        ensures
            r is Ok <==> old(self)@.accepts(Transition::StartCycle),
            r is Err ==> r == Err::<(), ArenaError>(ArenaError::WriteRejected),
            final(self)@ == old(self)@.step(Transition::StartCycle),
    {
        if self.0 & Self::READ_ONLY != 0 {
            Err(ArenaError::WriteRejected)
        } else {
            self.clear(Self::MEM_IN_USE);
            self.clear(Self::COMPLETED);
            Ok(())
        }
    }

    /// Claims the slot for a write cycle. A frozen slot turns the writer away as
    /// its failure mode says; a slot whose last cycle is still in flight refuses
    /// and stays as it is.
    pub fn claim(&mut self) -> (r: Result<(), ArenaError>)
        ensures
            r is Ok <==> old(self)@.accepts(Transition::Claim),
            r is Err ==> r == Err::<(), ArenaError>(ArenaError::WriteRejected),
            final(self)@ == old(self)@.step(Transition::Claim),
    {
        if self.0 & Self::READ_ONLY != 0 {
            self.turn_away();
            Err(ArenaError::WriteRejected)
        } else if self.0 & Self::MEM_IN_USE != 0 && self.0 & Self::COMPLETED == 0 {
            Err(ArenaError::WriteRejected)
        } else {
            self.set(Self::MEM_IN_USE);
            self.clear(Self::COMPLETED);
            Ok(())
        }
    }

    /// Finishes the write cycle in flight, which also ends every wait on the
    /// slot. A slot frozen in the meantime turns the writer away as its failure
    /// mode says; a slot with no cycle in flight refuses and stays as it is.
    pub fn complete(&mut self) -> (r: Result<(), ArenaError>)
        ensures
            r is Ok <==> old(self)@.accepts(Transition::Complete),
            r is Err ==> r == Err::<(), ArenaError>(ArenaError::WriteRejected),
            final(self)@ == old(self)@.step(Transition::Complete),
    {
        if self.0 & Self::MEM_IN_USE == 0 || self.0 & Self::COMPLETED != 0 {
            Err(ArenaError::WriteRejected)
        } else if self.0 & Self::READ_ONLY != 0 {
            self.turn_away();
            Err(ArenaError::WriteRejected)
        } else {
            self.set(Self::COMPLETED);
            self.clear(Self::WAITING);
            self.clear(Self::WAKER);
            Ok(())
        }
    }

    /// Marks whoever works on the slot as blocked on something else, with a wake
    /// request registered. Only the waker or the end of the write cycle ends
    /// this; a slot that neither reaches stays waiting for good.
    pub fn set_Waker(&mut self)
        ensures
            final(self)@ == old(self)@.step(Transition::SetWaker),
    {
        self.set(Self::WAITING);
        self.set(Self::WAKER);
    }

    /// Fires the waker: where a wake request is registered, the request and the
    /// wait are both cleared. Without a request nothing changes.
    pub fn wake(&mut self) -> (r: bool)
        ensures
            r == old(self)@.accepts(Transition::Wake),
            final(self)@ == old(self)@.step(Transition::Wake),
    {
        if self.0 & Self::WAKER != 0 {
            self.clear(Self::WAITING);
            self.clear(Self::WAKER);
            true
        } else {
            false
        }
    }

    /// Exempts the slot from recycling, until `clear_sticky` is called.
    pub fn set_Sticky(&mut self)
        ensures
            final(self)@ == old(self)@.step(Transition::SetSticky),
    {
        self.set(Self::STICKY);
    }

    /// Hands the slot back to recycling.
    pub fn clear_sticky(&mut self)
        ensures
            final(self)@ == old(self)@.step(Transition::ClearSticky),
    {
        self.clear(Self::STICKY);
    }

    /// Selects what a writer does when it finds the slot frozen.
    pub fn set_Failure_Mode(&mut self, mode: FailureMode)
        ensures
            final(self)@ == old(self)@.step(Transition::SetFailureMode(mode)),
    {
        match mode {
            FailureMode::Sleep => self.set(Self::SLEEP),
            FailureMode::Drop => self.clear(Self::SLEEP),
        }
    }

    /// The reset at the end of a cycle: the slot is no longer claimed, frozen or
    /// finished. A sticky slot is exempt and stays exactly as it is.
    pub fn recycle(&mut self) -> (r: bool)
        ensures
            r == old(self)@.accepts(Transition::Recycle),
            final(self)@ == old(self)@.step(Transition::Recycle),
    {
        if self.0 & Self::STICKY != 0 {
            false
        } else {
            self.clear(Self::MEM_IN_USE);
            self.clear(Self::READ_ONLY);
            self.clear(Self::COMPLETED);
            true
        }
    }

    /// Carries out one transition of the protocol and says whether the word
    /// accepted it.
    pub fn apply(&mut self, t: Transition) -> (r: bool)
        ensures
            r == old(self)@.accepts(t),
            final(self)@ == old(self)@.step(t),
    {
        match t {
            Transition::Claim => self.claim().is_ok(),
            Transition::Complete => self.complete().is_ok(),
            Transition::MakeReadOnly => self.make_ReadOnly(),
            Transition::StartCycle => self.start_cycle().is_ok(),
            Transition::SetWaker => {
                self.set_Waker();
                true
            },
            Transition::Wake => self.wake(),
            Transition::SetSticky => {
                self.set_Sticky();
                true
            },
            Transition::ClearSticky => {
                self.clear_sticky();
                true
            },
            Transition::SetFailureMode(mode) => {
                self.set_Failure_Mode(mode);
                true
            },
            Transition::Recycle => self.recycle(),
        }
    }
}

/// The layout of the flag word is exact: every state is stored in a byte below
/// 128, and that byte means the state again.
pub proof fn lemma_layout_is_exact(state: FlagState)
    ensures
        0 <= state.encode() < 128,
        decode(state.encode() as u8) == state,
{
    let bits = state.encode() as u8;
    assert(bits < 128 ==> bits & 128 == 0) by (bit_vector);
    lemma_bits_add_up(bits);
}

/// A wait ends only when the write cycle finishes or the waker fires: no other
/// transition, and no refused one, clears `waiting`.
pub proof fn lemma_wait_ends_only_by_completion_or_wake(s: FlagState, t: Transition)
    requires
        s.waiting,
        !s.step(t).waiting,
    ensures
        t is Complete || t is Wake,
        s.accepts(t),
{
}

/// A slot that waits without the waker firing and without its write cycle
/// finishing keeps waiting, whatever else is done to it and however often.
pub proof fn lemma_wait_is_stable(s: FlagState, ts: Seq<Transition>)
    requires
        s.waiting,
        forall|i: int| 0 <= i < ts.len() ==> !(#[trigger] ts[i] is Complete) && !(ts[i] is Wake),
    ensures
        s.run(ts).waiting,
    decreases ts.len(),
{
    if ts.len() > 0 {
        lemma_wait_is_stable(s, ts.drop_last());
    }
}

/// A frozen slot accepts no claim, no completion and no new cycle, and none of
/// these changes whether it is claimed, finished, frozen or sticky.
pub proof fn lemma_frozen_turns_writers_away(s: FlagState, t: Transition)
    requires
        s.read_only,
        t is Claim || t is Complete || t is StartCycle,
    ensures
        !s.accepts(t),
        s.step(t).read_only,
        s.step(t).mem_in_use == s.mem_in_use,
        s.step(t).completed == s.completed,
        s.step(t).sticky == s.sticky,
        s.mode == FailureMode::Drop ==> s.step(t) == s,
{
}

/// Once frozen, a slot stays frozen until it is recycled, and a sticky slot is
/// never recycled.
pub proof fn lemma_frozen_until_recycled(s: FlagState, t: Transition)
    requires
        s.read_only,
        !s.step(t).read_only,
    ensures
        t is Recycle,
        !s.sticky,
{
}

/// Freezing goes through exactly when nobody waits and no wake request is
/// pending, and it changes nothing but `read_only`.
pub proof fn lemma_freeze_needs_first_run(s: FlagState)
    ensures
        s.accepts(Transition::MakeReadOnly) == (!s.waiting && !s.awaiting_waker),
        s.accepts(Transition::MakeReadOnly) ==> s.step(Transition::MakeReadOnly) == (FlagState {
            read_only: true,
            ..s
        }),
        !s.accepts(Transition::MakeReadOnly) ==> s.step(Transition::MakeReadOnly) == s,
{
}

/// `sticky` is set and cleared only on request, and recycling leaves a sticky
/// slot's whole word as it was.
pub proof fn lemma_sticky_persists(s: FlagState, t: Transition)
    ensures
        s.step(t).sticky != s.sticky ==> t is SetSticky || t is ClearSticky,
        s.sticky ==> s.step(Transition::Recycle) == s,
{
}

/// A refused transition changes nothing, except that a frozen slot in `Sleep`
/// mode registers the writer it turns away.
pub proof fn lemma_refusal_changes_nothing(s: FlagState, t: Transition)
    requires
        !s.accepts(t),
    ensures
        s.step(t) == s || (s.read_only && s.mode == FailureMode::Sleep && s.step(t) == s.parked()),
{
}

/// After a claim that was accepted, completion is accepted unless the slot was
/// frozen in between; after it, the slot can be claimed again.
pub proof fn lemma_write_cycle(s: FlagState)
    requires
        s.accepts(Transition::Claim),
    ensures
        s.step(Transition::Claim).accepts(Transition::Complete),
        s.step(Transition::Claim).step(Transition::Complete).accepts(Transition::Claim),
        !s.step(Transition::Claim).step(Transition::MakeReadOnly).accepts(Transition::Complete)
            || !s.first_run(),
{
}

} // verus!
