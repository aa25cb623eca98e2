use gen_arena_alloc::arena::Arena;
use gen_arena_alloc::error::ArenaError;
use gen_arena_alloc::flags::{APAllocFlags, FailureMode};
use gen_arena_alloc::handle::Handle;
use gen_arena_alloc::section::APASection;
use gen_arena_alloc::slot::{ArenaInner, SlotControl};

#[test]
fn a_slot_starts_at_generation_zero() {
    let held: ArenaInner<u8> = ArenaInner::new(5);
    assert_eq!(held.generation(), 0);
    assert_eq!(held.flags().bits(), 0b0001_0001);
    assert_eq!(held.read(0), Ok(&5));
    assert_eq!(held.read(1), Err(ArenaError::InvalidHandle));

    let empty: ArenaInner<u8> = ArenaInner::empty();
    assert_eq!(empty.generation(), 0);
    assert_eq!(empty.flags().bits(), 0);
    assert_eq!(empty.read(0), Err(ArenaError::InvalidHandle));
}

#[test]
fn the_first_write_keeps_the_generation() {
    let mut slot: ArenaInner<u8> = ArenaInner::empty();
    assert_eq!(slot.write(1), Ok(0));
    assert_eq!(slot.read(0), Ok(&1));
    assert_eq!(slot.write(2), Ok(1));
    assert_eq!(slot.read(0), Err(ArenaError::InvalidHandle));
    assert_eq!(slot.read(1), Ok(&2));
    assert_eq!(slot.write(3), Ok(2));
    assert_eq!(slot.generation(), 2);
}

#[test]
fn claim_compares_the_flag_word() {
    let mut slot: ArenaInner<u8> = ArenaInner::new(1);
    let seen = slot.flags();
    assert_eq!(slot.control(SlotControl::Stick), Ok(true));
    // The word has changed since the writer looked.
    assert_eq!(slot.claim(seen), Err(ArenaError::WriteRejected));
    assert_eq!(slot.flags().bits(), 0b0011_0001);
    let seen = slot.flags();
    assert_eq!(slot.claim(seen), Ok(()));
    assert_eq!(slot.flags().bits(), 0b0010_0001);
    // A commit without a claim is refused.
    let mut idle: ArenaInner<u8> = ArenaInner::new(1);
    assert_eq!(idle.commit(2), Err(ArenaError::WriteRejected));
    assert_eq!(idle.read(0), Ok(&1));
    let mut untouched: ArenaInner<u8> = ArenaInner::empty();
    assert_eq!(untouched.commit(2), Err(ArenaError::WriteRejected));
    assert_eq!(untouched.read(0), Err(ArenaError::InvalidHandle));
}

#[test]
fn write_commits_before_the_freeze() {
    let mut slot: ArenaInner<&'static str> = ArenaInner::new("old");
    let seen = slot.flags();
    assert_eq!(slot.claim(seen), Ok(()));
    assert_eq!(slot.commit("new"), Ok(1));
    assert_eq!(slot.control(SlotControl::Freeze), Ok(true));
    assert_eq!(slot.read(1), Ok(&"new"));
    assert_eq!(slot.read(0), Err(ArenaError::InvalidHandle));
    assert!(slot.flags().state().read_only);
    assert_eq!(slot.write("late"), Err(ArenaError::WriteRejected));
    assert_eq!(slot.read(1), Ok(&"new"));
}

#[test]
fn freeze_wins_over_a_write_in_flight() {
    let mut slot: ArenaInner<&'static str> = ArenaInner::new("old");
    let seen = slot.flags();
    assert_eq!(slot.claim(seen), Ok(()));
    assert_eq!(slot.control(SlotControl::Freeze), Ok(true));
    let frozen = slot.flags().bits();
    assert_eq!(slot.commit("new"), Err(ArenaError::WriteRejected));
    assert_eq!(slot.read(0), Ok(&"old"));
    assert_eq!(slot.generation(), 0);
    assert_eq!(slot.flags().bits(), frozen);
}

#[test]
fn freeze_wins_before_the_claim() {
    let mut slot: ArenaInner<&'static str> = ArenaInner::new("old");
    assert_eq!(slot.control(SlotControl::Freeze), Ok(true));
    let seen = slot.flags();
    assert_eq!(slot.claim(seen), Err(ArenaError::WriteRejected));
    assert_eq!(slot.write("new"), Err(ArenaError::WriteRejected));
    assert_eq!(slot.read(0), Ok(&"old"));
    assert_eq!(slot.flags().bits(), 0b0001_0011);
}

#[test]
fn freeze_and_write_race_in_the_arena() {
    // The write commits, then the slot freezes.
    let mut arena: Arena<u8> = Arena::with_limits(1, 1);
    let section = arena.request_section().unwrap();
    let old = arena.write(&section, 1).unwrap();
    let new = arena.write(&section, 2).unwrap();
    assert_eq!(arena.make_read_only(new), Ok(true));
    assert_eq!(arena.read(old), Err(ArenaError::InvalidHandle));
    assert_eq!(arena.read(new), Ok(&2));

    // The slot freezes, then the write is refused.
    let mut arena: Arena<u8> = Arena::with_limits(1, 1);
    let section = arena.request_section().unwrap();
    let old = arena.write(&section, 1).unwrap();
    assert_eq!(arena.make_read_only(old), Ok(true));
    assert_eq!(arena.write(&section, 2), Err(ArenaError::WriteRejected));
    assert_eq!(arena.update(old, 2), Err(ArenaError::WriteRejected));
    assert_eq!(arena.read(old), Ok(&1));
    assert_eq!(arena.index_generation(0), 0);
    assert_eq!(arena.section(0).unwrap().cursor(), 0);
    assert_eq!(arena.section(0).unwrap().slot(0).unwrap().flags().bits(), 0b0001_0011);

    // The slot freezes between claim and commit.
    let mut arena: Arena<u8> = Arena::with_limits(1, 1);
    let section = arena.request_section().unwrap();
    let old = arena.write(&section, 1).unwrap();
    let seen = arena.section(0).unwrap().slot(0).unwrap().flags();
    assert_eq!(arena.claim(&section, seen), Ok(()));
    assert_eq!(arena.make_read_only(old), Ok(true));
    assert_eq!(arena.commit(&section, 2), Err(ArenaError::WriteRejected));
    assert_eq!(arena.read(old), Ok(&1));
    assert_eq!(arena.index_generation(0), 0);

    // After the cycle ends the slot takes writes again.
    assert_eq!(arena.recycle(&section), Ok(()));
    assert_eq!(arena.read(old), Err(ArenaError::InvalidHandle));
    assert_eq!(arena.write(&section, 3), Ok(Handle::from_parts(0, 0, 1)));
}

#[test]
fn a_sleeping_writer_is_registered_and_woken() {
    let mut arena: Arena<u8> = Arena::with_limits(1, 1);
    let section = arena.request_section().unwrap();
    assert_eq!(
        arena.control(&section, 0, SlotControl::OnContention(FailureMode::Sleep)),
        Ok(true)
    );
    let old = arena.write(&section, 1).unwrap();
    assert_eq!(arena.make_read_only(old), Ok(true));
    assert_eq!(arena.write(&section, 2), Err(ArenaError::WriteRejected));
    let state = arena.section(0).unwrap().slot(0).unwrap().flags().state();
    assert!(state.waiting && state.awaiting_waker && state.read_only);
    assert_eq!(arena.read(old), Ok(&1));

    // The cycle ends, the waker fires, the writer tries again.
    assert_eq!(arena.recycle(&section), Ok(()));
    let state = arena.section(0).unwrap().slot(0).unwrap().flags().state();
    assert!(state.waiting && state.awaiting_waker && !state.read_only);
    assert_eq!(arena.control(&section, 0, SlotControl::Wake), Ok(true));
    assert_eq!(arena.control(&section, 0, SlotControl::Wake), Ok(false));
    assert_eq!(arena.write(&section, 2), Ok(Handle::from_parts(0, 0, 1)));
    assert_eq!(arena.section(0).unwrap().slot(0).unwrap().flags().bits(), 0b0101_0001);
}

#[test]
fn slot_controls_and_their_answers() {
    let mut slot: ArenaInner<u8> = ArenaInner::new(1);
    assert_eq!(slot.control(SlotControl::Wake), Ok(false));
    assert_eq!(slot.control(SlotControl::Park), Ok(true));
    assert_eq!(slot.control(SlotControl::Freeze), Ok(false));
    assert_eq!(slot.control(SlotControl::Wake), Ok(true));
    assert_eq!(slot.control(SlotControl::Freeze), Ok(true));
    assert_eq!(slot.control(SlotControl::StartCycle), Ok(false));
    assert_eq!(slot.flags().bits(), 0b0001_0011);
    assert!(slot.recycle());
    assert_eq!(slot.control(SlotControl::StartCycle), Ok(true));
    assert_eq!(slot.flags().bits(), 0);
}

#[test]
fn recycle_moves_the_generation_on() {
    let mut slot: ArenaInner<u8> = ArenaInner::new(1);
    assert!(slot.recycle());
    assert_eq!(slot.generation(), 1);
    assert_eq!(slot.read(0), Err(ArenaError::InvalidHandle));
    assert_eq!(slot.read(1), Err(ArenaError::InvalidHandle));
    assert_eq!(slot.write(2), Ok(1));
    assert_eq!(slot.read(1), Ok(&2));

    let mut empty: ArenaInner<u8> = ArenaInner::empty();
    assert!(empty.recycle());
    assert!(empty.recycle());
    assert_eq!(empty.generation(), 2);
}

#[test]
fn generations_never_go_back() {
    let mut slot: ArenaInner<u32> = ArenaInner::empty();
    let mut last = slot.generation();
    for step in 0..200u32 {
        match step % 10 {
            0 => {
                let _ = slot.write(step);
            }
            1 => {
                let seen = slot.flags();
                let _ = slot.claim(seen);
            }
            2 => {
                let _ = slot.commit(step);
            }
            3 => {
                let _ = slot.control(SlotControl::Freeze);
            }
            4 => {
                let _ = slot.recycle();
            }
            5 => {
                let seen = slot.flags();
                let _ = slot.claim(seen);
                let _ = slot.poison();
            }
            6 => {
                let _ = slot.clear_poison();
            }
            7 => {
                let _ = slot.control(SlotControl::Stick);
                let _ = slot.recycle();
            }
            8 => {
                let _ = slot.control(SlotControl::Unstick);
            }
            _ => {
                let _ = slot.control(SlotControl::StartCycle);
            }
        }
        assert!(slot.generation() >= last);
        last = slot.generation();
    }
    assert!(last > 0);
}

#[test]
fn section_claim_and_commit_work_at_the_cursor() {
    let mut section: APASection<u8> = APASection::new(3, 2);
    let seen = section.slot(0).unwrap().flags();
    assert_eq!(section.claim(seen), Ok(()));
    assert_eq!(section.cursor(), 0);
    assert_eq!(section.push(9), Err(ArenaError::WriteRejected));
    assert_eq!(section.commit(1), Ok(Handle::from_parts(3, 0, 0)));
    assert_eq!(section.cursor(), 1);
    assert_eq!(section.commit(2), Err(ArenaError::WriteRejected));
    assert_eq!(section.cursor(), 1);
    assert_eq!(section.push(2), Ok(Handle::from_parts(3, 1, 0)));
    assert_eq!(section.cursor(), 0);
    assert_eq!(section.claim(APAllocFlags::new()), Err(ArenaError::WriteRejected));
    assert_eq!(section.update(0, 0, 5), Ok(Handle::from_parts(3, 0, 1)));
    assert_eq!(section.freeze(0, 0), Err(ArenaError::InvalidHandle));
    assert_eq!(section.freeze(0, 1), Ok(true));
    assert_eq!(section.control(1, SlotControl::Stick), Ok(true));
    assert_eq!(section.poison(1), Ok(false));
    assert_eq!(section.clear_poison(1), Ok(false));
    section.recycle();
    assert_eq!(section.read(0, 1), Err(ArenaError::InvalidHandle));
    assert_eq!(section.read(1, 0), Ok(&2));
    assert_eq!(section.index_generation(0), 2);
    assert_eq!(section.index_generation(1), 0);
}

#[test]
fn one_slot_section_around_a_value() {
    let mut section: APASection<&'static str> = APASection::holding(0, "a");
    assert_eq!(section.capacity(), 1);
    assert_eq!(section.read(0, 0), Ok(&"a"));
    assert_eq!(section.push("b"), Ok(Handle::from_parts(0, 0, 1)));
    assert_eq!(section.push("c"), Ok(Handle::from_parts(0, 0, 2)));
    assert_eq!(section.cursor(), 0);
    assert_eq!(section.generation_summary(), (2, 0));
}

#[test]
fn static_section_survives_recycling() {
    let mut section: APASection<u8> = APASection::new_static(0, 2);
    let a = section.push(1).unwrap();
    let b = section.push(2).unwrap();
    section.recycle();
    section.recycle();
    assert_eq!(section.read(a.slot_index(), a.generation()), Ok(&1));
    assert_eq!(section.read(b.slot_index(), b.generation()), Ok(&2));
    assert_eq!(section.generation_summary(), (0, 0));
}

#[test]
fn reference_count_follows_clones_and_drops() {
    let mut section: APASection<u8> = APASection::new(0, 2);
    let _ = section.push(1);
    for expected in 1..=5 {
        assert_eq!(section.retain(), Ok(()));
        assert_eq!(section.refs(), expected);
    }
    for expected in (1..5).rev() {
        assert_eq!(section.release(), Ok(false));
        assert_eq!(section.refs(), expected);
        assert!(!section.is_released());
        assert_eq!(section.read(0, 0), Ok(&1));
    }
    assert_eq!(section.release(), Ok(true));
    assert_eq!(section.refs(), 0);
    assert!(section.is_released());
}
