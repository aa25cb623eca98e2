use gen_arena_alloc::error::ArenaError;
use gen_arena_alloc::flags::{APAllocFlags, FailureMode, FlagState, Transition};
use gen_arena_alloc::slot::{ArenaInner, SlotControl};

fn word(bits: u8) -> APAllocFlags {
    APAllocFlags::from_bits(bits).unwrap()
}

#[test]
fn flag_word_layout_is_bit_exact() {
    assert_eq!(APAllocFlags::MEM_IN_USE, 0b0000_0001);
    assert_eq!(APAllocFlags::READ_ONLY, 0b0000_0010);
    assert_eq!(APAllocFlags::WAITING, 0b0000_0100);
    assert_eq!(APAllocFlags::WAKER, 0b0000_1000);
    assert_eq!(APAllocFlags::COMPLETED, 0b0001_0000);
    assert_eq!(APAllocFlags::STICKY, 0b0010_0000);
    assert_eq!(APAllocFlags::SLEEP, 0b0100_0000);

    let empty = FlagState {
        mem_in_use: false,
        read_only: false,
        waiting: false,
        awaiting_waker: false,
        completed: false,
        sticky: false,
        mode: FailureMode::Drop,
    };
    assert_eq!(APAllocFlags::new().state(), empty);
    assert_eq!(APAllocFlags::new().bits(), 0);
    assert_eq!(word(1).state(), FlagState { mem_in_use: true, ..empty });
    assert_eq!(word(2).state(), FlagState { read_only: true, ..empty });
    assert_eq!(word(4).state(), FlagState { waiting: true, ..empty });
    assert_eq!(word(8).state(), FlagState { awaiting_waker: true, ..empty });
    assert_eq!(word(16).state(), FlagState { completed: true, ..empty });
    assert_eq!(word(32).state(), FlagState { sticky: true, ..empty });
    assert_eq!(word(64).state(), FlagState { mode: FailureMode::Sleep, ..empty });
    for bits in 0..128u8 {
        assert_eq!(word(bits).bits(), bits);
    }
}

#[test]
fn reserved_failure_modes_are_refused() {
    assert!(APAllocFlags::from_bits(0b0111_1111).is_some());
    assert!(APAllocFlags::from_bits(0b1000_0000).is_none());
    assert!(APAllocFlags::from_bits(0b1100_0000).is_none());
    assert!(APAllocFlags::from_bits(0b1111_1111).is_none());
}

#[test]
fn flags_lists_set_or_clear_bits() {
    let w = word(0b0101_0011);
    assert_eq!(w.flags(true), 0b0101_0011);
    assert_eq!(w.flags(false), 0b1010_1100);
    assert_eq!(APAllocFlags::new().flags(true), 0);
    assert_eq!(APAllocFlags::new().flags(false), 0xff);
}

#[test]
fn same_compares_whole_words() {
    assert!(word(0b0001_0001).same(&word(0b0001_0001)));
    assert!(!word(0b0001_0001).same(&word(0b0001_0011)));
    assert!(!word(0).same(&word(64)));
}

#[test]
fn write_cycle_sets_and_clears_its_bits() {
    let mut w = APAllocFlags::new();
    assert_eq!(w.claim(), Ok(()));
    assert_eq!(w.bits(), 0b0000_0001);
    // A second claim while the first write is in flight is refused.
    assert_eq!(w.claim(), Err(ArenaError::WriteRejected));
    assert_eq!(w.bits(), 0b0000_0001);
    assert_eq!(w.complete(), Ok(()));
    assert_eq!(w.bits(), 0b0001_0001);
    assert_eq!(w.complete(), Err(ArenaError::WriteRejected));
    assert_eq!(w.bits(), 0b0001_0001);
    // The next claim clears COMPLETED.
    assert_eq!(w.claim(), Ok(()));
    assert_eq!(w.bits(), 0b0000_0001);
}

#[test]
fn completion_ends_a_wait() {
    let mut w = APAllocFlags::new();
    assert_eq!(w.claim(), Ok(()));
    w.set_Waker();
    assert_eq!(w.bits(), 0b0000_1101);
    assert_eq!(w.complete(), Ok(()));
    assert_eq!(w.bits(), 0b0001_0001);
}

#[test]
fn freezing_needs_a_first_run_state() {
    let mut w = word(0b0011_0001);
    assert!(w.make_ReadOnly());
    assert_eq!(w.bits(), 0b0011_0011);
    assert!(w.make_ReadOnly());
    assert_eq!(w.bits(), 0b0011_0011);

    for waiting in [0b0000_0100u8, 0b0000_1000, 0b0000_1100] {
        let mut w = word(waiting | 1);
        assert!(!w.make_ReadOnly());
        assert_eq!(w.bits(), waiting | 1);
    }

    // It does not look at the write cycle: a slot with a write in flight freezes.
    let mut in_flight = word(0b0000_0001);
    assert!(in_flight.make_ReadOnly());
    assert_eq!(in_flight.bits(), 0b0000_0011);
}

#[test]
fn start_cycle_refuses_a_frozen_slot() {
    let mut frozen = word(0b0001_0011);
    assert_eq!(frozen.start_cycle(), Err(ArenaError::WriteRejected));
    assert_eq!(frozen.bits(), 0b0001_0011);

    let mut finished = word(0b0111_1101);
    assert_eq!(finished.start_cycle(), Ok(()));
    assert_eq!(finished.bits(), 0b0110_1100);
    assert_eq!(finished.claim(), Ok(()));

    let mut abandoned = word(0b0000_0001);
    assert_eq!(abandoned.claim(), Err(ArenaError::WriteRejected));
    assert_eq!(abandoned.start_cycle(), Ok(()));
    assert_eq!(abandoned.claim(), Ok(()));
}

#[test]
fn failure_mode_decides_what_contention_leaves_behind() {
    let mut dropping = word(0b0001_0011);
    assert_eq!(dropping.state().mode, FailureMode::Drop);
    assert_eq!(dropping.claim(), Err(ArenaError::WriteRejected));
    assert_eq!(dropping.bits(), 0b0001_0011);

    let mut sleeping = word(0b0001_0011);
    sleeping.set_Failure_Mode(FailureMode::Sleep);
    assert_eq!(sleeping.bits(), 0b0101_0011);
    assert_eq!(sleeping.claim(), Err(ArenaError::WriteRejected));
    assert_eq!(sleeping.bits(), 0b0101_1111);
    sleeping.set_Failure_Mode(FailureMode::Drop);
    assert_eq!(sleeping.bits(), 0b0001_1111);

    // A write in flight that finds the slot frozen at completion.
    let mut late = word(0b0100_0011);
    assert_eq!(late.complete(), Err(ArenaError::WriteRejected));
    assert_eq!(late.bits(), 0b0100_1111);
}

#[test]
fn waker_clears_request_and_wait() {
    let mut w = word(0b0011_0001);
    assert!(!w.wake());
    assert_eq!(w.bits(), 0b0011_0001);
    w.set_Waker();
    assert_eq!(w.bits(), 0b0011_1101);
    assert!(w.wake());
    assert_eq!(w.bits(), 0b0011_0001);
    assert!(!w.wake());
}

#[test]
fn a_wait_without_waker_is_stable() {
    let mut w = APAllocFlags::new();
    w.set_Waker();
    let others = [
        Transition::Claim,
        Transition::MakeReadOnly,
        Transition::StartCycle,
        Transition::SetWaker,
        Transition::SetSticky,
        Transition::ClearSticky,
        Transition::SetFailureMode(FailureMode::Sleep),
        Transition::SetFailureMode(FailureMode::Drop),
        Transition::Recycle,
    ];
    for round in 0..50 {
        for t in others {
            let _ = w.apply(t);
            assert!(w.state().waiting, "round {round}: {t:?} ended the wait");
            assert!(w.state().awaiting_waker);
        }
    }
    assert!(w.apply(Transition::Wake));
    assert!(!w.state().waiting);

    // The same on a slot of the arena, where recycling comes on top.
    let mut slot: ArenaInner<u8> = ArenaInner::new(1);
    assert_eq!(slot.control(SlotControl::Park), Ok(true));
    for _ in 0..50 {
        assert_eq!(slot.control(SlotControl::Freeze), Ok(false));
        assert_eq!(slot.control(SlotControl::Stick), Ok(true));
        assert_eq!(slot.control(SlotControl::Unstick), Ok(true));
        assert!(slot.recycle());
        assert!(slot.flags().state().waiting);
    }
    assert_eq!(slot.control(SlotControl::Wake), Ok(true));
    assert!(!slot.flags().state().waiting);
}

#[test]
fn sticky_is_set_and_cleared_only_on_request() {
    let mut w = word(0b0001_0011);
    assert!(w.recycle());
    assert_eq!(w.bits(), 0);
    let mut w = word(0b0001_0011);
    w.set_Sticky();
    assert_eq!(w.bits(), 0b0011_0011);
    assert!(!w.recycle());
    assert_eq!(w.bits(), 0b0011_0011);
    w.clear_sticky();
    assert_eq!(w.bits(), 0b0001_0011);
    assert!(w.recycle());
    assert_eq!(w.bits(), 0);
}

#[test]
fn recycle_keeps_waits_and_mode() {
    let mut w = word(0b0101_1111);
    assert!(w.recycle());
    assert_eq!(w.bits(), 0b0100_1100);
}

#[test]
fn apply_follows_the_single_transitions() {
    for bits in 0..128u8 {
        let all = [
            Transition::Claim,
            Transition::Complete,
            Transition::MakeReadOnly,
            Transition::StartCycle,
            Transition::SetWaker,
            Transition::Wake,
            Transition::SetSticky,
            Transition::ClearSticky,
            Transition::SetFailureMode(FailureMode::Sleep),
            Transition::SetFailureMode(FailureMode::Drop),
            Transition::Recycle,
        ];
        for t in all {
            let mut by_table = word(bits);
            let mut direct = word(bits);
            let accepted = by_table.apply(t);
            let expected = match t {
                Transition::Claim => direct.claim().is_ok(),
                Transition::Complete => direct.complete().is_ok(),
                Transition::MakeReadOnly => direct.make_ReadOnly(),
                Transition::StartCycle => direct.start_cycle().is_ok(),
                Transition::SetWaker => {
                    direct.set_Waker();
                    true
                }
                Transition::Wake => direct.wake(),
                Transition::SetSticky => {
                    direct.set_Sticky();
                    true
                }
                Transition::ClearSticky => {
                    direct.clear_sticky();
                    true
                }
                Transition::SetFailureMode(mode) => {
                    direct.set_Failure_Mode(mode);
                    true
                }
                Transition::Recycle => direct.recycle(),
            };
            assert_eq!(accepted, expected);
            assert_eq!(by_table.bits(), direct.bits());
            assert!(by_table.bits() < 128);
        }
    }
}
