use gen_arena_alloc::arena::Arena;
use gen_arena_alloc::error::ArenaError;
use gen_arena_alloc::handle::Handle;
use gen_arena_alloc::slot::SlotControl;

#[derive(Debug, PartialEq, Clone)]
struct Reading {
    sensor: u16,
    value: i64,
}

#[derive(Debug, PartialEq, Clone)]
enum Shape {
    Dot,
    Line(u8),
    Box { w: u8, h: u8 },
}

#[test]
fn generational_test() {
    let mut arena: Arena<char> = Arena::new_sized(4);
    let a = arena.push('A').unwrap();
    let b = arena.push('B').unwrap();
    let c = arena.push('C').unwrap();
    let d = arena.push('D').unwrap();
    assert_eq!(a.generation(), 0);
    assert_eq!(b.generation(), 0);
    assert_eq!(c.generation(), 0);
    assert_eq!(d.generation(), 0);
    assert_eq!(arena.generation(), (0, 0));
    let e = arena.push('E').unwrap();
    assert_eq!(e.generation(), 1);
    assert_eq!(e.slot_index(), a.slot_index());
    assert_eq!(arena.read(a), Err(ArenaError::InvalidHandle));
    assert_eq!(arena.read(b), Ok(&'B'));
    assert_eq!(arena.read(c), Ok(&'C'));
    assert_eq!(arena.read(d), Ok(&'D'));
    assert_eq!(arena.read(e), Ok(&'E'));
    assert_eq!(arena.generation(), (1, 0));
    assert!(arena.section(0).unwrap().check_generations());
}

#[test]
fn sized_types() {
    let mut numbers: Arena<u32> = Arena::new_sized(2);
    let one = numbers.push(1).unwrap();
    assert_eq!(numbers.read(one), Ok(&1));

    let mut pairs: Arena<(u8, bool)> = Arena::new_sized(2);
    let pair = pairs.push((7, true)).unwrap();
    assert_eq!(pairs.read(pair), Ok(&(7, true)));

    let mut readings: Arena<Reading> = Arena::new(Reading { sensor: 3, value: -40 });
    let first = Handle::from_parts(0, 0, 0);
    assert_eq!(readings.read(first), Ok(&Reading { sensor: 3, value: -40 }));
    let second = readings.push(Reading { sensor: 3, value: -41 }).unwrap();
    assert_eq!(second, Handle::from_parts(0, 0, 1));
    assert_eq!(readings.read(first), Err(ArenaError::InvalidHandle));
    assert_eq!(readings.read(second), Ok(&Reading { sensor: 3, value: -41 }));

    let mut shapes: Arena<Shape> = Arena::new_sized(3);
    let dot = shapes.push(Shape::Dot).unwrap();
    let line = shapes.push(Shape::Line(9)).unwrap();
    let boxed = shapes.push(Shape::Box { w: 2, h: 5 }).unwrap();
    assert_eq!(shapes.read(dot), Ok(&Shape::Dot));
    assert_eq!(shapes.read(line), Ok(&Shape::Line(9)));
    assert_eq!(shapes.read(boxed), Ok(&Shape::Box { w: 2, h: 5 }));
}

#[test]
fn unsized_types() {
    let mut words: Arena<Box<str>> = Arena::new_sized(2);
    let hello = words.push("hello".into()).unwrap();
    let world = words.push("world".into()).unwrap();
    assert_eq!(words.read(hello).map(|s| &**s), Ok("hello"));
    assert_eq!(words.read(world).map(|s| &**s), Ok("world"));

    let mut runs: Arena<Box<[u8]>> = Arena::new_sized(1);
    let short = runs.push(vec![1, 2, 3].into_boxed_slice()).unwrap();
    assert_eq!(runs.read(short).map(|s| s.len()), Ok(3));
    let long = runs.push(vec![0; 100].into_boxed_slice()).unwrap();
    assert_eq!(runs.read(short).map(|s| s.len()), Err(ArenaError::InvalidHandle));
    assert_eq!(runs.read(long).map(|s| s.len()), Ok(100));

    let mut lines: Arena<String> = Arena::new(String::from("first"));
    assert_eq!(lines.read(Handle::from_parts(0, 0, 0)).map(|s| s.as_str()), Ok("first"));
    let next = lines.push(String::from("second")).unwrap();
    assert_eq!(lines.read(next).map(|s| s.as_str()), Ok("second"));
}

#[test]
fn static_types() {
    static GREETING: &str = "stays";
    const LIMIT: u64 = 99;

    let mut texts: Arena<&'static str> = Arena::new_sized(2);
    let section = texts.request_section().unwrap();
    let kept = texts.write(&section, GREETING).unwrap();
    let passing = texts.write(&section, "goes").unwrap();
    assert_eq!(texts.control(&section, kept.slot_index(), SlotControl::Stick), Ok(true));
    assert_eq!(texts.recycle(&section), Ok(()));
    assert_eq!(texts.read(kept), Ok(&GREETING));
    assert_eq!(texts.read(passing), Err(ArenaError::InvalidHandle));
    let ring = texts.section(0).unwrap();
    assert_eq!(ring.index_generation(0), 0);
    assert_eq!(ring.index_generation(1), 1);

    let mut limits: Arena<u64> = Arena::new(LIMIT);
    assert_eq!(limits.read(Handle::from_parts(0, 0, 0)), Ok(&LIMIT));
    assert_eq!(limits.index_generation(0), 0);
    let raised = limits.push(LIMIT + 1).unwrap();
    assert_eq!(limits.read(raised), Ok(&100));
    assert_eq!(limits.index_generation(0), 1);
}

#[test]
fn index_overflow() {
    let mut arena: Arena<u8> = Arena::new_sized(4);
    let a = arena.push(1).unwrap();
    let past_the_ring = Handle::from_parts(0, 4, 0);
    let far_past_the_ring = Handle::from_parts(0, usize::MAX, 0);
    let no_such_section = Handle::from_parts(1, 0, 0);
    let far_section = Handle::from_parts(u64::MAX, 0, 0);
    assert_eq!(arena.read(past_the_ring), Err(ArenaError::IndexOutOfBounds));
    assert_eq!(arena.read(far_past_the_ring), Err(ArenaError::IndexOutOfBounds));
    assert_eq!(arena.read(no_such_section), Err(ArenaError::IndexOutOfBounds));
    assert_eq!(arena.read(far_section), Err(ArenaError::IndexOutOfBounds));
    assert_eq!(arena.update(past_the_ring, 9), Err(ArenaError::IndexOutOfBounds));
    assert_eq!(arena.update(no_such_section, 9), Err(ArenaError::IndexOutOfBounds));
    assert_eq!(arena.make_read_only(past_the_ring), Err(ArenaError::IndexOutOfBounds));
    assert_eq!(arena.read(a), Ok(&1));

    let section = arena.request_section().unwrap();
    assert_eq!(
        arena.control(&section, 4, SlotControl::Stick),
        Err(ArenaError::IndexOutOfBounds)
    );
    assert_eq!(arena.poison(&section, 4), Err(ArenaError::IndexOutOfBounds));
    assert_eq!(arena.clear_poison(&section, 4), Err(ArenaError::IndexOutOfBounds));

    let mut empty: Arena<u8> = Arena::new_uninit();
    assert_eq!(empty.push(1), Err(ArenaError::IndexOutOfBounds));
    assert_eq!(empty.section_count(), 0);
    assert_eq!(empty.generation(), (0, 0));
    let hollow = empty.request_section().unwrap();
    assert_eq!(empty.write(&hollow, 1), Err(ArenaError::IndexOutOfBounds));
    assert_eq!(empty.section(0).unwrap().capacity(), 0);
}

#[test]
fn single_message_passing() {
    let mut arena: Arena<String> = Arena::with_limits(8, 2);
    let writer = arena.request_section().unwrap();
    let reader = arena.clone_section(&writer).unwrap();
    assert_eq!(reader.id(), writer.id());
    assert_eq!(arena.section(writer.id()).unwrap().refs(), 2);

    let message = arena.write(&writer, String::from("ping")).unwrap();
    assert_eq!(message, Handle::from_parts(0, 0, 0));
    assert_eq!(arena.read(message).map(|s| s.as_str()), Ok("ping"));
    assert_eq!(arena.read(message).map(|s| s.as_str()), Ok("ping"));

    let answer = arena.update(message, String::from("pong")).unwrap();
    assert_eq!(answer, Handle::from_parts(0, 0, 1));
    assert_eq!(arena.read(message), Err(ArenaError::InvalidHandle));
    assert_eq!(arena.read(answer).map(|s| s.as_str()), Ok("pong"));
    assert_eq!(arena.section(0).unwrap().cursor(), 1);
}

#[test]
fn wrap_overwrites_the_oldest_value_first() {
    let mut arena: Arena<u32> = Arena::new_sized(3);
    let mut handles = Vec::new();
    for value in 0..7u32 {
        handles.push(arena.push(value).unwrap());
    }
    let generations: Vec<u64> = handles.iter().map(|h| h.generation()).collect();
    let slots: Vec<usize> = handles.iter().map(|h| h.slot_index()).collect();
    assert_eq!(generations, vec![0, 0, 0, 1, 1, 1, 2]);
    assert_eq!(slots, vec![0, 1, 2, 0, 1, 2, 0]);
    for stale in &handles[..4] {
        assert_eq!(arena.read(*stale), Err(ArenaError::InvalidHandle));
    }
    assert_eq!(arena.read(handles[4]), Ok(&4));
    assert_eq!(arena.read(handles[5]), Ok(&5));
    assert_eq!(arena.read(handles[6]), Ok(&6));
    assert_eq!(arena.generation(), (2, 1));
    assert_eq!(arena.try_generation(), Some((2, 1)));
    assert_eq!(arena.section(0).unwrap().try_generation_summary(), Some((2, 1)));
    assert_eq!(arena.section(0).unwrap().cursor(), 1);
}

#[test]
fn read_wants_the_live_generation() {
    let mut arena: Arena<u8> = Arena::new_sized(2);
    let a = arena.push(10).unwrap();
    assert_eq!(arena.read(a), Ok(&10));
    assert_eq!(arena.read(Handle::from_parts(0, 0, 1)), Err(ArenaError::InvalidHandle));
    assert_eq!(arena.read(Handle::from_parts(0, 0, u64::MAX)), Err(ArenaError::InvalidHandle));
    // An empty slot reads nothing, whatever the handle says.
    assert_eq!(arena.read(Handle::from_parts(0, 1, 0)), Err(ArenaError::InvalidHandle));
}

#[test]
fn update_keeps_the_cursor() {
    let mut arena: Arena<u8> = Arena::new_sized(3);
    let a = arena.push(1).unwrap();
    let b = arena.push(2).unwrap();
    let a2 = arena.update(a, 11).unwrap();
    assert_eq!(a2, Handle::from_parts(0, 0, 1));
    assert_eq!(arena.update(a, 12), Err(ArenaError::InvalidHandle));
    assert_eq!(arena.read(a2), Ok(&11));
    assert_eq!(arena.read(b), Ok(&2));
    let c = arena.push(3).unwrap();
    assert_eq!(c, Handle::from_parts(0, 2, 0));
}

#[test]
fn a_ring_written_out_of_order_is_detected() {
    let mut arena: Arena<u8> = Arena::new_sized(3);
    let a = arena.push(1).unwrap();
    let b = arena.push(2).unwrap();
    let c = arena.push(3).unwrap();
    assert_eq!(arena.generation(), (0, 0));
    let a = arena.update(a, 1).unwrap();
    let a = arena.update(a, 1).unwrap();
    let a = arena.update(a, 1).unwrap();
    assert_eq!(a.generation(), 3);
    assert_eq!(arena.generation(), (3, 0));
    let b = arena.update(b, 2).unwrap();
    assert_eq!(b.generation(), 1);
    assert_eq!(arena.generation(), (3, 1));
    assert!(arena.section(0).unwrap().check_generations());
    let c = arena.update(c, 3).unwrap();
    let c = arena.update(c, 3).unwrap();
    assert_eq!(c.generation(), 2);
    assert!(!arena.section(0).unwrap().check_generations());
    assert_eq!(arena.section(0).unwrap().try_generation_summary(), None);
    assert_eq!(arena.try_generation(), None);
}

#[test]
fn summary_skips_untouched_slots() {
    let mut arena: Arena<u8> = Arena::new_sized(4);
    let a = arena.push(1).unwrap();
    let _ = arena.push(2).unwrap();
    let a = arena.update(a, 3).unwrap();
    assert_eq!(a.generation(), 1);
    // Generations 1, 0, 0, 0: the slots at 0 are passed over.
    assert_eq!(arena.generation(), (1, 0));
    assert_eq!(arena.section(0).unwrap().generation_summary(), (1, 0));
    assert_eq!(arena.index_generation(0), 1);
    assert_eq!(arena.index_generation(1), 0);
    assert_eq!(arena.index_generation(3), 0);
}

#[test]
fn flood_recv() {
    let mut arena: Arena<u32> = Arena::with_limits(8, 1);
    let section = arena.request_section().unwrap();
    let first = arena.write(&section, 0).unwrap();
    let mut last = first;
    for value in 1..10_000u32 {
        last = arena.write(&section, value).unwrap();
    }
    assert_eq!(arena.read(first), Err(ArenaError::InvalidHandle));
    assert_eq!(arena.read(last), Ok(&9_999));
    assert_eq!(last, Handle::from_parts(0, 7, 1249));
    assert_eq!(arena.section(0).unwrap().cursor(), 0);
    assert_eq!(arena.generation(), (1249, 0));
    assert_eq!(arena.size(), 8);
}

#[test]
fn starve_recv() {
    let mut arena: Arena<u32> = Arena::with_limits(4, 1);
    let section = arena.request_section().unwrap();
    let only = arena.write(&section, 7).unwrap();
    for _ in 0..1_000 {
        assert_eq!(arena.read(only), Ok(&7));
        assert_eq!(arena.read(Handle::from_parts(0, 1, 0)), Err(ArenaError::InvalidHandle));
    }
    assert_eq!(arena.section(0).unwrap().cursor(), 1);
    assert_eq!(arena.section(0).unwrap().slot(0).unwrap().flags().bits(), 0b0001_0001);
}
