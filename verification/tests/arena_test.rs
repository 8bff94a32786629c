use mmo_core::arena::Arena;

#[test]
fn test_arena_handles_stay_valid_while_growing() {
    // A tiny capacity hint is not a limit: allocations keep succeeding,
    // and every handle issued earlier keeps denoting its value.
    let mut arena: Arena<u32> = Arena::with_capacity(2);
    let mut handles: Vec<usize> = Vec::new();
    let count: u32 = 100;
    for value in 0..count {
        handles.push(arena.allocate(value * 10));
    }
    assert_eq!(arena.len(), 100);
    for value in 0..count {
        let handle: usize = handles[value as usize];
        assert_eq!(*arena.get(handle), value * 10);
    }
}

#[test]
fn test_arena_reset_empties_and_is_reusable() {
    let mut arena: Arena<String> = Arena::with_capacity(8);
    let first = arena.allocate(String::from("one"));
    assert_eq!(*arena.get(first), "one");

    arena.reset();
    assert_eq!(arena.len(), 0);

    // The emptied arena hands out fresh handles again.
    let second = arena.allocate(String::from("two"));
    assert_eq!(second, 0);
    assert_eq!(*arena.get(second), "two");
}
