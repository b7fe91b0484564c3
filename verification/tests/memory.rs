use evalrus::memory::{AllocError, Allocator, Arena};

struct Thing {
    a: u8,
    b: u16,
    c: u32,
    d: u64,
}

impl Thing {
    fn new() -> Thing {
        Thing { a: 1, b: 2, c: 3, d: 4 }
    }

    fn check(&self) -> bool {
        self.a == 1 && self.b == 2 && self.c == 3 && self.d == 4
    }
}

#[test]
fn test_alloc_struct() {
    let mut mem = Arena::new(1024);
    let ptr = mem.allocate(Thing::new()).unwrap();
    assert!(mem.get(ptr).check());
}

#[test]
#[should_panic]
fn test_out_of_memory() {
    let mut mem = Arena::new(1024);
    loop {
        let _ptr = mem.allocate(Thing::new()).unwrap();
    }
}

#[test]
fn arena_holds_exactly_what_fits() {
    let size = std::mem::size_of::<Thing>();
    assert_eq!(size, 16);
    let mut mem = Arena::new(1024);
    for count in 0..64 {
        assert_eq!(mem.bump_offset(), count * 16);
        assert!(mem.allocate(Thing::new()).is_ok());
    }
    assert_eq!(mem.len(), 64);
    assert_eq!(mem.bump_offset(), 1024);
    assert_eq!(mem.capacity(), 1024);
}

#[test]
fn exhausted_arena_fails_and_keeps_its_bump_offset() {
    let mut mem = Arena::new(40);
    let first = mem.allocate(Thing::new()).unwrap();
    let second = mem.allocate(Thing::new()).unwrap();
    assert_eq!(mem.bump_offset(), 32);
    assert_eq!(mem.allocate(Thing::new()).err(), Some(AllocError::OutOfMemory));
    assert_eq!(mem.bump_offset(), 32);
    assert_eq!(mem.len(), 2);
    assert_eq!(mem.allocate(Thing::new()).err(), Some(AllocError::OutOfMemory));
    assert_eq!(mem.bump_offset(), 32);
    assert!(mem.get(first).check());
    assert!(mem.get(second).check());
}

#[test]
fn arena_without_room_for_one_object_is_full_from_the_start() {
    let mut mem = Arena::new(15);
    assert_eq!(mem.allocate(Thing::new()).err(), Some(AllocError::OutOfMemory));
    assert_eq!(mem.bump_offset(), 0);
    assert_eq!(mem.len(), 0);
}

#[test]
fn handles_compare_by_identity() {
    let mut mem = Arena::new(1024);
    let first = mem.allocate(7u64).unwrap();
    let second = mem.allocate(7u64).unwrap();
    assert!(first.is(first));
    assert!(second.is(second));
    assert!(!first.is(second));
    assert!(!second.is(first));
    let copy = first;
    assert!(copy.is(first));
    assert_eq!(*mem.get(first), *mem.get(second));
}

#[test]
fn objects_can_be_overwritten_in_place() {
    let mut mem = Arena::new(64);
    let first = mem.allocate(1u32).unwrap();
    let second = mem.allocate(2u32).unwrap();
    mem.set(first, 10);
    *mem.get_mut(second) += 20;
    assert_eq!(*mem.get(first), 10);
    assert_eq!(*mem.get(second), 22);
    assert_eq!(mem.bump_offset(), 8);
    assert!(mem.contains(first));
}

#[test]
fn bump_decision_is_exact_at_the_boundary() {
    assert_eq!(evalrus::memory::next_bump(32, 16, 16), Ok(32));
    assert_eq!(evalrus::memory::next_bump(32, 17, 16), Err(AllocError::OutOfMemory));
    assert_eq!(evalrus::memory::next_bump(32, 0, 0), Ok(0));
    assert_eq!(
        evalrus::memory::next_bump(usize::MAX, usize::MAX - 1, 2),
        Err(AllocError::OutOfMemory)
    );
}

#[test]
fn handles_of_two_arenas_are_never_identical() {
    let mut one = Arena::new(1024);
    let mut other = Arena::new(1024);
    let first = one.allocate(7u64).unwrap();
    let second = other.allocate(7u64).unwrap();
    assert!(!first.is(second));
    assert!(!second.is(first));
    assert!(first.is(first));
    assert!(second.is(second));
    assert_ne!(first, second);
    assert!(one.contains(first));
    assert!(!one.contains(second));
    assert!(other.contains(second));
    assert!(!other.contains(first));
    assert_eq!(*one.get(first), *other.get(second));
}

#[test]
fn many_arenas_alive_at_once_all_differ() {
    let mut arenas = Vec::new();
    let mut handles = Vec::new();
    for _ in 0..50 {
        let mut arena = Arena::new(64);
        handles.push(arena.allocate(1u8).unwrap());
        arenas.push(arena);
    }
    for (i, p) in handles.iter().enumerate() {
        for (j, q) in handles.iter().enumerate() {
            assert_eq!(p.is(*q), i == j);
        }
    }
}
