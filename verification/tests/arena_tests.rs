use db_creator::arena::{Arena, StringArena};

#[test]
fn string_arena_round_trip_ascii() {
    let mut a = StringArena::new();
    let r = a.add("hello");
    assert_eq!(a.get(r), "hello");
}

#[test]
fn string_arena_round_trip_empty() {
    let mut a = StringArena::new();
    let r = a.add("");
    assert_eq!(a.get(r), "");
    assert_eq!(r.len, 0);
}

#[test]
fn string_arena_round_trip_multibyte() {
    let mut a = StringArena::new();
    let r1 = a.add("日本語");
    let r2 = a.add("héllo🦀");
    let r3 = a.add("");
    assert_eq!(a.get(r1), "日本語");
    assert_eq!(a.get(r2), "héllo🦀");
    assert_eq!(a.get(r3), "");
}

#[test]
fn string_arena_handles_survive_later_adds() {
    let mut a = StringArena::new();
    let r1 = a.add("first");
    let r2 = a.add("second");
    let r3 = a.add("third");
    assert_eq!(a.get(r1), "first");
    assert_eq!(a.get(r2), "second");
    assert_eq!(a.get(r3), "third");
}

#[test]
fn string_arena_finalize_keeps_contents() {
    let mut a = StringArena::new();
    let r = a.add("keep me");
    a.finalize();
    assert_eq!(a.get(r), "keep me");
    let r2 = a.add("more");
    assert_eq!(a.get(r2), "more");
}

#[test]
fn slab_arena_round_trip() {
    let mut a: Arena<u64> = Arena::new();
    let batch = vec![10u64, 20, 30];
    let r = a.add_slice(batch.clone());
    assert_eq!(a.get_range(r), &batch[..]);
}

#[test]
fn slab_arena_empty_batch() {
    let mut a: Arena<u64> = Arena::new();
    let r = a.add_slice(Vec::new());
    assert_eq!(r.start, r.end);
    assert_eq!(a.get_range(r), &[] as &[u64]);
}

#[test]
fn slab_arena_successive_ranges_never_overlap() {
    let mut a: Arena<u64> = Arena::with_capacity(2);
    let r1 = a.add_slice(vec![1, 2, 3]);
    let r2 = a.add_slice(vec![4, 5]);
    assert!(r1.end <= r2.start);
    assert_eq!(a.get_range(r1), &[1, 2, 3]);
    assert_eq!(a.get_range(r2), &[4, 5]);
    a.finalize();
    assert_eq!(a.get_range(r1), &[1, 2, 3]);
    assert_eq!(a.len(), 5);
}
