use reactor_core::leak_storage::Key;
use reactor_core::leak_storage::LeakStorage;

#[test]
fn insert_then_get_ref() {
    let mut s: LeakStorage<u32> = LeakStorage::new();
    let k = s.insert(42);
    assert_eq!(s.get_ref(k).copied(), Some(42));
}

#[test]
fn live_handles_are_distinct() {
    let mut s: LeakStorage<u8> = LeakStorage::new();
    let a = s.insert(1);
    let b = s.insert(2);
    let c = s.insert(3);
    assert!(a != b && b != c && a != c);
    assert_eq!(s.get_ref(a).copied(), Some(1));
    assert_eq!(s.get_ref(b).copied(), Some(2));
    assert_eq!(s.get_ref(c).copied(), Some(3));
}

#[test]
fn get_moves_value_out() {
    let mut s: LeakStorage<String> = LeakStorage::new();
    let k = s.insert(String::from("payload"));
    assert_eq!(s.get(k), Some(String::from("payload")));
    assert_eq!(s.get(k), None);
    assert!(!s.remove(k));
}

#[test]
fn remove_consumes_entry() {
    let mut s: LeakStorage<u32> = LeakStorage::new();
    let k = s.insert(7);
    assert!(s.remove(k));
    assert!(s.get_ref(k).is_none());
    assert!(!s.remove(k));
}

#[test]
fn reused_slot_gets_fresh_generation() {
    let mut s: LeakStorage<&str> = LeakStorage::new();
    let k1 = s.insert("first");
    assert!(s.remove(k1));
    let k2 = s.insert("second");
    // the vacated slot is reused, under a new generation
    assert_eq!(k2.index, k1.index);
    assert_ne!(k2.generation, k1.generation);
    // the old handle never sees the new entry
    assert!(s.get_ref(k1).is_none());
    assert_eq!(s.get_ref(k2).copied(), Some("second"));
}

#[test]
fn stale_handle_stays_stale() {
    let mut s: LeakStorage<u32> = LeakStorage::new();
    let k = s.insert(10);
    assert!(s.remove(k));
    for i in 0..5u32 {
        let n = s.insert(i);
        assert!(s.remove(n));
    }
    let _kept = s.insert(99);
    assert!(s.get_ref(k).is_none());
    assert_eq!(s.get(k), None);
    assert_eq!(s.set(k, 0), None);
}

#[test]
fn set_replaces_in_place() {
    let mut s: LeakStorage<u32> = LeakStorage::new();
    let k = s.insert(1);
    assert_eq!(s.set(k, 2), Some(1));
    assert_eq!(s.get_ref(k).copied(), Some(2));
}

#[test]
fn set_rejects_unknown_handle() {
    let mut s: LeakStorage<u32> = LeakStorage::new();
    let bogus = Key { index: 3, generation: 0 };
    assert_eq!(s.set(bogus, 5), None);
}

#[test]
fn get_ref_mut_updates_entry() {
    let mut s: LeakStorage<u32> = LeakStorage::new();
    let k = s.insert(5);
    *s.get_ref_mut(k) = 6;
    assert_eq!(s.get_ref(k).copied(), Some(6));
}
