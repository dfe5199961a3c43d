use zombies::Error;
use zombies::Event;
use zombies::Registry;
use zombies::ZombieStore;
use zombies::Zombie;

#[test]
fn two_callers_create_in_sequence() {
    // Counter starts at 0; caller A gets id 0, caller B gets id 1.
    let a: u64 = 1;
    let b: u64 = 2;
    let seed = [9u8; 32];
    let mut reg = Registry::new();
    assert_eq!(reg.next_id(), 0);

    let ev_a = reg.create(a, &seed, 0).unwrap();
    match ev_a {
        Event::ZombieCreated(owner, id, _) => {
            assert_eq!(owner, a);
            assert_eq!(id, 0);
        },
    }
    assert_eq!(reg.next_id(), 1);

    let ev_b = reg.create(b, &seed, 1).unwrap();
    match ev_b {
        Event::ZombieCreated(owner, id, _) => {
            assert_eq!(owner, b);
            assert_eq!(id, 1);
        },
    }
    assert_eq!(reg.next_id(), 2);

    // A's record stands at (A, 0); id 1 belongs to B, not A.
    assert!(reg.lookup(a, 0).is_some());
    assert!(reg.lookup(a, 1).is_none());
    assert!(reg.lookup(b, 1).is_some());
    assert!(reg.lookup(b, 0).is_none());
}

#[test]
fn created_record_matches_event_and_lookup() {
    let owner: u64 = 42;
    let seed = [1u8, 2, 3, 4];
    let mut reg = Registry::new();
    let ev = reg.create(owner, &seed, 7).unwrap();
    let Event::ZombieCreated(ev_owner, ev_id, ev_zombie) = ev;
    assert_eq!(ev_owner, owner);
    assert_eq!(ev_id, 0);
    let stored = reg.lookup(owner, 0).unwrap();
    assert_eq!(stored, ev_zombie);
}

#[test]
fn allocated_ids_are_contiguous_and_distinct() {
    // A mix of callers: the ids form the contiguous run 0..6 with no repeat.
    let seed = [5u8; 16];
    let mut reg = Registry::new();
    let callers: [u64; 6] = [3, 1, 3, 2, 1, 3];
    let mut ids: Vec<u32> = Vec::new();
    for (i, &c) in callers.iter().enumerate() {
        let Event::ZombieCreated(_, id, _) = reg.create(c, &seed, i as u32).unwrap();
        ids.push(id);
    }
    assert_eq!(ids, vec![0, 1, 2, 3, 4, 5]);
    for i in 0..ids.len() {
        for j in (i + 1)..ids.len() {
            assert_ne!(ids[i], ids[j]);
        }
    }
    assert_eq!(reg.next_id(), 6);
}

#[test]
fn next_id_is_monotonic() {
    let seed = [0u8; 8];
    let mut reg = Registry::new();
    let mut last = reg.next_id();
    for k in 0..5u32 {
        reg.create(10, &seed, k).unwrap();
        let now = reg.next_id();
        assert!(now >= last);
        assert_eq!(now, last + 1);
        last = now;
    }
    // A failed creation leaves the counter unchanged.
    let mut full = Registry::with_next_id(u32::MAX);
    let before = full.next_id();
    assert!(full.create(10, &seed, 0).is_err());
    assert_eq!(full.next_id(), before);
}

#[test]
fn create_fails_at_counter_maximum() {
    // Counter at 4294967295: create fails, counter stays, nothing is stored.
    let owner: u64 = 8;
    let seed = [7u8; 32];
    let mut reg = Registry::with_next_id(u32::MAX);
    let res = reg.create(owner, &seed, 0);
    assert_eq!(res.unwrap_err(), Error::ZombiesIdOverflow);
    assert_eq!(reg.next_id(), u32::MAX);
    assert!(reg.lookup(owner, u32::MAX).is_none());
}

#[test]
fn create_succeeds_just_below_counter_maximum() {
    let owner: u64 = 8;
    let seed = [7u8; 32];
    let mut reg = Registry::with_next_id(u32::MAX - 1);
    let Event::ZombieCreated(_, id, _) = reg.create(owner, &seed, 0).unwrap();
    assert_eq!(id, u32::MAX - 1);
    assert_eq!(reg.next_id(), u32::MAX);
    assert!(reg.lookup(owner, u32::MAX - 1).is_some());
    // The very next attempt hits the boundary.
    assert_eq!(reg.create(owner, &seed, 1).unwrap_err(), Error::ZombiesIdOverflow);
}

#[test]
fn store_insert_then_get() {
    let mut store = ZombieStore::new();
    let z = Zombie([3u8; 16]);
    store.insert(5, 0, z);
    assert_eq!(store.get(5, 0), Some(z));
    assert_eq!(store.get(5, 1), None);
    assert_eq!(store.get(6, 0), None);
}

#[test]
fn error_kinds_are_distinguishable() {
    assert_ne!(Error::ZombiesIdOverflow, Error::InvalidZombieId);
    assert_ne!(Error::ZombiesIdOverflow, Error::SameGender);
    assert_ne!(Error::InvalidZombieId, Error::SameGender);
}
