use abes_nice_things::mutec::{Atomex, AsyncIter, LockOutcome, Mutec, MutecGuard, Sweep};

fn acquire<T>(mutec: &mut Mutec<T>, index: usize) -> MutecGuard<T> {
    match mutec.lock(index, 0) {
        LockOutcome::Acquired(guard) => guard,
        LockOutcome::Queued => panic!("slot {index} was held"),
    }
}

fn sweep<T>(iter: &mut AsyncIter, mutec: &mut Mutec<T>) -> Option<MutecGuard<T>> {
    match iter.next(mutec) {
        Sweep::Produced(guard) => Some(guard),
        Sweep::AllHeld => panic!("every remaining slot was held"),
        Sweep::Exhausted => None,
    }
}

#[test]
fn basic_get_value() {
    let mut atomex: Atomex<usize> = Atomex::new(5);
    assert_eq!(
        atomex.try_lock().expect("failed to get available lock"),
        5,
        "Value was changed in locking"
    )
}

#[test]
fn basic_all() {
    let mut atomex: Atomex<usize> = Atomex::new(7);
    assert!(!atomex.check_lock(), "Atomex was locked on creation");
    let value = atomex.try_lock().expect("failed to acquire lock");
    assert!(atomex.check_lock(), "Atomex was unlocked after lock was acquired");
    atomex.try_lock().expect_err("Lock was gained while locked");
    atomex.unlock(value);
    assert!(!atomex.check_lock(), "Atomex was locked after unlocking");
}

#[test]
fn basic_lock() {
    let mut mutec: Mutec<usize> = Mutec::from_vec(vec![1]);
    let lock = acquire(&mut mutec, 0);
    assert_eq!(*lock.get(), 1, "Read failed, was: {}, expected 1", *lock.get());
}

#[test]
fn basic_lock_usize() {
    let mut mutec: Mutec<usize> = Mutec::from_vec(vec![1]);
    let lock = acquire(&mut mutec, 0);
    assert_eq!(*lock.get(), 1, "Read failed, was: {}, expected 1", *lock.get());
}

#[test]
fn mutec_check_lock() {
    let mut mutec: Mutec<usize> = Mutec::from_vec(vec![1]);
    assert!(!mutec.check_lock(0), "Initial false positive");
    let guard = acquire(&mut mutec, 0);
    assert!(mutec.check_lock(0), "false negative");
    mutec.unlock(guard);
    assert!(!mutec.check_lock(0), "Post false positive");
}

#[test]
fn nvec_check_lock() {
    let mut mutec: Mutec<usize> = Mutec::from_vec(vec![1]);
    assert!(!mutec.check_lock(0), "Initial false positive");
    let guard = acquire(&mut mutec, 0);
    assert!(mutec.check_lock(0), "false negative");
    mutec.unlock(guard);
    assert!(!mutec.check_lock(0), "Post false positive");
}

#[test]
fn mutec_basic_unique_lock() {
    let mut mutec: Mutec<usize> = Mutec::from_vec(vec![1]);
    let _guard = acquire(&mut mutec, 0);
    if let Ok(_) = mutec.try_lock(0) {
        panic!("Aquired lock while lock already exists")
    };
}

#[test]
fn nvec_basic_unique_lock() {
    let mut mutec: Mutec<usize> = Mutec::from_vec(vec![1]);
    let _guard = acquire(&mut mutec, 0);
    if let Ok(_) = mutec.try_lock(0) {
        panic!("Aquired lock while lock already exists")
    }
}

#[test]
fn empty_creation() {
    let mutec: Mutec<usize> = Mutec::new();
    assert_eq!(mutec.len(), 0);
}

#[test]
fn basic_int_mut() {
    let mut mutec: Mutec<&str> = Mutec::from_vec(vec!["the"]);
    let mut guard = acquire(&mut mutec, 0);
    guard.set("pencil");
    mutec.unlock(guard);
    assert_eq!(*acquire(&mut mutec, 0).get(), "pencil", "Value was not correct");
}

#[test]
fn mutec_next_basic() {
    let list: [&str; 11] = ["5", "6", "7", "8", "9", "10", "11", "12", "13", "15", "16"];
    let mut mutec: Mutec<&str> = Mutec::from_vec(list.to_vec());
    let mut mutec_iter = mutec.iter();
    for (index, item) in list.iter().enumerate() {
        assert_eq!(mutec_iter.len(), list.len() - index);
        match mutec_iter.next(&mut mutec, 0).expect("mutec_iter was too short") {
            LockOutcome::Acquired(guard) => assert_eq!(
                *item,
                *guard.get(),
                "Iterators were not equivalent at index: {index}",
            ),
            LockOutcome::Queued => panic!("slot {index} was held"),
        }
    }
    assert_eq!(mutec_iter.len(), 0);
}

#[test]
fn next_back_basic() {
    let list: [&str; 11] = ["5", "6", "7", "8", "9", "10", "11", "12", "13", "15", "16"];
    let mut mutec: Mutec<&str> = Mutec::from_vec(list.to_vec());
    let mut mutec_iter = mutec.iter();
    for (index, item) in list.iter().rev().enumerate() {
        assert_eq!(mutec_iter.len(), list.len() - index);
        match mutec_iter.next_back(&mut mutec, 0).expect("mutec_iter was too short") {
            LockOutcome::Acquired(guard) => assert_eq!(
                *item,
                *guard.get(),
                "Iterators were not equivalent at index: {index}"
            ),
            LockOutcome::Queued => panic!("slot {index} was held"),
        }
    }
}

#[test]
fn mutec_next_over() {
    let mut mutec: Mutec<&str> = Mutec::from_vec(vec!["5", "6", "7"]);
    let mut mutec_iter = mutec.iter();
    mutec_iter.next(&mut mutec, 0);
    mutec_iter.next(&mut mutec, 0);
    mutec_iter.next(&mut mutec, 0);
    assert!(mutec_iter.next(&mut mutec, 0).is_none(), "mutec iter had an extra value");
    assert!(mutec_iter.next(&mut mutec, 0).is_none(), "mutec iter had an extra value");
    assert!(mutec_iter.next(&mut mutec, 0).is_none(), "mutec iter had an extra value");
}

#[test]
fn next_back_over() {
    let mut mutec: Mutec<&str> = Mutec::from_vec(vec!["5", "6", "7"]);
    let mut mutec_iter = mutec.iter();
    mutec_iter.next_back(&mut mutec, 0);
    mutec_iter.next_back(&mut mutec, 0);
    mutec_iter.next_back(&mut mutec, 0);
    assert!(mutec_iter.next_back(&mut mutec, 0).is_none(), "mutec iter had an extra value");
    assert!(mutec_iter.next_back(&mut mutec, 0).is_none(), "mutec iter had an extra value");
    assert!(mutec_iter.next_back(&mut mutec, 0).is_none(), "mutec iter had an extra value");
}

#[test]
fn async_next_basic() {
    let source: &[usize] = &[5, 2, 7, 42, 79];
    let mut mutec: Mutec<usize> = Mutec::new();
    mutec.extend_from_slice(source);
    let mut check: Vec<usize> = Vec::with_capacity(source.len());
    let mut iter = mutec.async_iter();
    while let Some(item) = sweep(&mut iter, &mut mutec) {
        check.push(*item.get());
        mutec.unlock(item);
    }
    assert_eq!(source, check);
}

#[test]
fn async_next_over() {
    let source: &[usize] = &[5, 9, 23];
    let mut mutec: Mutec<usize> = Mutec::new();
    mutec.extend_from_slice(source);
    let mut iter = mutec.async_iter();
    sweep(&mut iter, &mut mutec);
    sweep(&mut iter, &mut mutec);
    sweep(&mut iter, &mut mutec);
    assert!(sweep(&mut iter, &mut mutec).is_none());
    assert!(sweep(&mut iter, &mut mutec).is_none());
}

#[test]
fn racing_increments_are_not_lost() {
    let threads: u64 = 4;
    let iterations: u64 = 100;
    let mut mutec: Mutec<u64> = Mutec::from_vec(vec![0, 0]);
    let mut done = vec![0u64; threads as usize];
    let mut holding: Vec<Option<MutecGuard<u64>>> = (0..threads).map(|_| None).collect();
    let mut parked = vec![false; threads as usize];
    while done.iter().any(|d| *d < iterations) {
        for t in 0..threads as usize {
            if let Some(mut guard) = holding[t].take() {
                let v = *guard.get();
                guard.set(v + 1);
                done[t] += 1;
                if let Some(woken) = mutec.unlock(guard) {
                    parked[woken as usize] = false;
                }
            } else if done[t] < iterations && !parked[t] {
                match mutec.lock(0, t as u64) {
                    LockOutcome::Acquired(guard) => holding[t] = Some(guard),
                    LockOutcome::Queued => parked[t] = true,
                }
            }
        }
    }
    assert_eq!(*acquire(&mut mutec, 0).get(), threads * iterations);
    assert_eq!(*acquire(&mut mutec, 1).get(), 0);
}

#[test]
fn contended_try_lock_fails_until_release() {
    let mut mutec: Mutec<u8> = Mutec::from_vec(vec![9]);
    let guard = mutec.try_lock(0).expect("free slot");
    assert!(mutec.try_lock(0).is_err());
    assert!(mutec.try_lock(0).is_err());
    assert_eq!(mutec.unlock(guard), None);
    let again = mutec.try_lock(0).expect("released slot");
    assert_eq!(*again.get(), 9);
}

#[test]
fn peek_held_follows_acquisition() {
    let mut mutec: Mutec<u8> = Mutec::from_vec(vec![1, 2]);
    assert!(!mutec.check_lock(1));
    let guard = mutec.try_lock(1).expect("free slot");
    assert!(mutec.check_lock(1));
    assert!(!mutec.check_lock(0));
    mutec.unlock(guard);
    assert!(!mutec.check_lock(1));
}

#[test]
fn opportunistic_skips_held_slot() {
    let mut mutec: Mutec<u32> = Mutec::from_vec(vec![10, 11, 12, 13]);
    let held = mutec.try_lock(2).expect("free slot");
    let mut iter = mutec.async_iter();
    let mut seen: Vec<usize> = Vec::new();
    for _ in 0..3 {
        let guard = sweep(&mut iter, &mut mutec).expect("a free slot");
        seen.push(guard.index());
        mutec.unlock(guard);
    }
    assert_eq!(seen, vec![0, 1, 3]);
    assert!(matches!(iter.next(&mut mutec), Sweep::AllHeld));
    mutec.unlock(held);
    let last = sweep(&mut iter, &mut mutec).expect("slot 2 once freed");
    assert_eq!((last.index(), *last.get()), (2, 12));
    seen.push(last.index());
    assert!(sweep(&mut iter, &mut mutec).is_none());
    seen.sort();
    assert_eq!(seen, vec![0, 1, 2, 3]);
}

#[test]
fn values_survive_construction() {
    let mut mutec: Mutec<i32> = Mutec::from_vec(vec![1, 2, 3]);
    assert_eq!(*acquire(&mut mutec, 0).get(), 1);
    assert_eq!(*acquire(&mut mutec, 1).get(), 2);
    assert_eq!(*acquire(&mut mutec, 2).get(), 3);
}

#[test]
fn blocked_waiter_is_handed_the_slot() {
    let mut mutec: Mutec<&str> = Mutec::from_vec(vec!["is"]);
    let mut a = match mutec.lock(0, 1) {
        LockOutcome::Acquired(guard) => guard,
        LockOutcome::Queued => panic!("slot was free"),
    };
    assert!(matches!(mutec.lock(0, 2), LockOutcome::Queued));
    a.set("hungry");
    assert_eq!(mutec.unlock(a), Some(2));
    match mutec.lock(0, 2) {
        LockOutcome::Acquired(b) => assert_eq!(*b.get(), "hungry"),
        LockOutcome::Queued => panic!("woken waiter was refused"),
    }
}

#[test]
fn waiters_are_woken_in_arrival_order() {
    let mut mutec: Mutec<u8> = Mutec::from_vec(vec![0]);
    let guard = mutec.try_lock(0).expect("free slot");
    assert!(matches!(mutec.lock(0, 7), LockOutcome::Queued));
    assert!(matches!(mutec.lock(0, 3), LockOutcome::Queued));
    assert_eq!(mutec.unlock(guard), Some(7));
    let guard = mutec.try_lock(0).expect("free slot");
    assert_eq!(mutec.unlock(guard), Some(3));
    let guard = mutec.try_lock(0).expect("free slot");
    assert_eq!(mutec.unlock(guard), None);
}

#[test]
fn collect_all_guards_in_order() {
    let mut mutec: Mutec<char> = Mutec::from_vec(vec!['a', 'b', 'c']);
    let guards = mutec.to_vec();
    assert_eq!(guards.len(), 3);
    for (i, g) in guards.iter().enumerate() {
        assert_eq!(g.index(), i);
        assert!(mutec.check_lock(i));
    }
    assert_eq!(*guards[1].get(), 'b');
    for g in guards {
        mutec.unlock(g);
    }
    assert!(!mutec.check_lock(0));
}

#[test]
fn sequential_cursor_waits_on_held_slot() {
    let mut mutec: Mutec<u8> = Mutec::from_vec(vec![4, 5]);
    let held = mutec.try_lock(1).expect("free slot");
    let mut iter = mutec.iter();
    assert!(matches!(iter.next(&mut mutec, 8), Some(LockOutcome::Acquired(_))));
    assert!(matches!(iter.next(&mut mutec, 8), Some(LockOutcome::Queued)));
    assert_eq!(iter.len(), 1);
    assert_eq!(mutec.unlock(held), Some(8));
    match iter.next(&mut mutec, 8) {
        Some(LockOutcome::Acquired(g)) => assert_eq!(*g.get(), 5),
        _ => panic!("slot 1 was free again"),
    }
    assert!(iter.next(&mut mutec, 8).is_none());
}

#[test]
fn guards_compare_by_value() {
    let mut mutec: Mutec<u8> = Mutec::from_vec(vec![3, 3, 4]);
    let a = mutec.try_lock(0).unwrap();
    let b = mutec.try_lock(1).unwrap();
    let mut c = mutec.try_lock(2).unwrap();
    assert!(a == b);
    assert!(a != c);
    assert!(c.value_eq(&4));
    *c.get_mut() = 3;
    assert!(a == c);
    mutec.unlock(c);
    assert_eq!(*mutec.try_lock(2).unwrap().get(), 3);
}

#[test]
fn extend_appends_free_slots() {
    let mut mutec: Mutec<u8> = Mutec::from_vec(vec![1]);
    mutec.push(2);
    mutec.extend(vec![3, 4]);
    assert_eq!(mutec.len(), 4);
    for i in 0..4 {
        assert!(!mutec.check_lock(i));
        assert_eq!(*mutec.try_lock(i).unwrap().get(), i as u8 + 1);
    }
}
