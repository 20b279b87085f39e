use nomvec::{AllocationError, Global, NomVec};

#[test]
fn vec_push() {
    let mut cv = NomVec::new(Global::new());
    cv.push(2).unwrap();
    assert_eq!(cv.len(), 1);
    cv.push(3).unwrap();
    assert_eq!(cv.len(), 2);
}

#[test]
fn vec_iter() {
    let mut cv = NomVec::new(Global::new());
    cv.push(2).unwrap();
    cv.push(3).unwrap();
    let mut accum = 0;
    let mut iter = cv.iter();
    while let Some(x) = iter.next() {
        accum += x;
    }
    assert_eq!(accum, 5);
}

#[test]
fn vec_into_iter() {
    let mut cv = NomVec::new(Global::new());
    cv.push(2).unwrap();
    cv.push(3).unwrap();
    let mut iter = cv.into_iter();
    let mut collected: Vec<i32> = Vec::new();
    while let Some(x) = iter.next() {
        collected.push(x);
    }
    assert_eq!(collected, vec![2, 3]);
}

#[test]
fn vec_into_double_ended_iter() {
    let mut cv = NomVec::new(Global::new());
    cv.push(2).unwrap();
    cv.push(3).unwrap();
    assert_eq!(*cv.iter().next_back().unwrap(), 3);
}

#[test]
fn vec_pop() {
    let mut cv = NomVec::new(Global::new());
    cv.push(2).unwrap();
    assert_eq!(cv.len(), 1);
    cv.pop();
    assert_eq!(cv.len(), 0);
    assert!(cv.pop().is_none());
}

#[test]
fn vec_insert() {
    let mut cv: NomVec<i32, Global> = NomVec::new(Global::new());
    cv.insert(0, 2).unwrap(); // test insert at end
    cv.insert(0, 1).unwrap(); // test insert at beginning
    assert_eq!(cv.pop().unwrap(), 2);
}

#[test]
fn vec_remove() {
    let mut cv = NomVec::new(Global::new());
    cv.push(2).unwrap();
    assert_eq!(cv.remove(0), 2);
    assert_eq!(cv.len(), 0);
}

#[test]
#[should_panic(expected = "index out of bounds")]
fn vec_cant_remove() {
    let mut cv: NomVec<i32, Global> = NomVec::new(Global::new());
    cv.remove(0);
}

#[test]
fn vec_drain() {
    let mut cv = NomVec::new(Global::new());
    cv.push(1).unwrap();
    cv.push(2).unwrap();
    cv.push(3).unwrap();
    assert_eq!(cv.len(), 3);
    {
        let mut drain = cv.drain();
        assert_eq!(drain.next().unwrap(), 1);
        assert_eq!(drain.next_back().unwrap(), 3);
    }
    assert_eq!(cv.len(), 0);
}

#[test]
fn vec_zst() {
    let mut v = NomVec::new(Global::new());
    for _i in 0..10 {
        v.push(()).unwrap();
    }
    assert_eq!(v.len(), 10);

    let mut count = 0;
    let mut iter = v.into_iter();
    while let Some(_) = iter.next() {
        count += 1
    }
    assert_eq!(10, count);
}

#[test]
fn test_many_allocations() {
    let mut cv = NomVec::new(Global::new());
    for i in 0..10_000_000 {
        cv.push(i).unwrap();
    }
    assert_eq!(cv.len(), 10_000_000);
    assert_eq!(*cv.get(999_999).unwrap(), 999_999);
    assert!(cv.cap() > 10_000_000);
}

#[test]
fn new_vector_is_empty_and_holds_no_block() {
    let cv: NomVec<u64, Global> = NomVec::new(Global::new());
    assert!(cv.is_empty());
    assert_eq!(cv.len(), 0);
    assert_eq!(cv.cap(), 0);
    assert!(cv.get(0).is_none());
}

#[test]
fn default_vector_is_empty() {
    let cv: NomVec<u64, Global> = NomVec::default();
    assert!(cv.is_empty());
    assert_eq!(cv.cap(), 0);
}

#[test]
fn pushes_are_read_back_in_order() {
    let mut cv: NomVec<usize, Global> = NomVec::new(Global::new());
    for i in 0..100 {
        assert_eq!(cv.push(i * 7), Ok(()));
        assert_eq!(cv.len(), i + 1);
    }
    assert!(!cv.is_empty());
    for i in 0..100 {
        assert_eq!(cv.get(i), Some(&(i * 7)));
    }
    assert_eq!(cv.get(100), None);
}

#[test]
fn pops_come_last_in_first_out() {
    let mut cv: NomVec<char, Global> = NomVec::new(Global::new());
    for c in ['a', 'b', 'c', 'd', 'e'] {
        cv.push(c).unwrap();
    }
    assert_eq!(cv.pop(), Some('e'));
    assert_eq!(cv.pop(), Some('d'));
    assert_eq!(cv.pop(), Some('c'));
    assert_eq!(cv.pop(), Some('b'));
    assert_eq!(cv.pop(), Some('a'));
    assert_eq!(cv.pop(), None);
    assert_eq!(cv.pop(), None);
    assert_eq!(cv.len(), 0);
}

#[test]
fn pop_keeps_the_capacity() {
    let mut cv: NomVec<u8, Global> = NomVec::new(Global::new());
    for i in 0..5 {
        cv.push(i).unwrap();
    }
    assert_eq!(cv.cap(), 6);
    while cv.pop().is_some() {}
    assert_eq!(cv.cap(), 6);
}

#[test]
fn insert_shifts_the_tail_back() {
    let mut cv: NomVec<i32, Global> = NomVec::new(Global::new());
    for i in [10, 20, 30, 40] {
        cv.push(i).unwrap();
    }
    // the buffer is full: this insert has to grow it first
    assert_eq!(cv.cap(), 4);
    cv.insert(1, 15).unwrap();
    assert_eq!(cv.cap(), 6);
    cv.insert(0, 5).unwrap();
    cv.insert(6, 50).unwrap();
    let mut seen = Vec::new();
    let mut iter = cv.iter();
    while let Some(x) = iter.next() {
        seen.push(*x);
    }
    assert_eq!(seen, vec![5, 10, 15, 20, 30, 40, 50]);
}

#[test]
fn remove_shifts_the_tail_forward() {
    let mut cv: NomVec<i32, Global> = NomVec::new(Global::new());
    for i in [1, 2, 3, 4, 5] {
        cv.push(i).unwrap();
    }
    assert_eq!(cv.remove(1), 2);
    assert_eq!(cv.remove(3), 5);
    assert_eq!(cv.remove(0), 1);
    assert_eq!(cv.len(), 2);
    assert_eq!(cv.get(0), Some(&3));
    assert_eq!(cv.get(1), Some(&4));
    assert_eq!(cv.get(2), None);
}

#[test]
fn insert_then_remove_restores_the_vector() {
    for index in 0..=4 {
        let mut cv: NomVec<String, Global> = NomVec::new(Global::new());
        for s in ["w", "x", "y", "z"] {
            cv.push(s.to_string()).unwrap();
        }
        cv.insert(index, "new".to_string()).unwrap();
        assert_eq!(cv.len(), 5);
        assert_eq!(cv.get(index).unwrap(), "new");
        assert_eq!(cv.remove(index), "new");
        assert_eq!(cv.len(), 4);
        for (i, s) in ["w", "x", "y", "z"].iter().enumerate() {
            assert_eq!(cv.get(i).unwrap(), s);
        }
    }
}

#[test]
fn get_mut_changes_one_element() {
    let mut cv: NomVec<i32, Global> = NomVec::new(Global::new());
    for i in [1, 2, 3] {
        cv.push(i).unwrap();
    }
    *cv.get_mut(1).unwrap() = 20;
    assert!(cv.get_mut(3).is_none());
    assert_eq!(cv.get(0), Some(&1));
    assert_eq!(cv.get(1), Some(&20));
    assert_eq!(cv.get(2), Some(&3));
    assert_eq!(cv.len(), 3);
}

#[test]
fn capacity_follows_the_growth_policy() {
    let mut cv: NomVec<u32, Global> = NomVec::new(Global::new());
    let mut seen = vec![cv.cap()];
    for i in 0..100 {
        let before = cv.cap();
        cv.push(i).unwrap();
        assert!(cv.cap() >= before);
        assert!(cv.cap() >= cv.len());
        if cv.cap() != before {
            seen.push(cv.cap());
        }
    }
    assert_eq!(seen, vec![0, 4, 6, 9, 13, 19, 28, 42, 63, 94, 141]);
}

#[test]
fn zero_sized_elements_never_grow() {
    let mut v: NomVec<(), Global> = NomVec::new(Global::new());
    assert_eq!(v.cap(), usize::MAX);
    for _ in 0..1000 {
        assert_eq!(v.push(()), Ok(()));
    }
    assert_eq!(v.cap(), usize::MAX);
    assert_eq!(v.len(), 1000);
    assert_eq!(v.pop(), Some(()));
    v.insert(0, ()).unwrap();
    assert_eq!(v.remove(500), ());
    assert_eq!(v.len(), 999);
    let mut back = 0;
    let mut iter = v.into_iter();
    assert_eq!(iter.size_hint(), (999, Some(999)));
    while let Some(()) = iter.next_back() {
        back += 1;
    }
    assert_eq!(back, 999);
}

#[test]
fn teardown_leaves_a_fresh_vector() {
    let mut cv: NomVec<String, Global> = NomVec::new(Global::new());
    for s in ["a", "b", "c"] {
        cv.push(s.to_string()).unwrap();
    }
    cv.teardown();
    assert_eq!(cv.len(), 0);
    assert_eq!(cv.cap(), 0);
    cv.teardown();
    assert_eq!(cv.cap(), 0);
    cv.push("again".to_string()).unwrap();
    assert_eq!(cv.cap(), 4);
    assert_eq!(cv.get(0).unwrap(), "again");
}

#[test]
fn error_messages() {
    assert_eq!(AllocationError::CapacityOverflow.message(), "Capacity overflow");
    assert_eq!(AllocationError::AllocationTooLarge.message(), "Allocation too large");
    assert_eq!(AllocationError::AllocationFailed.message(), "Allocation failed");
}
