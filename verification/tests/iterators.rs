use nomvec::{Global, NomVec};
use std::rc::Rc;

fn filled(values: &[i32]) -> NomVec<i32, Global> {
    let mut cv = NomVec::new(Global::new());
    for v in values {
        cv.push(*v).unwrap();
    }
    cv
}

#[test]
fn drain_scenario_from_both_ends() {
    let mut cv = filled(&[1, 2, 3]);
    {
        let mut drain = cv.drain();
        assert_eq!(drain.size_hint(), (3, Some(3)));
        assert_eq!(drain.next(), Some(1));
        assert_eq!(drain.next_back(), Some(3));
        assert_eq!(drain.size_hint(), (1, Some(1)));
        assert_eq!(drain.next(), Some(2));
        assert_eq!(drain.next(), None);
        assert_eq!(drain.next_back(), None);
        assert_eq!(drain.size_hint(), (0, Some(0)));
    }
    assert_eq!(cv.len(), 0);
    assert!(cv.is_empty());
}

#[test]
fn drain_forward_yields_everything_once() {
    let mut cv = filled(&[5, 6, 7, 8, 9]);
    let cap = cv.cap();
    let mut seen = Vec::new();
    {
        let mut drain = cv.drain();
        while let Some(x) = drain.next() {
            seen.push(x);
        }
    }
    assert_eq!(seen, vec![5, 6, 7, 8, 9]);
    assert_eq!(cv.len(), 0);
    assert_eq!(cv.cap(), cap);
}

#[test]
fn drain_backward_yields_everything_reversed() {
    let mut cv = filled(&[5, 6, 7, 8, 9]);
    let mut seen = Vec::new();
    {
        let mut drain = cv.drain();
        while let Some(x) = drain.next_back() {
            seen.push(x);
        }
    }
    assert_eq!(seen, vec![9, 8, 7, 6, 5]);
    assert_eq!(cv.len(), 0);
}

#[test]
fn drained_vector_is_empty_at_once_and_can_be_used_again() {
    let mut cv = filled(&[1, 2, 3, 4]);
    {
        let mut drain = cv.drain();
        assert_eq!(drain.next(), Some(1));
        // abandoned with three elements left
    }
    assert_eq!(cv.len(), 0);
    assert_eq!(cv.pop(), None);
    assert_eq!(cv.get(0), None);
    cv.push(10).unwrap();
    cv.push(11).unwrap();
    assert_eq!(cv.len(), 2);
    assert_eq!(cv.get(0), Some(&10));
    assert_eq!(cv.get(1), Some(&11));
    assert_eq!(cv.get(2), None);
    let mut drain = cv.drain();
    assert_eq!(drain.next(), Some(10));
    assert_eq!(drain.next(), Some(11));
    assert_eq!(drain.next(), None);
}

#[test]
fn finish_drops_what_was_not_yielded() {
    let token = Rc::new(());
    let mut cv: NomVec<Rc<()>, Global> = NomVec::new(Global::new());
    for _ in 0..5 {
        cv.push(token.clone()).unwrap();
    }
    assert_eq!(Rc::strong_count(&token), 6);
    {
        let mut drain = cv.drain();
        let first = drain.next();
        assert!(first.is_some());
        drop(first);
        assert_eq!(Rc::strong_count(&token), 5);
        drain.finish();
        assert_eq!(Rc::strong_count(&token), 1);
        assert_eq!(drain.size_hint(), (0, Some(0)));
        assert!(drain.next().is_none());
    }
    assert_eq!(cv.len(), 0);
    assert_eq!(cv.cap(), 6);
}

#[test]
fn mixed_consumption_yields_everything_for_any_split() {
    let values = [1, 2, 3, 4, 5, 6, 7];
    for split in 0..=values.len() {
        let mut iter = filled(&values).into_iter();
        let mut front = Vec::new();
        for _ in 0..split {
            front.push(iter.next().unwrap());
        }
        let mut back = Vec::new();
        while let Some(x) = iter.next_back() {
            back.push(x);
        }
        assert_eq!(iter.next(), None);
        assert_eq!(front.len() + back.len(), values.len());
        back.reverse();
        front.extend(back);
        assert_eq!(front, values.to_vec());
    }
}

#[test]
fn alternating_consumption_yields_everything() {
    let mut iter = filled(&[1, 2, 3, 4, 5, 6]).into_iter();
    assert_eq!(iter.next(), Some(1));
    assert_eq!(iter.next_back(), Some(6));
    assert_eq!(iter.next_back(), Some(5));
    assert_eq!(iter.next(), Some(2));
    assert_eq!(iter.size_hint(), (2, Some(2)));
    assert_eq!(iter.next_back(), Some(4));
    assert_eq!(iter.next(), Some(3));
    assert_eq!(iter.next(), None);
    assert_eq!(iter.next_back(), None);
}

#[test]
fn into_iter_of_an_empty_vector_yields_nothing() {
    let cv: NomVec<i32, Global> = NomVec::new(Global::new());
    let mut iter = cv.into_iter();
    assert_eq!(iter.size_hint(), (0, Some(0)));
    assert_eq!(iter.next(), None);
    assert_eq!(iter.next_back(), None);
}

#[test]
fn into_iter_teardown_drops_what_was_not_yielded() {
    let token = Rc::new(());
    let mut cv: NomVec<Rc<()>, Global> = NomVec::new(Global::new());
    for _ in 0..4 {
        cv.push(token.clone()).unwrap();
    }
    let mut iter = cv.into_iter();
    let first = iter.next();
    assert!(first.is_some());
    assert_eq!(Rc::strong_count(&token), 5);
    iter.teardown();
    assert_eq!(Rc::strong_count(&token), 2);
    assert_eq!(iter.size_hint(), (0, Some(0)));
    assert!(iter.next().is_none());
    iter.teardown();
    assert!(iter.next_back().is_none());
}

#[test]
fn borrowing_iterator_walks_from_both_ends() {
    let cv = filled(&[1, 2, 3, 4]);
    let mut iter = cv.iter();
    assert_eq!(iter.size_hint(), (4, Some(4)));
    assert_eq!(iter.next(), Some(&1));
    assert_eq!(iter.next_back(), Some(&4));
    assert_eq!(iter.next_back(), Some(&3));
    assert_eq!(iter.next(), Some(&2));
    assert_eq!(iter.next(), None);
    assert_eq!(iter.next_back(), None);
    assert_eq!(cv.len(), 4);
}

#[test]
fn popped_slots_are_not_walked() {
    let mut cv = filled(&[1, 2, 3, 4]);
    assert_eq!(cv.pop(), Some(4));
    assert_eq!(cv.remove(0), 1);
    let mut iter = cv.into_iter();
    assert_eq!(iter.size_hint(), (2, Some(2)));
    assert_eq!(iter.next(), Some(2));
    assert_eq!(iter.next(), Some(3));
    assert_eq!(iter.next(), None);
}
