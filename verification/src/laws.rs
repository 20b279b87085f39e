//! What the operations of a vector and of its iterators mean when they are
//! combined.
//!
//! The contracts of the operations are stated over sequences: `push` is
//! `Seq::push`, `pop` takes `last` and leaves `drop_last`, `insert` and
//! `remove` are `Seq::insert` and `Seq::remove`, a step of an iterator at the
//! front takes `first` and leaves `drop_first`, a step at the back takes
//! `last` and leaves `drop_last`. The laws here are stated over the same
//! operations, so that they hold of every vector and of every iterator.

use vstd::prelude::*;

verus! {

/// `seq` after each element of `elems` was pushed onto it, first to last.
pub open spec fn pushed<T>(seq: Seq<T>, elems: Seq<T>) -> Seq<T>
    decreases elems.len(),
{
    if elems.len() == 0 {
        seq
    } else {
        pushed(seq.push(elems.first()), elems.drop_first())
    }
}

/// What `n` pops yield from `seq`, in the order they yield it. Popping stops
/// yielding once `seq` is empty.
pub open spec fn popped<T>(seq: Seq<T>, n: nat) -> Seq<T>
    decreases n,
{
    if n == 0 || seq.len() == 0 {
        Seq::empty()
    } else {
        seq![seq.last()] + popped(seq.drop_last(), (n - 1) as nat)
    }
}

/// What `n` pops leave of `seq`.
pub open spec fn after_pops<T>(seq: Seq<T>, n: nat) -> Seq<T>
    decreases n,
{
    if n == 0 || seq.len() == 0 {
        seq
    } else {
        after_pops(seq.drop_last(), (n - 1) as nat)
    }
}

/// What an iterator over `seq` has yielded and has left after it was asked
/// once for every entry of `ends`: at the front where the entry is `true`,
/// at the back where it is `false`.
pub struct Consumed<T> {
    /// What was yielded at the front, in the order it was yielded.
    pub front: Seq<T>,
    /// What was yielded at the back, in the order it was yielded.
    pub back: Seq<T>,
    /// What is left.
    pub rest: Seq<T>,
}

/// Walks `seq` as `ends` says. A step on an iterator that has nothing left
/// yields nothing.
pub open spec fn consumed<T>(seq: Seq<T>, ends: Seq<bool>) -> Consumed<T>
    decreases ends.len(),
{
    if ends.len() == 0 {
        Consumed { front: Seq::empty(), back: Seq::empty(), rest: seq }
    } else {
        let before = consumed(seq, ends.drop_last());
        if before.rest.len() == 0 {
            before
        } else if ends.last() {
            Consumed {
                front: before.front.push(before.rest.first()),
                back: before.back,
                rest: before.rest.drop_first(),
            }
        } else {
            Consumed {
                front: before.front,
                back: before.back.push(before.rest.last()),
                rest: before.rest.drop_last(),
            }
        }
    }
}

/// Pushing the elements of `elems` one after another appends `elems`.
pub proof fn lemma_pushed<T>(seq: Seq<T>, elems: Seq<T>)
    ensures
        pushed(seq, elems) == seq + elems,
    decreases elems.len(),
{
    if elems.len() == 0 {
        assert(seq + elems =~= seq);
    } else {
        lemma_pushed(seq.push(elems.first()), elems.drop_first());
        assert(seq.push(elems.first()) + elems.drop_first() =~= seq + elems);
    }
}

/// After `n` pushes onto an empty vector the length is `n` and the `i`-th
/// value pushed is at index `i`.
pub proof fn lemma_pushes_from_empty<T>(elems: Seq<T>)
    ensures
        pushed(Seq::<T>::empty(), elems).len() == elems.len(),
        forall|i: int| 0 <= i < elems.len() ==> pushed(Seq::<T>::empty(), elems)[i] == elems[i],
{
    lemma_pushed(Seq::<T>::empty(), elems);
    assert(Seq::<T>::empty() + elems =~= elems);
}

/// Pops yield last in, first out: after the elements of `elems` were pushed
/// onto `seq`, as many pops yield `elems` from its last element to its first
/// and leave `seq`.
pub proof fn lemma_pops_undo_pushes<T>(seq: Seq<T>, elems: Seq<T>)
    ensures
        popped(pushed(seq, elems), elems.len()) == elems.reverse(),
        after_pops(pushed(seq, elems), elems.len()) == seq,
    decreases elems.len(),
{
    lemma_pushed(seq, elems);
    if elems.len() == 0 {
        assert(seq + elems =~= seq);
        assert(elems.reverse() =~= Seq::<T>::empty());
    } else {
        let all = seq + elems;
        let shorter = elems.drop_last();
        lemma_pushed(seq, shorter);
        lemma_pops_undo_pushes(seq, shorter);
        assert(all.drop_last() =~= seq + shorter);
        assert(all.last() == elems.last());
        assert(elems.reverse() =~= seq![elems.last()] + shorter.reverse());
    }
}

/// Inserting at `index` and removing at `index` again gives back the value
/// inserted and the sequence there was: its length and the order of all
/// other elements.
pub proof fn lemma_insert_then_remove<T>(seq: Seq<T>, index: int, elem: T)
    requires
        0 <= index <= seq.len(),
    ensures
        seq.insert(index, elem).len() == seq.len() + 1,
        seq.insert(index, elem)[index] == elem,
        seq.insert(index, elem).remove(index) == seq,
{
    assert(seq.insert(index, elem).remove(index) =~= seq);
}

/// However the two ends are chosen, what came out at the front, what is
/// left, and what came out at the back read backwards, make up the sequence
/// there was: no element twice, none missing, none out of place.
pub proof fn lemma_consumed<T>(seq: Seq<T>, ends: Seq<bool>)
    ensures
        consumed(seq, ends).front + consumed(seq, ends).rest + consumed(seq, ends).back.reverse()
            == seq,
        consumed(seq, ends).front.len() + consumed(seq, ends).back.len() == (if ends.len()
            <= seq.len() {
            ends.len()
        } else {
            seq.len()
        }),
    decreases ends.len(),
{
    if ends.len() == 0 {
        assert(Seq::<T>::empty() + seq + Seq::<T>::empty().reverse() =~= seq);
    } else {
        lemma_consumed(seq, ends.drop_last());
        let before = consumed(seq, ends.drop_last());
        let after = consumed(seq, ends);
        if before.rest.len() == 0 {
        } else if ends.last() {
            assert(after.front + after.rest =~= before.front + before.rest);
        } else {
            assert(after.back.reverse() =~= seq![before.rest.last()] + before.back.reverse());
            assert(after.front + after.rest + after.back.reverse() =~= before.front + before.rest
                + before.back.reverse());
        }
    }
}

/// An iterator asked once for every element has nothing left, and the two
/// ends together have yielded every element exactly once.
pub proof fn lemma_consumed_whole<T>(seq: Seq<T>, ends: Seq<bool>)
    requires
        ends.len() == seq.len(),
    ensures
        consumed(seq, ends).rest.len() == 0,
        consumed(seq, ends).front + consumed(seq, ends).back.reverse() == seq,
{
    lemma_consumed(seq, ends);
    let c = consumed(seq, ends);
    assert(c.front.len() + c.rest.len() + c.back.reverse().len() == seq.len());
    assert(c.front + c.rest =~= c.front);
}

/// Walked from the front only, a sequence comes out in its own order.
pub proof fn lemma_consumed_forward<T>(seq: Seq<T>)
    ensures
        consumed(seq, Seq::new(seq.len(), |i: int| true)).front == seq,
        consumed(seq, Seq::new(seq.len(), |i: int| true)).rest.len() == 0,
{
    let ends = Seq::new(seq.len(), |i: int| true);
    lemma_consumed_whole(seq, ends);
    lemma_one_end(seq, ends);
    let c = consumed(seq, ends);
    assert(c.back =~= Seq::<T>::empty());
    assert(c.front + c.back.reverse() =~= c.front);
}

/// Walked from the back only, a sequence comes out in reverse order.
pub proof fn lemma_consumed_backward<T>(seq: Seq<T>)
    ensures
        consumed(seq, Seq::new(seq.len(), |i: int| false)).back == seq.reverse(),
        consumed(seq, Seq::new(seq.len(), |i: int| false)).rest.len() == 0,
{
    let ends = Seq::new(seq.len(), |i: int| false);
    lemma_consumed_whole(seq, ends);
    lemma_one_end(seq, ends);
    let c = consumed(seq, ends);
    assert(c.front =~= Seq::<T>::empty());
    assert(c.front + c.back.reverse() =~= c.back.reverse());
    assert(c.back.reverse().reverse() =~= c.back);
}

/// An end that is never chosen yields nothing.
proof fn lemma_one_end<T>(seq: Seq<T>, ends: Seq<bool>)
    ensures
        (forall|i: int| 0 <= i < ends.len() ==> ends[i]) ==> consumed(seq, ends).back.len() == 0,
        (forall|i: int| 0 <= i < ends.len() ==> !ends[i]) ==> consumed(seq, ends).front.len() == 0,
    decreases ends.len(),
{
    if ends.len() > 0 {
        lemma_one_end(seq, ends.drop_last());
        assert(forall|i: int| 0 <= i < ends.drop_last().len() ==> ends.drop_last()[i] == ends[i]);
    }
}

/// A vector that was pushed onto `elems.len()` times yields as many items
/// when it is walked to the end, whichever ends are chosen and whatever the
/// elements are, those without storage too.
pub proof fn lemma_pushed_then_consumed<T>(elems: Seq<T>, ends: Seq<bool>)
    requires
        ends.len() == elems.len(),
    ensures
        consumed(pushed(Seq::<T>::empty(), elems), ends).front.len() + consumed(
            pushed(Seq::<T>::empty(), elems),
            ends,
        ).back.len() == elems.len(),
        consumed(pushed(Seq::<T>::empty(), elems), ends).rest.len() == 0,
{
    lemma_pushes_from_empty(elems);
    lemma_consumed(pushed(Seq::<T>::empty(), elems), ends);
    lemma_consumed_whole(pushed(Seq::<T>::empty(), elems), ends);
}

} // verus!
