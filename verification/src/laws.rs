//! Laws of the lists, stated over the sequences that model them and the
//! functions on sequences that the contracts use.
//!
//! A push at the front of `s` gives `seq![elem] + s`, a push at the back
//! `s.push(elem)`; a pop hands out `front(s)` or `back(s)` and leaves
//! `without_front(s)` or `without_back(s)`; a write through a changing view
//! gives `s.update(..)`. The stacks and the persistent list are the front
//! half of this.

use vstd::prelude::*;
use crate::model::{back, front, without_back, without_front};

verus! {

/// One end of a deque.
pub enum End {
    Front,
    Back,
}

/// The sequence after a push of `elem` at `end`.
pub open spec fn pushed<T>(s: Seq<T>, end: End, elem: T) -> Seq<T> {
    match end {
        End::Front => seq![elem] + s,
        End::Back => s.push(elem),
    }
}

/// What a pop at `end` hands out.
pub open spec fn popped<T>(s: Seq<T>, end: End) -> Option<T> {
    match end {
        End::Front => front(s),
        End::Back => back(s),
    }
}

/// What a pop at `end` leaves.
pub open spec fn remainder<T>(s: Seq<T>, end: End) -> Seq<T> {
    match end {
        End::Front => without_front(s),
        End::Back => without_back(s),
    }
}

/// The sequence after the pushes `pushes`, made in turn.
pub open spec fn after_pushes<T>(s: Seq<T>, pushes: Seq<(End, T)>) -> Seq<T>
    decreases pushes.len(),
{
    if pushes.len() == 0 {
        s
    } else {
        after_pushes(pushed(s, pushes[0].0, pushes[0].1), pushes.drop_first())
    }
}

/// How many of the pops at `ends`, made in turn, hand out an element.
pub open spec fn successful_pops<T>(s: Seq<T>, ends: Seq<End>) -> nat
    decreases ends.len(),
{
    if ends.len() == 0 {
        0
    } else if popped(s, ends[0]) is Some {
        1 + successful_pops(remainder(s, ends[0]), ends.drop_first())
    } else {
        successful_pops(remainder(s, ends[0]), ends.drop_first())
    }
}

/// Each push makes the sequence longer by one.
pub proof fn pushes_add_up<T>(s: Seq<T>, pushes: Seq<(End, T)>)
    ensures
        after_pushes(s, pushes).len() == s.len() + pushes.len(),
    decreases pushes.len(),
{
    if pushes.len() > 0 {
        pushes_add_up(pushed(s, pushes[0].0, pushes[0].1), pushes.drop_first());
    }
}

/// Of any run of pops, at whichever ends, as many hand out an element as the
/// sequence holds, or all of them where the run is shorter than that.
pub proof fn pops_count_elements<T>(s: Seq<T>, ends: Seq<End>)
    ensures
        successful_pops(s, ends) == if ends.len() <= s.len() {
            ends.len()
        } else {
            s.len()
        },
    decreases ends.len(),
{
    if ends.len() > 0 {
        pops_count_elements(remainder(s, ends[0]), ends.drop_first());
    }
}

/// Both ends report an empty deque together, and do so exactly when it holds
/// nothing.
pub proof fn ends_empty_together<T>(s: Seq<T>)
    ensures
        front(s) is None <==> s.len() == 0,
        back(s) is None <==> s.len() == 0,
{
}

/// After any pushes into an empty deque, pops that go on until both ends
/// report it empty hand out exactly as many elements as were pushed,
/// whichever end each push and each pop is made at.
pub proof fn pops_match_pushes<T>(pushes: Seq<(End, T)>, ends: Seq<End>)
    requires
        ends.len() >= pushes.len(),
    ensures
        successful_pops(after_pushes(Seq::<T>::empty(), pushes), ends) == pushes.len(),
{
    pushes_add_up(Seq::<T>::empty(), pushes);
    pops_count_elements(after_pushes(Seq::<T>::empty(), pushes), ends);
}

/// A push followed by a pop at the same end hands the pushed element back
/// and leaves the sequence as it was before the push: `push_front` then
/// `pop_front`, `push_back` then `pop_back`, a stack's `push` then `pop`, and
/// `prepend` then `head` and `tail`.
pub proof fn push_then_pop<T>(s: Seq<T>, elem: T)
    ensures
        front(seq![elem] + s) == Some(elem),
        without_front(seq![elem] + s) == s,
        back(s.push(elem)) == Some(elem),
        without_back(s.push(elem)) == s,
{
    assert((seq![elem] + s).drop_first() =~= s);
    assert(s.push(elem).drop_last() =~= s);
}

/// A push at one end does not change what the other end hands out, unless
/// the deque was empty; then the other end hands out the pushed element.
pub proof fn push_at_other_end<T>(s: Seq<T>, elem: T)
    ensures
        back(seq![elem] + s) == if s.len() > 0 {
            back(s)
        } else {
            Some(elem)
        },
        front(s.push(elem)) == if s.len() > 0 {
            front(s)
        } else {
            Some(elem)
        },
{
}

/// What is written through the view that `peek_front_mut` hands out is what
/// the next peek or pop at the front hands out, and a pop at the front then
/// leaves what it would have left without the write. Likewise at the back
/// with `peek_back_mut`, and at the top of a stack with `peek_mut`.
pub proof fn write_then_peek<T>(s: Seq<T>, elem: T)
    requires
        s.len() > 0,
    ensures
        front(s.update(0, elem)) == Some(elem),
        without_front(s.update(0, elem)) == without_front(s),
        back(s.update(s.len() - 1, elem)) == Some(elem),
        without_back(s.update(s.len() - 1, elem)) == without_back(s),
{
    assert(s.update(0, elem).drop_first() =~= s.drop_first());
    assert(s.update(s.len() - 1, elem).drop_last() =~= s.drop_last());
}

} // verus!
