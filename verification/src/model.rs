//! The two ends of a sequence: what a peek or a pop hands out there, and
//! what a pop leaves behind. Every list of this crate states its contracts
//! over these.

use vstd::prelude::*;

verus! {

/// What a peek or a pop at the front of `s` hands out.
pub open spec fn front<T>(s: Seq<T>) -> Option<T> {
    if s.len() > 0 {
        Some(s.first())
    } else {
        None
    }
}

/// What a peek or a pop at the back of `s` hands out.
pub open spec fn back<T>(s: Seq<T>) -> Option<T> {
    if s.len() > 0 {
        Some(s.last())
    } else {
        None
    }
}

/// What a pop at the front leaves of `s`.
pub open spec fn without_front<T>(s: Seq<T>) -> Seq<T> {
    if s.len() > 0 {
        s.drop_first()
    } else {
        s
    }
}

/// What a pop at the back leaves of `s`.
pub open spec fn without_back<T>(s: Seq<T>) -> Seq<T> {
    if s.len() > 0 {
        s.drop_last()
    } else {
        s
    }
}

} // verus!
