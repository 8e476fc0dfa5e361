//! A stack of `i32` values kept as a chain of boxed nodes.
//!
//! The model of a list is the sequence of its elements from the top of the
//! stack (index 0) to the bottom.

use vstd::prelude::*;
use crate::model::{front, without_front};

verus! {

#[derive(Debug)]
enum Link {
    Empty,
    More(Box<Node>),
}

#[derive(Debug)]
struct Node {
    elem: i32,
    next: Link,
}

/// A last-in, first-out stack of `i32`.
#[derive(Debug)]
pub struct List {
    head: Link,
}

impl Link {
    /// The elements reachable from this link, nearest first.
    spec fn elems(self) -> Seq<i32>
        decreases self,
    {
        match self {
            Link::Empty => Seq::empty(),
            Link::More(node) => seq![node.elem] + node.next.elems(),
        }
    }
}

impl View for List {
    type V = Seq<i32>;

    closed spec fn view(&self) -> Seq<i32> {
        self.head.elems()
    }
}

impl List {
    /// An empty stack.
    pub fn new() -> (list: Self)
        ensures
            list@ == Seq::<i32>::empty(),
    {
        List { head: Link::Empty }
    }

    /// Puts `elem` on top of the stack.
    pub fn push(&mut self, elem: i32)
        ensures
            final(self)@ == seq![elem] + old(self)@,
    {
        let mut rest = Link::Empty;
        core::mem::swap(&mut self.head, &mut rest);
        self.head = Link::More(Box::new(Node { elem, next: rest }));
    }

    /// Takes the top element off the stack, if there is one.
    pub fn pop(&mut self) -> (popped: Option<i32>)
        ensures
            popped == front(old(self)@),
            final(self)@ == without_front(old(self)@),
    {
        let mut taken = Link::Empty;
        core::mem::swap(&mut self.head, &mut taken);
        match taken {
            Link::Empty => None,
            Link::More(node) => {
                let node = *node;
                self.head = node.next;
                assert(self@ =~= old(self)@.drop_first());
                Some(node.elem)
            },
        }
    }
}

impl Drop for List {
    /// Unlinks the nodes one by one, so that discarding a long list does not
    /// nest one release inside another.
    fn drop(&mut self)
        opens_invariants none
        no_unwind
    {
        let mut cur_link = Link::Empty;
        core::mem::swap(&mut self.head, &mut cur_link);
        loop
            decreases cur_link,
        {
            match cur_link {
                Link::Empty => {
                    break ;
                },
                Link::More(mut boxed_node) => {
                    let mut next = Link::Empty;
                    core::mem::swap(&mut boxed_node.next, &mut next);
                    cur_link = next;
                },
            }
        }
    }
}

} // verus!
