//! A stack of any element type kept as a chain of boxed nodes, with views of
//! its top and three ways to walk it.
//!
//! The model of a list is the sequence of its elements from the top of the
//! stack (index 0) to the bottom.

use vstd::prelude::*;
use crate::model::{front, without_front};

verus! {

type Link<T> = Option<Box<Node<T>>>;

/// One element of a stack together with all that lie below it.
#[derive(Debug)]
pub struct Node<T> {
    elem: T,
    next: Link<T>,
}

/// A last-in, first-out stack.
#[derive(Debug)]
pub struct List<T> {
    head: Link<T>,
}

/// The elements reachable from `link`, nearest first.
spec fn elems<T>(link: Link<T>) -> Seq<T>
    decreases link,
{
    match link {
        None => Seq::empty(),
        Some(node) => seq![node.elem] + elems(node.next),
    }
}

impl<T> View for Node<T> {
    type V = Seq<T>;

    /// The element of this node, then those of the nodes below it.
    closed spec fn view(&self) -> Seq<T> {
        seq![self.elem] + elems(self.next)
    }
}

impl<T> View for List<T> {
    type V = Seq<T>;

    closed spec fn view(&self) -> Seq<T> {
        elems(self.head)
    }
}

impl<T> List<T> {
    /// An empty stack.
    pub fn new() -> (list: Self)
        ensures
            list@ == Seq::<T>::empty(),
    {
        List { head: None }
    }

    /// Puts `elem` on top of the stack.
    pub fn push(&mut self, elem: T)
        ensures
            final(self)@ == seq![elem] + old(self)@,
    {
        let node = Node { elem, next: self.head.take() };
        self.head = Some(Box::new(node));
    }

    /// Takes the top element off the stack, if there is one.
    pub fn pop(&mut self) -> (popped: Option<T>)
        ensures
            popped == front(old(self)@),
            final(self)@ == without_front(old(self)@),
    {
        match self.head.take() {
            None => None,
            Some(node) => {
                let node = *node;
                self.head = node.next;
                assert(self@ =~= old(self)@.drop_first());
                Some(node.elem)
            },
        }
    }

    /// A view of the top element, if there is one.
    pub fn peek(&self) -> (peeked: Option<&T>)
        ensures
            match peeked {
                Some(elem) => front(self@) == Some(*elem),
                None => front(self@) is None,
            },
    {
        match &self.head {
            None => None,
            Some(node) => Some(&node.elem),
        }
    }

    /// A view of the top element through which it can be changed, if there
    /// is one. Whatever the caller leaves there is the top element from then
    /// on; the others stay as they are.
    pub fn peek_mut(&mut self) -> (peeked: Option<&mut T>)
        ensures
            match peeked {
                Some(elem) => front(old(self)@) == Some(*elem) && final(self)@ == old(
                    self,
                )@.update(0, *final(elem)),
                None => front(old(self)@) is None && final(self)@ == old(self)@,
            },
    {
        match &mut self.head {
            None => None,
            Some(node) => Some(&mut node.elem),
        }
    }
}

impl<T> Drop for List<T> {
    /// Unlinks the nodes one by one, so that discarding a long list does not
    /// nest one release inside another.
    fn drop(&mut self)
        opens_invariants none
        no_unwind
    {
        let mut cur_link: Link<T> = None;
        core::mem::swap(&mut self.head, &mut cur_link);
        loop
            decreases cur_link,
        {
            match cur_link {
                None => {
                    break ;
                },
                Some(mut boxed_node) => {
                    let mut next: Link<T> = None;
                    core::mem::swap(&mut boxed_node.next, &mut next);
                    cur_link = next;
                },
            }
        }
    }
}

/// An iterator that consumes a stack from the top.
pub struct IntoIter<T>(List<T>);

impl<T> View for IntoIter<T> {
    type V = Seq<T>;

    /// The elements that are still to come, next first.
    closed spec fn view(&self) -> Seq<T> {
        self.0@
    }
}

impl<T> List<T> {
    /// Turns the stack into an iterator that hands its elements out from the
    /// top.
    pub fn into_iter(self) -> (iter: IntoIter<T>)
        ensures
            iter@ == self@,
    {
        IntoIter(self)
    }
}

impl<T> IntoIter<T> {
    /// Hands out the next element.
    pub fn next(&mut self) -> (item: Option<T>)
        ensures
            item == front(old(self)@),
            final(self)@ == without_front(old(self)@),
    {
        self.0.pop()
    }
}

/// An iterator over views of the elements of a stack, from the top.
pub struct Iter<'a, T> {
    next: Option<&'a Node<T>>,
}

impl<'a, T> View for Iter<'a, T> {
    type V = Seq<T>;

    /// The elements that are still to come, next first.
    closed spec fn view(&self) -> Seq<T> {
        match self.next {
            None => Seq::empty(),
            Some(node) => seq![node.elem] + elems(node.next),
        }
    }
}

impl<T> List<T> {
    /// An iterator over views of the elements, from the top.
    pub fn iter<'a>(&'a self) -> (iter: Iter<'a, T>)
        ensures
            iter@ == self@,
    {
        Iter {
            next: match &self.head {
                None => None,
                Some(node) => Some(&**node),
            },
        }
    }
}

impl<'a, T> Iter<'a, T> {
    /// Hands out a view of the next element.
    pub fn next(&mut self) -> (item: Option<&'a T>)
        ensures
            match item {
                Some(elem) => front(old(self)@) == Some(*elem),
                None => front(old(self)@) is None,
            },
            final(self)@ == without_front(old(self)@),
    {
        match self.next {
            None => None,
            Some(node) => {
                self.next = match &node.next {
                    None => None,
                    Some(next) => Some(&**next),
                };
                assert(self@ =~= old(self)@.drop_first());
                Some(&node.elem)
            },
        }
    }
}

/// An iterator over views of the elements of a stack through which they can
/// be changed, from the top.
///
/// The field is open to contracts, which speak of what the node that the
/// iterator stands at holds in the end, when every view is done with.
pub struct IterMut<'a, T> {
    /// The node that the iterator stands at, absent past the last.
    pub next: Option<&'a mut Node<T>>,
}

impl<'a, T> View for IterMut<'a, T> {
    type V = Seq<T>;

    /// The elements that are still to come, next first, as they are now.
    open spec fn view(&self) -> Seq<T> {
        match self.next {
            None => Seq::empty(),
            Some(node) => node@,
        }
    }
}

impl<T> List<T> {
    /// An iterator over views of the elements through which they can be
    /// changed, from the top. What the list holds in the end is what the
    /// iterator's node holds in the end.
    pub fn iter_mut(&mut self) -> (iter: IterMut<'_, T>)
        ensures
            iter@ == old(self)@,
            final(self)@ == (match iter.next {
                None => Seq::<T>::empty(),
                Some(node) => final(node)@,
            }),
    {
        IterMut {
            next: match &mut self.head {
                None => None,
                Some(node) => Some(&mut **node),
            },
        }
    }
}

impl<'a, T> IterMut<'a, T> {
    /// Hands out a view of the next element through which it can be changed,
    /// and moves on to the node below. What the node that the iterator stood
    /// at holds in the end is what the caller leaves in the view, followed by
    /// what the node below holds in the end.
    pub fn next(&mut self) -> (item: Option<&'a mut T>)
        ensures
            final(self)@ == without_front(old(self)@),
            match item {
                Some(elem) => {
                    &&& front(old(self)@) == Some(*elem)
                    &&& old(self).next is Some
                    &&& final(old(self).next.unwrap())@ == seq![*final(elem)]
                        + (match final(self).next {
                        None => Seq::<T>::empty(),
                        Some(rest) => final(rest)@,
                    })
                },
                None => old(self).next is None && final(self).next is None,
            },
    {
        match self.next.take() {
            None => None,
            Some(node) => {
                self.next = match &mut node.next {
                    None => None,
                    Some(next) => Some(&mut **next),
                };
                Some(&mut node.elem)
            },
        }
    }
}

} // verus!
