//! A persistent stack: lists share their tails, and no operation changes a
//! list that exists.
//!
//! The model of a list is the sequence of its elements from the head
//! (index 0) to the end.

use vstd::prelude::*;
use crate::model::{front, without_front};
use std::rc::Rc;

verus! {

type Link<T> = Option<Rc<Node<T>>>;

struct Node<T> {
    elem: T,
    next: Link<T>,
}

/// An immutable list that shares its tail with the lists it was made from.
pub struct List<T> {
    head: Link<T>,
}

/// The elements reachable from `link`, nearest first.
spec fn elems<T>(link: Link<T>) -> Seq<T>
    decreases link,
{
    match link {
        None => Seq::empty(),
        Some(node) => seq![node.elem] + elems(node.next),
    }
}

impl<T> View for List<T> {
    type V = Seq<T>;

    closed spec fn view(&self) -> Seq<T> {
        elems(self.head)
    }
}

/// `Rc::clone`: a second handle to the node that `node` points to. The node
/// itself is not copied, so the new handle stands for the same value.
#[verifier::external_body]
fn share<T>(node: &Rc<Node<T>>) -> (shared: Rc<Node<T>>)
    ensures
        shared == *node,
{
    Rc::clone(node)
}

/// `Rc::try_unwrap`: the node itself where `node` is the only handle to it,
/// else the handle as it came. The call neither fails nor unwinds.
#[verifier::external_body]
fn unshare<T>(node: Rc<Node<T>>) -> (got: Result<Node<T>, Rc<Node<T>>>)
    ensures
        match got {
            Ok(inner) => inner == *node,
            Err(back) => back == node,
        },
    opens_invariants none
    no_unwind
{
    Rc::try_unwrap(node)
}

/// A second handle to whatever `link` leads to.
fn share_link<T>(link: &Link<T>) -> (shared: Link<T>)
    ensures
        shared == *link,
{
    match link {
        None => None,
        Some(node) => Some(share(node)),
    }
}

impl<T> List<T> {
    /// An empty list.
    pub fn new() -> (list: Self)
        ensures
            list@ == Seq::<T>::empty(),
    {
        List { head: None }
    }

    /// A list with `elem` in front of the elements of this one.
    pub fn prepend(&self, elem: T) -> (list: List<T>)
        ensures
            list@ == seq![elem] + self@,
    {
        List { head: Some(Rc::new(Node { elem, next: share_link(&self.head) })) }
    }

    /// A list of all the elements of this one but the first; empty where
    /// this one is empty.
    pub fn tail(&self) -> (list: List<T>)
        ensures
            list@ == without_front(self@),
    {
        match &self.head {
            None => List { head: None },
            Some(node) => {
                let list = List { head: share_link(&node.next) };
                assert(list@ =~= self@.drop_first());
                list
            },
        }
    }

    /// A view of the first element, if there is one.
    pub fn head(&self) -> (first: Option<&T>)
        ensures
            match first {
                Some(elem) => front(self@) == Some(*elem),
                None => front(self@) is None,
            },
    {
        match &self.head {
            None => None,
            Some(node) => Some(&node.elem),
        }
    }
}

/// An iterator over views of the elements of a list, from the head.
pub struct Iter<'a, T> {
    next: Option<&'a Node<T>>,
}

impl<'a, T> View for Iter<'a, T> {
    type V = Seq<T>;

    /// The elements that are still to come, next first.
    closed spec fn view(&self) -> Seq<T> {
        match self.next {
            None => Seq::empty(),
            Some(node) => seq![node.elem] + elems(node.next),
        }
    }
}

impl<T> List<T> {
    /// An iterator over views of the elements, from the head.
    pub fn iter(&self) -> (iter: Iter<'_, T>)
        ensures
            iter@ == self@,
    {
        Iter {
            next: match &self.head {
                None => None,
                Some(node) => Some(&**node),
            },
        }
    }
}

impl<'a, T> Iter<'a, T> {
    /// Hands out a view of the next element.
    pub fn next(&mut self) -> (item: Option<&'a T>)
        ensures
            match item {
                Some(elem) => front(old(self)@) == Some(*elem),
                None => front(old(self)@) is None,
            },
            final(self)@ == without_front(old(self)@),
    {
        match self.next {
            None => None,
            Some(node) => {
                self.next = match &node.next {
                    None => None,
                    Some(next) => Some(&**next),
                };
                assert(self@ =~= old(self)@.drop_first());
                Some(&node.elem)
            },
        }
    }
}

impl<T> Drop for List<T> {
    /// Unlinks, one by one, the nodes that no other list shares, and stops at
    /// the first that another list still holds.
    fn drop(&mut self)
        opens_invariants none
        no_unwind
    {
        let mut head: Link<T> = None;
        core::mem::swap(&mut self.head, &mut head);
        loop
            decreases head,
        {
            match head {
                None => {
                    break ;
                },
                Some(node) => {
                    match unshare(node) {
                        Ok(mut node) => {
                            let mut next: Link<T> = None;
                            core::mem::swap(&mut node.next, &mut next);
                            head = next;
                        },
                        Err(_) => {
                            break ;
                        },
                    }
                },
            }
        }
    }
}

} // verus!
