//! A double-ended queue over a chain of nodes linked in both directions.
//!
//! The nodes live in a growable table and name their neighbours by slot
//! number, so no node owns another and discarding the table releases every
//! node. A slot that a pop has emptied is kept on a free list and reused by
//! the next push.
//!
//! The model of a deque is the sequence of its elements from front to back.

use vstd::prelude::*;
use crate::model::{back, front, without_back, without_front};

verus! {

/// The slot of a neighbouring node, absent at either end of the chain.
type Link = Option<usize>;

struct Node<T> {
    /// The payload; absent only while the slot is on the free list.
    elem: Option<T>,
    next: Link,
    prev: Link,
}

/// The table of nodes and the chain that is threaded through it.
struct Chain<T> {
    nodes: Vec<Node<T>>,
    free: Vec<usize>,
    head: Link,
    tail: Link,
    /// The slots of the linked nodes, front to back.
    order: Ghost<Seq<usize>>,
}

/// The slot at position `i` of `order`, absent where `i` is off either end.
spec fn link_at(order: Seq<usize>, i: int) -> Link {
    if 0 <= i < order.len() {
        Some(order[i])
    } else {
        None
    }
}

/// A view of the payload in `payload` through which it can be changed, absent
/// where there is no payload.
fn payload_mut<T>(payload: &mut Option<T>) -> (inner: Option<&mut T>)
    ensures
        match *old(payload) {
            None => *final(payload) is None && inner is None,
            Some(elem) => inner is Some && *inner.unwrap() == elem && *final(payload) is Some
                && final(payload).unwrap() == *final(inner.unwrap()),
        },
    no_unwind
{
    match payload {
        None => None,
        Some(elem) => Some(elem),
    }
}

impl<T> Node<T> {
    /// A node that holds `elem` and has no neighbour yet.
    fn new(elem: T) -> (node: Self)
        ensures
            node.elem == Some(elem),
            node.next is None,
            node.prev is None,
    {
        Node { elem: Some(elem), next: None, prev: None }
    }
}

impl<T> View for Chain<T> {
    type V = Seq<T>;

    closed spec fn view(&self) -> Seq<T> {
        Seq::new(self.order@.len(), |i: int| self.nodes@[self.order@[i] as int].elem.unwrap())
    }
}

impl<T> Chain<T> {
    /// The node at position `i` of the chain holds a payload and names the
    /// nodes at positions `i - 1` and `i + 1` as its neighbours.
    spec fn linked_at(&self, i: int) -> bool {
        let slot = self.order@[i] as int;
        &&& slot < self.nodes@.len()
        &&& self.nodes@[slot].elem is Some
        &&& self.nodes@[slot].next == link_at(self.order@, i + 1)
        &&& self.nodes@[slot].prev == link_at(self.order@, i - 1)
    }

    /// Entry `k` of the free list is a slot of the table that holds nothing.
    spec fn vacant_at(&self, k: int) -> bool {
        let slot = self.free@[k] as int;
        &&& slot < self.nodes@.len()
        &&& self.nodes@[slot].elem is None
    }

    /// Every slot but `pending` is accounted for: the chain and the free list
    /// hold no slot twice, and hold between them as many slots as the table
    /// has, less the `pending` ones.
    spec fn slots_accounted(&self, pending: int) -> bool {
        &&& self.order@.no_duplicates()
        &&& self.free@.no_duplicates()
        &&& self.order@.len() + self.free@.len() + pending == self.nodes@.len()
        &&& forall|i: int| 0 <= i < self.order@.len() ==> #[trigger] self.linked_at(i)
        &&& forall|k: int| 0 <= k < self.free@.len() ==> #[trigger] self.vacant_at(k)
    }

    /// The invariant of the deque.
    ///
    /// `head` and `tail` are absent together, exactly when the deque is
    /// empty; otherwise they name the two ends of the chain. The first node
    /// has no `prev`, the last no `next`, and each link between two adjacent
    /// nodes is mirrored: where a node's `next` names another, that node's
    /// `prev` names the first. Every slot of the table is either in the chain,
    /// with a payload, or on the free list, without one.
    spec fn wf(&self) -> bool {
        &&& self.head == link_at(self.order@, 0)
        &&& self.tail == link_at(self.order@, self.order@.len() - 1)
        &&& self.slots_accounted(0)
    }

    /// `after` is this deque with another payload in the node at position
    /// `i` of the chain, and nothing else changed.
    spec fn payload_replaced(&self, after: Self, i: int) -> bool {
        &&& after.order@ == self.order@
        &&& after.free@ == self.free@
        &&& after.head == self.head
        &&& after.tail == self.tail
        &&& after.nodes@.len() == self.nodes@.len()
        &&& after.nodes@[self.order@[i] as int].elem is Some
        &&& forall|slot: int|
            0 <= slot < self.nodes@.len() ==> {
                &&& (#[trigger] after.nodes@[slot]).next == self.nodes@[slot].next
                &&& after.nodes@[slot].prev == self.nodes@[slot].prev
                &&& slot != self.order@[i] ==> after.nodes@[slot].elem == self.nodes@[slot].elem
            }
    }

    /// Replacing a payload keeps the invariant and changes the model at that
    /// one position.
    proof fn lemma_payload_replaced(&self, after: Self, i: int)
        requires
            self.wf(),
            0 <= i < self.order@.len(),
            self.payload_replaced(after, i),
        ensures
            after.wf(),
            after@ == self@.update(i, after.nodes@[self.order@[i] as int].elem.unwrap()),
    {
        assert forall|j: int| 0 <= j < after.order@.len() implies #[trigger] after.linked_at(j) by {
            assert(self.linked_at(j));
        }
        assert forall|k: int| 0 <= k < after.free@.len() implies #[trigger] after.vacant_at(k) by {
            assert(self.vacant_at(k));
            assert(self.linked_at(i));
        }
        assert(after@ =~= self@.update(i, after.nodes@[self.order@[i] as int].elem.unwrap())) by {
            assert forall|j: int| 0 <= j < after.order@.len() && j != i implies after@[j]
                == self@[j] by {
                assert(self.linked_at(j));
            }
        }
    }

    /// An empty table with an empty chain.
    fn new() -> (chain: Self)
        ensures
            chain.wf(),
            chain@ == Seq::<T>::empty(),
    {
        let chain = Chain {
            nodes: Vec::new(),
            free: Vec::new(),
            head: None,
            tail: None,
            order: Ghost(Seq::empty()),
        };
        assert(chain@ =~= Seq::<T>::empty());
        chain
    }

    /// Puts a fresh node that holds `elem` into a vacant slot, or into a new
    /// one where none is vacant, and returns the slot. The node is not linked
    /// into the chain yet.
    fn install(&mut self, elem: T) -> (slot: usize)
        requires
            old(self).wf(),
        ensures
            slot < final(self).nodes@.len(),
            final(self).nodes@[slot as int].elem == Some(elem),
            final(self).nodes@[slot as int].next is None,
            final(self).nodes@[slot as int].prev is None,
            !final(self).order@.contains(slot),
            !final(self).free@.contains(slot),
            final(self).order@ == old(self).order@,
            final(self).head == old(self).head,
            final(self).tail == old(self).tail,
            final(self).slots_accounted(1),
            final(self)@ == old(self)@,
    {
        let node = Node::new(elem);
        let slot: usize = match self.free.pop() {
            Some(slot) => {
                assert(old(self).vacant_at(old(self).free@.len() - 1));
                self.nodes[slot] = node;
                slot
            },
            None => {
                self.nodes.push(node);
                self.nodes.len() - 1
            },
        };
        proof {
            assert forall|i: int| 0 <= i < self.order@.len() implies #[trigger] self.order@[i]
                != slot by {
                assert(old(self).linked_at(i));
            }
            assert forall|i: int| 0 <= i < self.order@.len() implies #[trigger] self.linked_at(
                i,
            ) by {
                assert(old(self).linked_at(i));
            }
            assert forall|k: int| 0 <= k < self.free@.len() implies #[trigger] self.vacant_at(
                k,
            ) by {
                assert(old(self).vacant_at(k));
            }
            assert(self@ =~= old(self)@) by {
                assert forall|i: int| 0 <= i < self.order@.len() implies self@[i] == old(
                    self,
                )@[i] by {
                    assert(old(self).linked_at(i));
                }
            }
        }
        slot
    }

    /// Takes the payload out of the node in `slot` and puts the slot on the
    /// free list. The node must be fully detached: it names no neighbour, and
    /// neither the chain nor the free list holds its slot.
    fn release(&mut self, slot: usize) -> (elem: T)
        requires
            slot < old(self).nodes@.len(),
            old(self).nodes@[slot as int].elem is Some,
            old(self).nodes@[slot as int].next is None,
            old(self).nodes@[slot as int].prev is None,
            !old(self).order@.contains(slot),
            old(self).slots_accounted(1),
            old(self).head == link_at(old(self).order@, 0),
            old(self).tail == link_at(old(self).order@, old(self).order@.len() - 1),
        ensures
            final(self).wf(),
            elem == old(self).nodes@[slot as int].elem.unwrap(),
            final(self)@ == old(self)@,
    {
        let elem = self.nodes[slot].elem.take();
        self.free.push(slot);
        proof {
            assert forall|i: int| 0 <= i < self.order@.len() implies #[trigger] self.linked_at(
                i,
            ) by {
                assert(old(self).linked_at(i));
            }
            assert forall|k: int| 0 <= k < self.free@.len() implies #[trigger] self.vacant_at(
                k,
            ) by {
                if k < old(self).free@.len() {
                    assert(old(self).vacant_at(k));
                }
            }
            assert(self.free@.no_duplicates()) by {
                assert forall|k: int| 0 <= k < old(self).free@.len() implies old(self).free@[k]
                    != slot by {
                    assert(old(self).vacant_at(k));
                }
            }
            assert(self@ =~= old(self)@) by {
                assert forall|i: int| 0 <= i < self.order@.len() implies self@[i] == old(self)@[i] by {
                    assert(old(self).linked_at(i));
                }
            }
        }
        elem.unwrap()
    }

    /// Puts `elem` in front of all the others.
    fn push_front(&mut self, elem: T)
        requires
            old(self).wf(),
        ensures
            final(self).wf(),
            final(self)@ == seq![elem] + old(self)@,
    {
        let new_head = self.install(elem);
        let ghost installed = *self;
        match self.head.take() {
            Some(old_head) => {
                assert(installed.linked_at(0));
                self.nodes[old_head].prev = Some(new_head);
                self.nodes[new_head].next = Some(old_head);
                self.head = Some(new_head);
            },
            None => {
                self.tail = Some(new_head);
                self.head = Some(new_head);
            },
        }
        self.order = Ghost(seq![new_head] + self.order@);
        proof {
            assert forall|i: int| 0 <= i < self.order@.len() implies #[trigger] self.linked_at(
                i,
            ) by {
                if i > 0 {
                    assert(installed.linked_at(i - 1));
                }
            }
            assert forall|k: int| 0 <= k < self.free@.len() implies #[trigger] self.vacant_at(
                k,
            ) by {
                assert(installed.vacant_at(k));
            }
            assert(self@ =~= seq![elem] + old(self)@) by {
                assert forall|i: int| 0 < i < self.order@.len() implies self@[i] == installed@[i
                    - 1] by {
                    assert(installed.linked_at(i - 1));
                }
            }
        }
    }

    /// Takes the first element out of the deque, if there is one.
    fn pop_front(&mut self) -> (popped: Option<T>)
        requires
            old(self).wf(),
        ensures
            final(self).wf(),
            popped == front(old(self)@),
            final(self)@ == without_front(old(self)@),
    {
        match self.head.take() {
            None => {
                assert(self@ =~= old(self)@);
                None
            },
            Some(old_head) => {
                assert(old(self).linked_at(0));
                match self.nodes[old_head].next.take() {
                    Some(new_head) => {
                        assert(old(self).linked_at(1));
                        self.nodes[new_head].prev = None;
                        self.head = Some(new_head);
                    },
                    None => {
                        self.tail = None;
                    },
                }
                self.order = Ghost(self.order@.drop_first());
                proof {
                    assert forall|i: int| 0 <= i < self.order@.len() implies #[trigger] self.linked_at(
                        i,
                    ) by {
                        assert(old(self).linked_at(i + 1));
                    }
                    assert forall|k: int| 0 <= k < self.free@.len() implies #[trigger] self.vacant_at(
                        k,
                    ) by {
                        assert(old(self).vacant_at(k));
                    }
                    assert(self@ =~= without_front(old(self)@)) by {
                        assert forall|i: int| 0 <= i < self.order@.len() implies self@[i] == old(
                            self,
                        )@[i + 1] by {
                            assert(old(self).linked_at(i + 1));
                        }
                    }
                }
                Some(self.release(old_head))
            },
        }
    }

    /// A view of the first element, if there is one.
    fn peek_front(&self) -> (peeked: Option<&T>)
        requires
            self.wf(),
        ensures
            match peeked {
                Some(elem) => front(self@) == Some(*elem),
                None => front(self@) is None,
            },
    {
        match self.head {
            None => None,
            Some(head) => {
                assert(self.linked_at(0));
                self.nodes[head].elem.as_ref()
            },
        }
    }

    /// A view of the first element through which it can be changed, if there
    /// is one. Whatever the caller leaves there is the first element from
    /// then on; the others stay as they are.
    fn peek_front_mut(&mut self) -> (peeked: Option<&mut T>)
        requires
            old(self).wf(),
        ensures
            final(self).wf(),
            match peeked {
                Some(elem) => front(old(self)@) == Some(*elem) && final(self)@ == old(
                    self,
                )@.update(0, *final(elem)),
                None => front(old(self)@) is None && final(self)@ == old(self)@,
            },
        no_unwind
    {
        match self.head {
            None => None,
            Some(head) => {
                proof {
                    let before = *self;
                    assert(before.linked_at(0));
                    assert forall|after: Self| before.payload_replaced(after, 0) implies
                        #[trigger] after.wf() && after@ == before@.update(
                        0,
                        after.nodes@[head as int].elem.unwrap(),
                    ) by {
                        before.lemma_payload_replaced(after, 0);
                    }
                }
                payload_mut(&mut self.nodes[head].elem)
            },
        }
    }

    /// Puts `elem` behind all the others.
    fn push_back(&mut self, elem: T)
        requires
            old(self).wf(),
        ensures
            final(self).wf(),
            final(self)@ == old(self)@.push(elem),
    {
        let new_tail = self.install(elem);
        let ghost installed = *self;
        match self.tail.take() {
            Some(old_tail) => {
                assert(installed.linked_at(installed.order@.len() - 1));
                self.nodes[old_tail].next = Some(new_tail);
                self.nodes[new_tail].prev = Some(old_tail);
                self.tail = Some(new_tail);
            },
            None => {
                self.head = Some(new_tail);
                self.tail = Some(new_tail);
            },
        }
        self.order = Ghost(self.order@.push(new_tail));
        proof {
            assert forall|i: int| 0 <= i < self.order@.len() implies #[trigger] self.linked_at(
                i,
            ) by {
                if i < installed.order@.len() {
                    assert(installed.linked_at(i));
                }
            }
            assert forall|k: int| 0 <= k < self.free@.len() implies #[trigger] self.vacant_at(
                k,
            ) by {
                assert(installed.vacant_at(k));
            }
            assert(self@ =~= old(self)@.push(elem)) by {
                assert forall|i: int| 0 <= i < installed.order@.len() implies self@[i]
                    == installed@[i] by {
                    assert(installed.linked_at(i));
                }
            }
        }
    }

    /// Takes the last element out of the deque, if there is one.
    fn pop_back(&mut self) -> (popped: Option<T>)
        requires
            old(self).wf(),
        ensures
            final(self).wf(),
            popped == back(old(self)@),
            final(self)@ == without_back(old(self)@),
    {
        match self.tail.take() {
            None => {
                assert(self@ =~= old(self)@);
                None
            },
            Some(old_tail) => {
                let ghost last = self.order@.len() - 1;
                assert(old(self).linked_at(last));
                match self.nodes[old_tail].prev.take() {
                    Some(new_tail) => {
                        assert(old(self).linked_at(last - 1));
                        self.nodes[new_tail].next = None;
                        self.tail = Some(new_tail);
                    },
                    None => {
                        self.head = None;
                    },
                }
                self.order = Ghost(self.order@.drop_last());
                proof {
                    assert forall|i: int| 0 <= i < self.order@.len() implies #[trigger] self.linked_at(
                        i,
                    ) by {
                        assert(old(self).linked_at(i));
                    }
                    assert forall|k: int| 0 <= k < self.free@.len() implies #[trigger] self.vacant_at(
                        k,
                    ) by {
                        assert(old(self).vacant_at(k));
                    }
                    assert(self@ =~= without_back(old(self)@)) by {
                        assert forall|i: int| 0 <= i < self.order@.len() implies self@[i] == old(
                            self,
                        )@[i] by {
                            assert(old(self).linked_at(i));
                        }
                    }
                }
                Some(self.release(old_tail))
            },
        }
    }

    /// A view of the last element, if there is one.
    fn peek_back(&self) -> (peeked: Option<&T>)
        requires
            self.wf(),
        ensures
            match peeked {
                Some(elem) => back(self@) == Some(*elem),
                None => back(self@) is None,
            },
    {
        match self.tail {
            None => None,
            Some(tail) => {
                assert(self.linked_at(self.order@.len() - 1));
                self.nodes[tail].elem.as_ref()
            },
        }
    }

    /// A view of the last element through which it can be changed, if there
    /// is one. Whatever the caller leaves there is the last element from then
    /// on; the others stay as they are.
    fn peek_back_mut(&mut self) -> (peeked: Option<&mut T>)
        requires
            old(self).wf(),
        ensures
            final(self).wf(),
            match peeked {
                Some(elem) => back(old(self)@) == Some(*elem) && final(self)@ == old(
                    self,
                )@.update(old(self)@.len() - 1, *final(elem)),
                None => back(old(self)@) is None && final(self)@ == old(self)@,
            },
        no_unwind
    {
        match self.tail {
            None => None,
            Some(tail) => {
                proof {
                    let before = *self;
                    let last = before.order@.len() - 1;
                    assert(before.linked_at(last));
                    assert forall|after: Self| before.payload_replaced(after, last) implies
                        #[trigger] after.wf() && after@ == before@.update(
                        last,
                        after.nodes@[tail as int].elem.unwrap(),
                    ) by {
                        before.lemma_payload_replaced(after, last);
                    }
                }
                payload_mut(&mut self.nodes[tail].elem)
            },
        }
    }
}

/// A double-ended queue.
pub struct List<T> {
    chain: Chain<T>,
}

impl<T> View for List<T> {
    type V = Seq<T>;

    closed spec fn view(&self) -> Seq<T> {
        self.chain@
    }
}

impl<T> List<T> {
    #[verifier::type_invariant]
    spec fn chain_wf(self) -> bool {
        self.chain.wf()
    }

    /// An empty deque.
    pub fn new() -> (list: Self)
        ensures
            list@ == Seq::<T>::empty(),
    {
        List { chain: Chain::new() }
    }

    /// Puts `elem` in front of all the others.
    pub fn push_front(&mut self, elem: T)
        ensures
            final(self)@ == seq![elem] + old(self)@,
    {
        proof {
            use_type_invariant(&*self);
        }
        let mut chain = Chain::new();
        core::mem::swap(&mut self.chain, &mut chain);
        chain.push_front(elem);
        self.chain = chain;
    }

    /// Takes the first element out of the deque, if there is one.
    pub fn pop_front(&mut self) -> (popped: Option<T>)
        ensures
            popped == front(old(self)@),
            final(self)@ == without_front(old(self)@),
    {
        proof {
            use_type_invariant(&*self);
        }
        let mut chain = Chain::new();
        core::mem::swap(&mut self.chain, &mut chain);
        let popped = chain.pop_front();
        self.chain = chain;
        popped
    }

    /// A view of the first element, if there is one.
    pub fn peek_front(&self) -> (peeked: Option<&T>)
        ensures
            match peeked {
                Some(elem) => front(self@) == Some(*elem),
                None => front(self@) is None,
            },
    {
        proof {
            use_type_invariant(self);
        }
        self.chain.peek_front()
    }

    /// Puts `elem` behind all the others.
    pub fn push_back(&mut self, elem: T)
        ensures
            final(self)@ == old(self)@.push(elem),
    {
        proof {
            use_type_invariant(&*self);
        }
        let mut chain = Chain::new();
        core::mem::swap(&mut self.chain, &mut chain);
        chain.push_back(elem);
        self.chain = chain;
    }

    /// Takes the last element out of the deque, if there is one.
    pub fn pop_back(&mut self) -> (popped: Option<T>)
        ensures
            popped == back(old(self)@),
            final(self)@ == without_back(old(self)@),
    {
        proof {
            use_type_invariant(&*self);
        }
        let mut chain = Chain::new();
        core::mem::swap(&mut self.chain, &mut chain);
        let popped = chain.pop_back();
        self.chain = chain;
        popped
    }

    /// A view of the last element, if there is one.
    pub fn peek_back(&self) -> (peeked: Option<&T>)
        ensures
            match peeked {
                Some(elem) => back(self@) == Some(*elem),
                None => back(self@) is None,
            },
    {
        proof {
            use_type_invariant(self);
        }
        self.chain.peek_back()
    }

    /// A view of the last element through which it can be changed, if there
    /// is one. Whatever the caller leaves there is the last element from then
    /// on; the others stay as they are.
    pub fn peek_back_mut(&mut self) -> (peeked: Option<&mut T>)
        ensures
            match peeked {
                Some(elem) => back(old(self)@) == Some(*elem) && final(self)@ == old(
                    self,
                )@.update(old(self)@.len() - 1, *final(elem)),
                None => back(old(self)@) is None && final(self)@ == old(self)@,
            },
    {
        proof {
            use_type_invariant(&*self);
        }
        self.chain.peek_back_mut()
    }

    /// A view of the first element through which it can be changed, if there
    /// is one. Whatever the caller leaves there is the first element from
    /// then on; the others stay as they are.
    pub fn peek_front_mut(&mut self) -> (peeked: Option<&mut T>)
        ensures
            match peeked {
                Some(elem) => front(old(self)@) == Some(*elem) && final(self)@ == old(
                    self,
                )@.update(0, *final(elem)),
                None => front(old(self)@) is None && final(self)@ == old(self)@,
            },
    {
        proof {
            use_type_invariant(&*self);
        }
        self.chain.peek_front_mut()
    }

    /// Turns the deque into an iterator that hands its elements out from
    /// either end.
    pub fn into_iter(self) -> (iter: IntoIter<T>)
        ensures
            iter@ == self@,
    {
        IntoIter(self)
    }
}

/// An iterator that consumes a deque from both ends.
pub struct IntoIter<T>(List<T>);

impl<T> View for IntoIter<T> {
    type V = Seq<T>;

    /// The elements that are still to come, front to back.
    closed spec fn view(&self) -> Seq<T> {
        self.0@
    }
}

impl<T> IntoIter<T> {
    /// Hands out the first of the remaining elements.
    pub fn next(&mut self) -> (item: Option<T>)
        ensures
            item == front(old(self)@),
            final(self)@ == without_front(old(self)@),
    {
        self.0.pop_front()
    }

    /// Hands out the last of the remaining elements.
    pub fn next_back(&mut self) -> (item: Option<T>)
        ensures
            item == back(old(self)@),
            final(self)@ == without_back(old(self)@),
    {
        self.0.pop_back()
    }
}

} // verus!
