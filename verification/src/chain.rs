//! The chain of nodes: which node is first, which is last, and how the nodes
//! between them are linked.

use crate::arena::Arena;
use crate::node::{Link, Node};
use std::rc::Rc;
use vstd::prelude::*;

verus! {

/// The link to the node at position `k` of `order`, and `None` for every
/// position outside `order`.
pub(crate) open spec fn link_at(order: Seq<usize>, k: int) -> Link {
    if 0 <= k < order.len() {
        Some(order[k])
    } else {
        None
    }
}

/// The nodes of one list with the links to its two ends and the count of its
/// nodes.
pub(crate) struct Chain<T> {
    arena: Arena<T>,
    head: Link,
    tail: Link,
    len: usize,
    /// The slots of the chain's nodes, from head to tail.
    order: Ghost<Seq<usize>>,
}

impl<T> View for Chain<T> {
    type V = Seq<T>;

    /// The payloads of the chain, from head to tail.
    closed spec fn view(&self) -> Seq<T> {
        Seq::new(self.order@.len(), |k: int| self.arena@[self.order@[k]].payload())
    }
}

impl<T> Chain<T> {
    /// The link to the node at position `k`, counted from the head.
    pub(crate) closed spec fn link(&self, k: int) -> Link {
        link_at(self.order@, k)
    }

    /// The structural invariants of the chain:
    /// - `head` and `tail` link to the first and the last node, and are both
    ///   `None` exactly when the chain has no node;
    /// - each node's `prev` links to the node before it and its `next` to the
    ///   node after it, so the first node has no `prev` and the last no `next`;
    /// - no node occurs twice, and `len` counts the nodes.
    pub(crate) closed spec fn wf(&self) -> bool {
        let order = self.order@;
        &&& self.arena.wf()
        &&& self.arena.count() == order.len()
        &&& self.len == order.len()
        &&& order.no_duplicates()
        &&& self.head == link_at(order, 0)
        &&& self.tail == link_at(order, order.len() - 1)
        &&& forall|k: int|
            0 <= k < order.len() ==> {
                &&& self.arena@.dom().contains(#[trigger] order[k])
                &&& self.arena@[order[k]].prev == link_at(order, k - 1)
                &&& self.arena@[order[k]].next == link_at(order, k + 1)
            }
    }

    /// Positions inside the chain have a link, positions outside it have none.
    pub(crate) proof fn lemma_link_range(&self, k: int)
        ensures
            self.link(k) is Some <==> 0 <= k < self@.len(),
    {
    }

    /// A chain without nodes.
    pub(crate) fn new() -> (chain: Self)
        ensures
            chain.wf(),
            chain@ == Seq::<T>::empty(),
    {
        let chain = Chain {
            arena: Arena::new(),
            head: None,
            tail: None,
            len: 0,
            order: Ghost(Seq::empty()),
        };
        assert(chain@ =~= Seq::<T>::empty());
        chain
    }

    /// Links a new node that holds `data` behind the tail.
    pub(crate) fn push(&mut self, data: T)
        requires
            old(self).wf(),
        ensures
            final(self).wf(),
            final(self)@ == old(self)@.push(data),
    {
        let mut node = Node::new(data);
        node.set_prev(self.tail);
        let idx = self.arena.insert(node);
        match self.tail {
            Some(last) => {
                self.arena.set_next(last, Some(idx));
            },
            None => {
                self.head = Some(idx);
            },
        }
        self.tail = Some(idx);
        self.len = self.len + 1;
        self.order = Ghost(self.order@.push(idx));
        assert(self@ =~= old(self)@.push(data));
    }

    /// Links a new node that holds `data` before the head.
    pub(crate) fn push_front(&mut self, data: T)
        requires
            old(self).wf(),
        ensures
            final(self).wf(),
            final(self)@ == seq![data] + old(self)@,
    {
        let mut node = Node::new(data);
        node.set_next(self.head);
        let idx = self.arena.insert(node);
        match self.head {
            Some(first) => {
                self.arena.set_prev(first, Some(idx));
            },
            None => {
                self.tail = Some(idx);
            },
        }
        self.head = Some(idx);
        self.len = self.len + 1;
        self.order = Ghost(seq![idx] + self.order@);
        assert(self@ =~= seq![data] + old(self)@);
    }

    /// Unlinks the tail and hands out its payload; `None` where there is no
    /// node.
    pub(crate) fn pop(&mut self) -> (item: Option<Rc<T>>)
        requires
            old(self).wf(),
        ensures
            final(self).wf(),
            match item {
                Some(handle) => {
                    &&& old(self)@.len() > 0
                    &&& *handle == old(self)@.last()
                    &&& final(self)@ == old(self)@.drop_last()
                },
                None => old(self)@.len() == 0 && final(self)@ == old(self)@,
            },
    {
        match self.tail {
            None => None,
            Some(last) => {
                let node = self.arena.remove(last);
                let prev = node.get_prev();
                match prev {
                    Some(before) => {
                        self.arena.set_next(before, None);
                    },
                    None => {
                        self.head = None;
                    },
                }
                self.tail = prev;
                self.len = self.len - 1;
                self.order = Ghost(self.order@.drop_last());
                assert(self@ =~= old(self)@.drop_last());
                Some(node.into_data())
            },
        }
    }

    /// Unlinks the head and hands out its payload; `None` where there is no
    /// node.
    pub(crate) fn pop_front(&mut self) -> (item: Option<Rc<T>>)
        requires
            old(self).wf(),
        ensures
            final(self).wf(),
            match item {
                Some(handle) => {
                    &&& old(self)@.len() > 0
                    &&& *handle == old(self)@.first()
                    &&& final(self)@ == old(self)@.drop_first()
                },
                None => old(self)@.len() == 0 && final(self)@ == old(self)@,
            },
    {
        match self.head {
            None => None,
            Some(first) => {
                let node = self.arena.remove(first);
                let next = node.get_next();
                match next {
                    Some(after) => {
                        self.arena.set_prev(after, None);
                    },
                    None => {
                        self.tail = None;
                    },
                }
                self.head = next;
                self.len = self.len - 1;
                self.order = Ghost(self.order@.drop_first());
                assert(self@ =~= old(self)@.drop_first());
                Some(node.into_data())
            },
        }
    }

    /// The number of nodes.
    pub(crate) fn len(&self) -> (n: usize)
        requires
            self.wf(),
        ensures
            n == self@.len(),
    {
        self.len
    }

    /// Whether the chain has no node.
    pub(crate) fn is_empty(&self) -> (empty: bool)
        requires
            self.wf(),
        ensures
            empty == (self@.len() == 0),
    {
        self.head.is_none() && self.tail.is_none()
    }

    /// The link to the first node.
    pub(crate) fn head(&self) -> (link: Link)
        requires
            self.wf(),
        ensures
            link == self.link(0),
    {
        self.head
    }

    /// The node in slot `idx`, which is the node at position `k`.
    pub(crate) fn node(&self, idx: usize, Ghost(k): Ghost<int>) -> (node: &Node<T>)
        requires
            self.wf(),
            self.link(k) == Some(idx),
        ensures
            node.payload() == self@[k],
            node.prev == self.link(k - 1),
            node.next == self.link(k + 1),
    {
        self.arena.get(idx)
    }
}

} // verus!
