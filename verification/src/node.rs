//! One element of the chain: a payload and the links to its two neighbours.

use std::rc::Rc;
use vstd::prelude::*;

verus! {

/// A link to a neighbouring node: the index of the slot that holds it, or
/// `None` where the chain ends.
pub(crate) type Link = Option<usize>;

/// A node of the chain. The payload is fixed when the node is made; only the
/// two links change afterwards.
pub(crate) struct Node<T> {
    pub(crate) data: Rc<T>,
    pub(crate) prev: Link,
    pub(crate) next: Link,
}

/// `Rc::clone` of std: a further handle to the allocation that `handle`
/// points to. The contract claims only that the new handle points to the same
/// payload as the old one.
#[verifier::external_body]
fn share<T>(handle: &Rc<T>) -> (copy: Rc<T>)
    ensures
        *copy == **handle,
{
    Rc::clone(handle)
}

impl<T> Node<T> {
    /// The payload that the node carries.
    pub(crate) open spec fn payload(&self) -> T {
        *self.data
    }

    /// The same node with its `prev` link replaced.
    pub(crate) open spec fn with_prev(self, link: Link) -> Self {
        Node { prev: link, ..self }
    }

    /// The same node with its `next` link replaced.
    pub(crate) open spec fn with_next(self, link: Link) -> Self {
        Node { next: link, ..self }
    }

    /// A node that holds `data` and is linked to nothing.
    pub(crate) fn new(data: T) -> (node: Node<T>)
        ensures
            node.payload() == data,
            node.prev is None,
            node.next is None,
    {
        Node { data: Rc::new(data), prev: None, next: None }
    }

    /// Replaces the link to the previous node.
    pub(crate) fn set_prev(&mut self, other: Link)
        ensures
            *final(self) == old(self).with_prev(other),
    {
        self.prev = other;
    }

    /// Replaces the link to the next node.
    pub(crate) fn set_next(&mut self, other: Link)
        ensures
            *final(self) == old(self).with_next(other),
    {
        self.next = other;
    }

    /// The link to the previous node.
    pub(crate) fn get_prev(&self) -> (link: Link)
        ensures
            link == self.prev,
    {
        self.prev
    }

    /// The link to the next node.
    pub(crate) fn get_next(&self) -> (link: Link)
        ensures
            link == self.next,
    {
        self.next
    }

    /// A further handle to the payload; the node keeps its own.
    pub(crate) fn get_data(&self) -> (handle: Rc<T>)
        ensures
            *handle == self.payload(),
    {
        share(&self.data)
    }

    /// Gives up the node and hands out its handle to the payload.
    pub(crate) fn into_data(self) -> (handle: Rc<T>)
        ensures
            *handle == self.payload(),
    {
        self.data
    }
}

} // verus!
