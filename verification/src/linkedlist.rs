//! The list itself and the cursor that walks it.

use crate::chain::Chain;
use crate::node::Link;
use std::rc::Rc;
use vstd::prelude::*;

verus! {

/// A doubly-linked list. Not thread-safe. A data item cannot be changed once
/// it has been added to the list.
///
/// The view of a list is the sequence of its data items, from head to tail.
pub struct LinkedList<T> {
    chain: Chain<T>,
}

impl<T> View for LinkedList<T> {
    type V = Seq<T>;

    closed spec fn view(&self) -> Seq<T> {
        self.chain@
    }
}

impl<T> LinkedList<T> {
    #[verifier::type_invariant]
    spec fn well_linked(&self) -> bool {
        self.chain.wf()
    }

    /// Creates an empty list.
    pub fn new() -> (list: LinkedList<T>)
        ensures
            list@ == Seq::<T>::empty(),
    {
        LinkedList { chain: Chain::new() }
    }

    /// Pushes the data item to the end of the list.
    pub fn push(&mut self, data: T)
        ensures
            final(self)@ == old(self)@.push(data),
    {
        proof {
            use_type_invariant(&*self);
        }
        let mut chain = Chain::new();
        std::mem::swap(&mut chain, &mut self.chain);
        chain.push(data);
        self.chain = chain;
    }

    /// Pushes the data item to the front of the list.
    pub fn push_front(&mut self, data: T)
        ensures
            final(self)@ == seq![data] + old(self)@,
    {
        proof {
            use_type_invariant(&*self);
        }
        let mut chain = Chain::new();
        std::mem::swap(&mut chain, &mut self.chain);
        chain.push_front(data);
        self.chain = chain;
    }

    /// Removes the last item from the list and returns a handle to it, or
    /// `None` if the list is empty, which then stays as it is.
    pub fn pop(&mut self) -> (item: Option<Rc<T>>)
        ensures
            match item {
                Some(handle) => {
                    &&& old(self)@.len() > 0
                    &&& *handle == old(self)@.last()
                    &&& final(self)@ == old(self)@.drop_last()
                },
                None => old(self)@.len() == 0 && final(self)@ == old(self)@,
            },
    {
        proof {
            use_type_invariant(&*self);
        }
        let mut chain = Chain::new();
        std::mem::swap(&mut chain, &mut self.chain);
        let item = chain.pop();
        self.chain = chain;
        item
    }

    /// Removes the first item from the list and returns a handle to it, or
    /// `None` if the list is empty, which then stays as it is.
    pub fn pop_front(&mut self) -> (item: Option<Rc<T>>)
        ensures
            match item {
                Some(handle) => {
                    &&& old(self)@.len() > 0
                    &&& *handle == old(self)@.first()
                    &&& final(self)@ == old(self)@.drop_first()
                },
                None => old(self)@.len() == 0 && final(self)@ == old(self)@,
            },
    {
        proof {
            use_type_invariant(&*self);
        }
        let mut chain = Chain::new();
        std::mem::swap(&mut chain, &mut self.chain);
        let item = chain.pop_front();
        self.chain = chain;
        item
    }

    /// Returns the number of items in the list, from a counter that every
    /// push and pop keeps.
    pub fn len(&self) -> (n: usize)
        ensures
            n == self@.len(),
    {
        proof {
            use_type_invariant(self);
        }
        self.chain.len()
    }

    /// Checks if the list is empty.
    pub fn is_empty(&self) -> (empty: bool)
        ensures
            empty == (self@.len() == 0),
    {
        proof {
            use_type_invariant(self);
        }
        self.chain.is_empty()
    }

    /// Creates a cursor at the head of the list. The list is borrowed for as
    /// long as the cursor lives, so it cannot change under the cursor.
    pub fn iter(&self) -> (cursor: LinkedListIter<'_, T>)
        ensures
            cursor@ == self@,
    {
        proof {
            use_type_invariant(self);
        }
        LinkedListIter::new(&self.chain)
    }
}

impl<T> Default for LinkedList<T> {
    /// The empty list.
    fn default() -> (list: Self)
        ensures
            list@ == Seq::<T>::empty(),
    {
        Self::new()
    }
}

/// A cursor that walks a list from head to tail and yields a handle to each
/// data item. Once it has passed the tail it yields `None` for ever.
///
/// The view of a cursor is the sequence of the items that it has yet to
/// yield, in the order in which it will yield them.
pub struct LinkedListIter<'a, T> {
    chain: &'a Chain<T>,
    cursor: Link,
    /// The position of the cursor, counted from the head.
    pos: Ghost<int>,
}

impl<'a, T> View for LinkedListIter<'a, T> {
    type V = Seq<T>;

    closed spec fn view(&self) -> Seq<T> {
        self.chain@.skip(self.pos@)
    }
}

impl<'a, T> LinkedListIter<'a, T> {
    #[verifier::type_invariant]
    spec fn on_chain(&self) -> bool {
        &&& self.chain.wf()
        &&& 0 <= self.pos@ <= self.chain@.len()
        &&& self.cursor == self.chain.link(self.pos@)
    }

    fn new(chain: &'a Chain<T>) -> (cursor: LinkedListIter<'a, T>)
        requires
            chain.wf(),
        ensures
            cursor@ == chain@,
    {
        LinkedListIter { chain, cursor: chain.head(), pos: Ghost(0) }
    }

    /// Yields a handle to the item under the cursor and moves the cursor one
    /// node towards the tail; yields `None`, and stays, once the cursor has
    /// passed the tail.
    pub fn next(&mut self) -> (item: Option<Rc<T>>)
        ensures
            match item {
                Some(handle) => {
                    &&& old(self)@.len() > 0
                    &&& *handle == old(self)@.first()
                    &&& final(self)@ == old(self)@.drop_first()
                },
                None => old(self)@.len() == 0 && final(self)@ == old(self)@,
            },
    {
        proof {
            use_type_invariant(&*self);
            self.chain.lemma_link_range(self.pos@);
        }
        match self.cursor {
            None => None,
            Some(idx) => {
                let node = self.chain.node(idx, Ghost(self.pos@));
                let handle = node.get_data();
                let next = node.get_next();
                *self = LinkedListIter { chain: self.chain, cursor: next, pos: Ghost(self.pos@ + 1) };
                assert(self@ =~= old(self)@.drop_first());
                Some(handle)
            },
        }
    }
}

} // verus!
