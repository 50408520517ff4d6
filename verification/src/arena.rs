//! Storage for the nodes of a chain.
//!
//! Nodes sit in the slots of a vector and are named by slot index. A slot
//! that gave up its node is kept on a free list and is the first to be filled
//! again, so the vector grows only while every slot is taken.

use crate::node::{Link, Node};
use vstd::prelude::*;

verus! {

/// The slots, and the list of those that stand vacant.
pub(crate) struct Arena<T> {
    slots: Vec<Option<Node<T>>>,
    free: Vec<usize>,
}

impl<T> View for Arena<T> {
    type V = Map<usize, Node<T>>;

    /// The nodes that the arena holds, by slot index.
    closed spec fn view(&self) -> Map<usize, Node<T>> {
        Map::new(
            |idx: usize| idx < self.slots@.len() && self.slots@[idx as int] is Some,
            |idx: usize| self.slots@[idx as int]->0,
        )
    }
}

impl<T> Arena<T> {
    /// The free list names vacant slots, each once, and misses none.
    pub(crate) closed spec fn wf(&self) -> bool {
        &&& self.free@.no_duplicates()
        &&& forall|k: int|
            0 <= k < self.free@.len() ==> {
                &&& (#[trigger] self.free@[k]) < self.slots@.len()
                &&& self.slots@[self.free@[k] as int] is None
            }
        &&& forall|idx: int|
            0 <= idx < self.slots@.len() && (#[trigger] self.slots@[idx]) is None
                ==> self.free@.contains(idx as usize)
    }

    /// The number of slots that are not on the free list.
    pub(crate) closed spec fn count(&self) -> int {
        self.slots@.len() - self.free@.len()
    }

    /// An arena without slots.
    pub(crate) fn new() -> (arena: Self)
        ensures
            arena.wf(),
            arena@ == Map::<usize, Node<T>>::empty(),
            arena.count() == 0,
    {
        let arena = Arena { slots: Vec::new(), free: Vec::new() };
        assert(arena@ =~= Map::<usize, Node<T>>::empty());
        arena
    }

    /// Stores `node` in a slot that held nothing and returns the slot's index.
    pub(crate) fn insert(&mut self, node: Node<T>) -> (idx: usize)
        requires
            old(self).wf(),
        ensures
            final(self).wf(),
            !old(self)@.dom().contains(idx),
            final(self)@ == old(self)@.insert(idx, node),
            final(self).count() == old(self).count() + 1,
            final(self).count() <= usize::MAX,
    {
        match self.free.pop() {
            Some(idx) => {
                self.slots[idx] = Some(node);
                proof {
                    let last = old(self).free@.len() - 1;
                    assert(old(self).free@[last] == idx);
                    assert forall|at: int|
                        0 <= at < self.slots@.len() && (#[trigger] self.slots@[at]) is None
                    implies self.free@.contains(at as usize) by {
                        assert(old(self).slots@[at] is None);
                        let k = choose|k: int|
                            0 <= k < old(self).free@.len() && old(self).free@[k] == at as usize;
                        assert(self.free@[k] == at as usize);
                    }
                    assert(self@ =~= old(self)@.insert(idx, node));
                }
                idx
            },
            None => {
                self.slots.push(Some(node));
                let idx: usize = self.slots.len() - 1;
                proof {
                    assert forall|at: int|
                        0 <= at < self.slots@.len() && (#[trigger] self.slots@[at]) is None
                    implies self.free@.contains(at as usize) by {
                        assert(old(self).slots@[at] is None);
                        assert(old(self).free@.contains(at as usize));
                    }
                    assert(self@ =~= old(self)@.insert(idx, node));
                }
                idx
            },
        }
    }

    /// Takes the node out of slot `idx` and puts the slot on the free list.
    pub(crate) fn remove(&mut self, idx: usize) -> (node: Node<T>)
        requires
            old(self).wf(),
            old(self)@.dom().contains(idx),
        ensures
            final(self).wf(),
            node == old(self)@[idx],
            final(self)@ == old(self)@.remove(idx),
            final(self).count() == old(self).count() - 1,
    {
        let taken = self.slots[idx].take();
        self.free.push(idx);
        proof {
            let last = old(self).free@.len() as int;
            assert(self.free@[last] == idx);
            assert forall|at: int|
                0 <= at < self.slots@.len() && (#[trigger] self.slots@[at]) is None
            implies self.free@.contains(at as usize) by {
                if at != idx as int {
                    assert(old(self).slots@[at] is None);
                    let k = choose|k: int|
                        0 <= k < old(self).free@.len() && old(self).free@[k] == at as usize;
                    assert(self.free@[k] == at as usize);
                }
            }
            assert(self@ =~= old(self)@.remove(idx));
        }
        taken.unwrap()
    }

    /// The node in slot `idx`.
    pub(crate) fn get(&self, idx: usize) -> (node: &Node<T>)
        requires
            self@.dom().contains(idx),
        ensures
            *node == self@[idx],
    {
        self.slots[idx].as_ref().unwrap()
    }

    /// Replaces the `prev` link of the node in slot `idx`.
    pub(crate) fn set_prev(&mut self, idx: usize, link: Link)
        requires
            old(self).wf(),
            old(self)@.dom().contains(idx),
        ensures
            final(self).wf(),
            final(self)@ == old(self)@.insert(idx, old(self)@[idx].with_prev(link)),
            final(self).count() == old(self).count(),
    {
        match &mut self.slots[idx] {
            Some(node) => {
                node.set_prev(link);
            },
            None => {},
        }
        assert(self@ =~= old(self)@.insert(idx, old(self)@[idx].with_prev(link)));
    }

    /// Replaces the `next` link of the node in slot `idx`.
    pub(crate) fn set_next(&mut self, idx: usize, link: Link)
        requires
            old(self).wf(),
            old(self)@.dom().contains(idx),
        ensures
            final(self).wf(),
            final(self)@ == old(self)@.insert(idx, old(self)@[idx].with_next(link)),
            final(self).count() == old(self).count(),
    {
        match &mut self.slots[idx] {
            Some(node) => {
                node.set_next(link);
            },
            None => {},
        }
        assert(self@ =~= old(self)@.insert(idx, old(self)@[idx].with_next(link)));
    }
}

} // verus!
