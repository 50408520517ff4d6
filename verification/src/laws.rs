//! Laws of the list, stated over the sequence of its data items.
//!
//! A run of calls is folded over that sequence: each step does to it what the
//! contract of the called method says the call does to the view of the list.

use vstd::prelude::*;

verus! {

/// The items of a list after each of `values` was pushed to its end, in turn:
/// every step appends one value, as `LinkedList::push` does.
pub open spec fn push_each<T>(list: Seq<T>, values: Seq<T>) -> Seq<T>
    decreases values.len(),
{
    if values.len() == 0 {
        list
    } else {
        push_each(list.push(values.first()), values.drop_first())
    }
}

/// The items of a list after each of `values` was pushed to its front, in
/// turn: every step prepends one value, as `LinkedList::push_front` does.
pub open spec fn push_front_each<T>(list: Seq<T>, values: Seq<T>) -> Seq<T>
    decreases values.len(),
{
    if values.len() == 0 {
        list
    } else {
        push_front_each(seq![values.first()] + list, values.drop_first())
    }
}

/// The items that one pop leaves: `LinkedList::pop` where `at_end` holds,
/// `LinkedList::pop_front` where it does not. An empty list stays empty.
///
/// `LinkedListIter::next` does to the items that a cursor has yet to yield
/// what `pop_front` does to the items of a list.
pub open spec fn after_pop<T>(list: Seq<T>, at_end: bool) -> Seq<T> {
    if list.len() == 0 {
        list
    } else if at_end {
        list.drop_last()
    } else {
        list.drop_first()
    }
}

/// The item that this pop returns, and `None` on an empty list.
pub open spec fn popped<T>(list: Seq<T>, at_end: bool) -> Option<T> {
    if list.len() == 0 {
        None
    } else if at_end {
        Some(list.last())
    } else {
        Some(list.first())
    }
}

/// The items that a run of pops leaves. The run has one pop for each entry of
/// `ends`, at the end of the list where the entry holds and at its front where
/// it does not.
pub open spec fn after_pops<T>(list: Seq<T>, ends: Seq<bool>) -> Seq<T>
    decreases ends.len(),
{
    if ends.len() == 0 {
        list
    } else {
        after_pops(after_pop(list, ends.first()), ends.drop_first())
    }
}

/// What the pops of such a run return, one result for each pop, in the order
/// of the calls.
pub open spec fn results_of_pops<T>(list: Seq<T>, ends: Seq<bool>) -> Seq<Option<T>>
    decreases ends.len(),
{
    if ends.len() == 0 {
        Seq::empty()
    } else {
        seq![popped(list, ends.first())] + results_of_pops(
            after_pop(list, ends.first()),
            ends.drop_first(),
        )
    }
}

/// A run of `count` pops that are all at the end of the list, or all at its
/// front.
pub open spec fn same_end(at_end: bool, count: nat) -> Seq<bool> {
    Seq::new(count, |k: int| at_end)
}

/// The results of pops that returned `values`, one after the other.
pub open spec fn returned<T>(values: Seq<T>) -> Seq<Option<T>> {
    Seq::new(values.len(), |k: int| Some(values[k]))
}

/// Pushing values to the end of a list appends them in the order of the
/// pushes.
pub proof fn lemma_push_each_appends<T>(list: Seq<T>, values: Seq<T>)
    ensures
        push_each(list, values) == list + values,
    decreases values.len(),
{
    if values.len() == 0 {
        assert(list + values =~= list);
    } else {
        lemma_push_each_appends(list.push(values.first()), values.drop_first());
        assert(list.push(values.first()) + values.drop_first() =~= list + values);
    }
}

/// Pushing values to the front of a list puts them before it, the last pushed
/// first.
pub proof fn lemma_push_front_each_prepends<T>(list: Seq<T>, values: Seq<T>)
    ensures
        push_front_each(list, values) == values.reverse() + list,
    decreases values.len(),
{
    if values.len() == 0 {
        assert(values.reverse() + list =~= list);
    } else {
        let rest = values.drop_first();
        lemma_push_front_each_prepends(seq![values.first()] + list, rest);
        assert(rest.reverse() + (seq![values.first()] + list) =~= values.reverse() + list);
    }
}

/// After any number of pushes to the end of an empty list, the list has as
/// many items as were pushed, and holds them in the order of insertion.
pub proof fn lemma_pushes_keep_insertion_order<T>(values: Seq<T>)
    ensures
        push_each(Seq::empty(), values) == values,
        push_each(Seq::empty(), values).len() == values.len(),
{
    lemma_push_each_appends(Seq::empty(), values);
    assert(Seq::<T>::empty() + values =~= values);
}

/// After any number of pushes to the front of an empty list, the list holds
/// the items in the reverse of the order of insertion.
pub proof fn lemma_front_pushes_reverse_insertion_order<T>(values: Seq<T>)
    ensures
        push_front_each(Seq::empty(), values) == values.reverse(),
        push_front_each(Seq::empty(), values).len() == values.len(),
{
    lemma_push_front_each_prepends(Seq::empty(), values);
    assert(values.reverse() + Seq::<T>::empty() =~= values.reverse());
}

/// Every pop gives one result, and every pop on a list that still has an item
/// takes exactly one item away.
pub proof fn lemma_pops_count<T>(list: Seq<T>, ends: Seq<bool>)
    ensures
        results_of_pops(list, ends).len() == ends.len(),
        after_pops(list, ends).len() == if ends.len() >= list.len() {
            0
        } else {
            list.len() - ends.len()
        },
    decreases ends.len(),
{
    if ends.len() > 0 {
        lemma_pops_count(after_pop(list, ends.first()), ends.drop_first());
    }
}

/// A pop on an empty list returns `None` and leaves the list empty, at either
/// end and however often it is repeated.
pub proof fn lemma_pops_on_empty<T>(ends: Seq<bool>)
    ensures
        after_pops(Seq::<T>::empty(), ends) == Seq::<T>::empty(),
        results_of_pops(Seq::<T>::empty(), ends).len() == ends.len(),
        forall|k: int|
            0 <= k < ends.len() ==> (#[trigger] results_of_pops(Seq::<T>::empty(), ends)[k]) is None,
    decreases ends.len(),
{
    if ends.len() > 0 {
        lemma_pops_on_empty::<T>(ends.drop_first());
    }
}

/// After any pushes, at the end of an empty list or at its front, as many
/// pops as there were pushes leave the list empty, whichever end each pop
/// takes from.
pub proof fn lemma_pushes_then_pops_leave_empty<T>(values: Seq<T>, ends: Seq<bool>)
    requires
        ends.len() == values.len(),
    ensures
        after_pops(push_each(Seq::empty(), values), ends) == Seq::<T>::empty(),
        after_pops(push_front_each(Seq::empty(), values), ends) == Seq::<T>::empty(),
{
    lemma_pushes_keep_insertion_order(values);
    lemma_front_pushes_reverse_insertion_order(values);
    lemma_pops_count(push_each(Seq::empty(), values), ends);
    lemma_pops_count(push_front_each(Seq::empty(), values), ends);
    assert(after_pops(push_each(Seq::empty(), values), ends) =~= Seq::<T>::empty());
    assert(after_pops(push_front_each(Seq::empty(), values), ends) =~= Seq::<T>::empty());
}

/// Popping a whole list from its end returns its items from the last to the
/// first.
pub proof fn lemma_pops_at_end_return_reverse<T>(list: Seq<T>)
    ensures
        results_of_pops(list, same_end(true, list.len())) == returned(list.reverse()),
    decreases list.len(),
{
    let ends = same_end(true, list.len());
    if list.len() == 0 {
        assert(results_of_pops(list, ends) =~= returned(list.reverse()));
    } else {
        let rest = list.drop_last();
        assert(ends.drop_first() =~= same_end(true, rest.len()));
        lemma_pops_at_end_return_reverse(rest);
        assert(seq![Some(list.last())] + returned(rest.reverse()) =~= returned(list.reverse()));
    }
}

/// Popping a whole list from its front returns its items from the first to
/// the last.
pub proof fn lemma_pops_at_front_return_in_order<T>(list: Seq<T>)
    ensures
        results_of_pops(list, same_end(false, list.len())) == returned(list),
    decreases list.len(),
{
    let ends = same_end(false, list.len());
    if list.len() == 0 {
        assert(results_of_pops(list, ends) =~= returned(list));
    } else {
        let rest = list.drop_first();
        assert(ends.drop_first() =~= same_end(false, rest.len()));
        lemma_pops_at_front_return_in_order(rest);
        assert(seq![Some(list.first())] + returned(rest) =~= returned(list));
    }
}

/// A cursor yields the items before it from the first to the last, one with
/// each call of `next`, and `None` with every call after that.
pub proof fn lemma_cursor_yields_items_then_none<T>(items: Seq<T>, calls: nat)
    ensures
        results_of_pops(items, same_end(false, calls)).len() == calls,
        forall|k: int|
            0 <= k < calls ==> (#[trigger] results_of_pops(items, same_end(false, calls))[k]) == if k
                < items.len() {
                Some(items[k])
            } else {
                None
            },
    decreases calls,
{
    let ends = same_end(false, calls);
    if calls > 0 {
        let rest = after_pop(items, false);
        assert(ends.drop_first() =~= same_end(false, (calls - 1) as nat));
        lemma_cursor_yields_items_then_none(rest, (calls - 1) as nat);
        assert forall|k: int| 0 <= k < calls implies (#[trigger] results_of_pops(items, ends)[k])
            == if k < items.len() {
            Some(items[k])
        } else {
            None
        } by {
            if k > 0 {
                assert(results_of_pops(items, ends)[k] == results_of_pops(
                    rest,
                    same_end(false, (calls - 1) as nat),
                )[k - 1]);
            }
        }
    }
}

/// Round trip at one end: values that were pushed to the end of an empty list
/// come back from `pop` last pushed first, and so do values that were pushed
/// to its front from `pop_front`.
pub proof fn lemma_pop_returns_pushes_in_reverse<T>(values: Seq<T>)
    ensures
        results_of_pops(push_each(Seq::empty(), values), same_end(true, values.len())) == returned(
            values.reverse(),
        ),
        results_of_pops(push_front_each(Seq::empty(), values), same_end(false, values.len()))
            == returned(values.reverse()),
{
    lemma_pushes_keep_insertion_order(values);
    lemma_front_pushes_reverse_insertion_order(values);
    lemma_pops_at_end_return_reverse(values);
    lemma_pops_at_front_return_in_order(values.reverse());
}

/// Round trip across the list: values that were pushed to the end of an empty
/// list come back from `pop_front` in the order of the pushes, and so do
/// values that were pushed to its front from `pop`.
pub proof fn lemma_pop_at_other_end_returns_pushes_in_order<T>(values: Seq<T>)
    ensures
        results_of_pops(push_each(Seq::empty(), values), same_end(false, values.len()))
            == returned(values),
        results_of_pops(push_front_each(Seq::empty(), values), same_end(true, values.len()))
            == returned(values),
{
    lemma_pushes_keep_insertion_order(values);
    lemma_front_pushes_reverse_insertion_order(values);
    lemma_pops_at_front_return_in_order(values);
    lemma_pops_at_end_return_reverse(values.reverse());
    assert(values.reverse().reverse() =~= values);
}

} // verus!
