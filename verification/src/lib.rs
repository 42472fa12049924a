//! Editing a list in place while walking it.
//!
//! [`edit`] walks a [`List`] once, front to back. At each position it hands the caller's
//! function a [`Slot`], through which the function may read or overwrite the current item,
//! insert items before or after it, replace it by any number of items, or remove it. The walk
//! then steps over whatever now stands in place of the visited item, so that inserted items
//! are never visited and no earlier item is skipped or seen twice. [`try_edit`] does the same
//! for a function that may fail, and stops at the first failure.
//!
//! Lists are modelled by the sequence of their items, [`List::items`]. The module [`walk`]
//! says what a walk is in terms of that model, and [`laws`] proves what follows from it.
//! The module [`integrations`] makes lists of the collections of the standard library and
//! of some other crates.

use vstd::prelude::*;

pub mod integrations;
pub mod laws;
pub mod slot;
pub mod walk;

use crate::slot::Slot;
use crate::laws::{lemma_each_item_visited_once, lemma_walk_so_far};
use crate::walk::{
    are_splices, has_room, is_chain, is_walk, splice, state_after, written, Visit,
};

verus! {

broadcast use vstd::function::group_function_axioms;

/// A homogeneous collection that can be edited in place while it is walked.
///
/// The model of a list is the sequence of its items. A list may have a `limit`, a length
/// that it cannot grow beyond; inserting asks for room below it.
pub trait List {
    /// The type of each item in the list.
    type Item;

    /// The items of the list, in order.
    spec fn items(&self) -> Seq<Self::Item>;

    /// The greatest length the list can have, where it has such a limit.
    spec fn limit(&self) -> Option<nat>;

    /// Returns the number of items in the list.
    fn len(&self) -> (len: usize)
        ensures
            len == self.items().len(),
    ;

    /// Returns a shared reference to the item at `index`.
    fn index(&self, index: usize) -> (item: &Self::Item)
        requires
            index < self.items().len(),
        ensures
            *item == self.items()[index as int],
    ;

    /// Returns a mutable reference to the item at `index`. What is written through it
    /// becomes the item at `index`; nothing else changes.
    fn index_mut(&mut self, index: usize) -> (item: &mut Self::Item)
        requires
            index < old(self).items().len(),
        ensures
            *item == old(self).items()[index as int],
            final(self).items() == old(self).items().update(index as int, *final(item)),
            final(self).items().len() <= usize::MAX,
            final(self).limit() == old(self).limit(),
    ;

    /// Inserts `item` at `index`, moving the items from `index` on one place up.
    fn insert(&mut self, index: usize, item: Self::Item)
        requires
            index <= old(self).items().len(),
            has_room(old(self).items().len(), old(self).limit(), 1),
        ensures
            final(self).items() == old(self).items().insert(index as int, item),
            final(self).items().len() <= usize::MAX,
            final(self).limit() == old(self).limit(),
    ;

    /// Removes the item at `index`, moving the items after it one place down.
    fn remove(&mut self, index: usize)
        requires
            index < old(self).items().len(),
        ensures
            final(self).items() == old(self).items().remove(index as int),
            final(self).items().len() <= usize::MAX,
            final(self).limit() == old(self).limit(),
    ;

    /// Replaces the item at `index` with the zero or more `items`, in their order.
    ///
    /// As provided, it removes the item if there are no `items`; otherwise it writes the
    /// first of them in place and inserts the others after it, one by one. A list with a
    /// splice of its own may use that instead.
    fn replace(&mut self, index: usize, items: Vec<Self::Item>)
        requires
            index < old(self).items().len(),
            has_room(old(self).items().len(), old(self).limit(), items@.len() - 1),
        ensures
            final(self).items() == splice(old(self).items(), index as int, items@),
            final(self).items().len() <= usize::MAX,
            final(self).limit() == old(self).limit(),
    {
        let mut first = true;
        let mut next: usize = index;
        for item in run: items.into_iter()
            invariant
                index < old(self).items().len(),
                run.seq() == items@,
                has_room(old(self).items().len(), old(self).limit(), items@.len() - 1),
                first <==> run.index() == 0,
                next == index + run.index(),
                self.limit() == old(self).limit(),
                first ==> self.items() == old(self).items(),
                !first ==> self.items() == splice(
                    old(self).items(),
                    index as int,
                    items@.take(run.index()),
                ),
                !first ==> self.items().len() <= usize::MAX,
        {
            if first {
                *self.index_mut(index) = item;
                first = false;
            } else {
                assert(self.items().len() == old(self).items().len() - 1 + run.index());
                self.insert(next, item);
                assert(self.items() =~= splice(
                    old(self).items(),
                    index as int,
                    items@.take(run.index() + 1),
                ));
            }
            next = next + 1;
        }
        if first {
            self.remove(index);
        }
    }
}

/// Iterates over `items`, calling `edit` with a [`Slot`] for each item. The `Slot` allows
/// accessing the current item and updating the list at the current position.
///
/// `edit` must leave a splice at the slot's position, with the length of the run as the
/// stride; through the methods of `Slot` nothing else can be left. And it must accept the
/// slots of this walk: every fresh slot that stands where calls of `edit` can have brought a
/// walk of `items`.
///
/// The list is then the end of a walk whose visits are calls of `edit`. There is one visit
/// for each item that the list had, in order, and the list ends as what the visits wrote.
pub fn edit<L, F>(items: &mut L, edit: F) where L: List + ?Sized, F: FnMut(Slot<L>)
    requires
        forall|slot: Slot<L>|
            slot.is_fresh() && call_ensures(edit, (slot,), ()) ==> slot.leaves(
                final(slot.list()).items(),
                final(slot.stride()).0 as nat,
                final(slot.list()).limit(),
            ),
        forall|slots: Seq<Slot<L>>, steps: Seq<Visit<L::Item>>, slot: Slot<L>|
            #![trigger slots.len(), is_chain(steps, old(items).items()), call_requires(edit, (slot,))]
            {
                &&& steps.len() == slots.len()
                &&& forall|k: int|
                    0 <= k < slots.len() ==> {
                        &&& (#[trigger] slots[k]).is_fresh()
                        &&& call_ensures(edit, (slots[k],), ())
                        &&& steps[k] == slots[k].visit(
                            final(slots[k].list()).items(),
                            final(slots[k].stride()).0 as nat,
                        )
                    }
                &&& is_chain(steps, old(items).items())
                &&& slot.is_fresh()
                &&& slot.items() == state_after(steps, old(items).items()).0
                &&& slot.position() == state_after(steps, old(items).items()).1
                &&& slot.limit() == old(items).limit()
            } ==> call_requires(edit, (slot,)),
    ensures
        exists|slots: Seq<Slot<L>>, steps: Seq<Visit<L::Item>>|
            #![trigger slots.len(), is_chain(steps, old(items).items())]
            {
                &&& steps.len() == slots.len()
                &&& forall|k: int|
                    0 <= k < slots.len() ==> {
                        &&& (#[trigger] slots[k]).is_fresh()
                        &&& call_ensures(edit, (slots[k],), ())
                        &&& steps[k] == slots[k].visit(
                            final(slots[k].list()).items(),
                            final(slots[k].stride()).0 as nat,
                        )
                    }
                &&& is_walk(steps, old(items).items(), final(items).items())
                &&& are_splices(steps)
                &&& steps.len() == old(items).items().len()
                &&& final(items).items() == written(steps)
            },
        final(items).limit() == old(items).limit(),
{
    let mut callback = edit;
    let ghost mut slots: Seq<Slot<L>> = Seq::empty();
    let ghost mut steps: Seq<Visit<L::Item>> = Seq::empty();
    let mut index: usize = 0;
    while index < items.len()
        invariant
            callback == edit,
            forall|slot: Slot<L>|
                slot.is_fresh() && call_ensures(edit, (slot,), ()) ==> slot.leaves(
                    final(slot.list()).items(),
                    final(slot.stride()).0 as nat,
                    final(slot.list()).limit(),
                ),
            forall|slots: Seq<Slot<L>>, steps: Seq<Visit<L::Item>>, slot: Slot<L>|
                #![trigger slots.len(), is_chain(steps, old(items).items()), call_requires(edit, (slot,))]
                {
                    &&& steps.len() == slots.len()
                    &&& forall|k: int|
                        0 <= k < slots.len() ==> {
                            &&& (#[trigger] slots[k]).is_fresh()
                            &&& call_ensures(edit, (slots[k],), ())
                            &&& steps[k] == slots[k].visit(
                                final(slots[k].list()).items(),
                                final(slots[k].stride()).0 as nat,
                            )
                        }
                    &&& is_chain(steps, old(items).items())
                    &&& slot.is_fresh()
                    &&& slot.items() == state_after(steps, old(items).items()).0
                    &&& slot.position() == state_after(steps, old(items).items()).1
                    &&& slot.limit() == old(items).limit()
                } ==> call_requires(edit, (slot,)),
            steps.len() == slots.len(),
            forall|k: int|
                0 <= k < slots.len() ==> {
                    &&& (#[trigger] slots[k]).is_fresh()
                    &&& call_ensures(edit, (slots[k],), ())
                    &&& steps[k] == slots[k].visit(
                        final(slots[k].list()).items(),
                        final(slots[k].stride()).0 as nat,
                    )
                },
            is_chain(steps, old(items).items()),
            are_splices(steps),
            state_after(steps, old(items).items()) == (items.items(), index as int),
            items.limit() == old(items).limit(),
        decreases items.items().len() - index,
    {
        let ghost before = items.items();
        let ghost position = index as int;
        let mut stride = Stride(1);
        let slot = Slot::new(items, index, &mut stride);
        let ghost seen = slot;
        assert(slot.is_fresh());
        callback(slot);
        let ghost step = Visit { before, position, after: items.items(), stride: stride.0 as nat };
        proof {
            // A splice leaves as many items after its run as stood after the visited item,
            // so the walk has one item less ahead of it.
            assert(step.after.len() - (step.position + step.stride) == step.before.len()
                - step.position - 1) by {
                assert(step.after.skip(step.position + step.stride).len() == step.before.skip(
                    step.position + 1,
                ).len());
            }
            assert(steps.push(step).drop_last() == steps);
            slots = slots.push(seen);
            steps = steps.push(step);
        }
        index += stride.get();
    }
    proof {
        lemma_each_item_visited_once(steps, old(items).items(), items.items());
    }
}

/// The fallible version of [`edit`].
///
/// Iterates over `items`, calling `edit` with a [`Slot`] for each item, and stops at the
/// first error, which it returns. There is one visit for each of the first items that the
/// list had, the last of them the one that failed, if any did. What the visits wrote stays,
/// that of the failed one too, and the items after them are as they were.
pub fn try_edit<L, E, F>(items: &mut L, edit: F) -> (result: Result<(), E>) where
    L: List + ?Sized,
    F: FnMut(Slot<L>) -> Result<(), E>,

    requires
        forall|slot: Slot<L>, outcome: Result<(), E>|
            slot.is_fresh() && call_ensures(edit, (slot,), outcome) ==> slot.leaves(
                final(slot.list()).items(),
                final(slot.stride()).0 as nat,
                final(slot.list()).limit(),
            ),
        forall|slots: Seq<Slot<L>>, steps: Seq<Visit<L::Item>>, slot: Slot<L>|
            #![trigger slots.len(), is_chain(steps, old(items).items()), call_requires(edit, (slot,))]
            {
                &&& steps.len() == slots.len()
                &&& forall|k: int|
                    0 <= k < slots.len() ==> {
                        &&& (#[trigger] slots[k]).is_fresh()
                        &&& call_ensures(edit, (slots[k],), Ok(()))
                        &&& steps[k] == slots[k].visit(
                            final(slots[k].list()).items(),
                            final(slots[k].stride()).0 as nat,
                        )
                    }
                &&& is_chain(steps, old(items).items())
                &&& slot.is_fresh()
                &&& slot.items() == state_after(steps, old(items).items()).0
                &&& slot.position() == state_after(steps, old(items).items()).1
                &&& slot.limit() == old(items).limit()
            } ==> call_requires(edit, (slot,)),
    ensures
        exists|slots: Seq<Slot<L>>, steps: Seq<Visit<L::Item>>|
            #![trigger slots.len(), is_chain(steps, old(items).items())]
            {
                &&& steps.len() == slots.len()
                &&& forall|k: int|
                    0 <= k < slots.len() ==> {
                        &&& (#[trigger] slots[k]).is_fresh()
                        &&& call_ensures(
                            edit,
                            (slots[k],),
                            if k + 1 < slots.len() {
                                Ok(())
                            } else {
                                result
                            },
                        )
                        &&& steps[k] == slots[k].visit(
                            final(slots[k].list()).items(),
                            final(slots[k].stride()).0 as nat,
                        )
                    }
                &&& is_chain(steps, old(items).items())
                &&& are_splices(steps)
                &&& steps.len() <= old(items).items().len()
                &&& final(items).items() == written(steps) + old(items).items().skip(
                    steps.len() as int,
                )
                &&& result is Ok ==> steps.len() == old(items).items().len()
                &&& result is Err ==> steps.len() > 0
            },
        final(items).limit() == old(items).limit(),
{
    let mut callback = edit;
    let ghost mut slots: Seq<Slot<L>> = Seq::empty();
    let ghost mut steps: Seq<Visit<L::Item>> = Seq::empty();
    let mut index: usize = 0;
    while index < items.len()
        invariant
            callback == edit,
            forall|slot: Slot<L>, outcome: Result<(), E>|
                slot.is_fresh() && call_ensures(edit, (slot,), outcome) ==> slot.leaves(
                    final(slot.list()).items(),
                    final(slot.stride()).0 as nat,
                    final(slot.list()).limit(),
                ),
            forall|slots: Seq<Slot<L>>, steps: Seq<Visit<L::Item>>, slot: Slot<L>|
                #![trigger slots.len(), is_chain(steps, old(items).items()), call_requires(edit, (slot,))]
                {
                    &&& steps.len() == slots.len()
                    &&& forall|k: int|
                        0 <= k < slots.len() ==> {
                            &&& (#[trigger] slots[k]).is_fresh()
                            &&& call_ensures(edit, (slots[k],), Ok(()))
                            &&& steps[k] == slots[k].visit(
                                final(slots[k].list()).items(),
                                final(slots[k].stride()).0 as nat,
                            )
                        }
                    &&& is_chain(steps, old(items).items())
                    &&& slot.is_fresh()
                    &&& slot.items() == state_after(steps, old(items).items()).0
                    &&& slot.position() == state_after(steps, old(items).items()).1
                    &&& slot.limit() == old(items).limit()
                } ==> call_requires(edit, (slot,)),
            steps.len() == slots.len(),
            forall|k: int|
                0 <= k < slots.len() ==> {
                    &&& (#[trigger] slots[k]).is_fresh()
                    &&& call_ensures(edit, (slots[k],), Ok(()))
                    &&& steps[k] == slots[k].visit(
                        final(slots[k].list()).items(),
                        final(slots[k].stride()).0 as nat,
                    )
                },
            is_chain(steps, old(items).items()),
            are_splices(steps),
            state_after(steps, old(items).items()) == (items.items(), index as int),
            items.limit() == old(items).limit(),
        decreases items.items().len() - index,
    {
        let ghost before = items.items();
        let ghost position = index as int;
        let mut stride = Stride(1);
        let slot = Slot::new(items, index, &mut stride);
        let ghost seen = slot;
        let outcome = callback(slot);
        assert(call_ensures(edit, (seen,), outcome));
        let ghost step = Visit { before, position, after: items.items(), stride: stride.0 as nat };
        proof {
            // A splice leaves as many items after its run as stood after the visited item,
            // so the walk has one item less ahead of it.
            assert(step.after.len() - (step.position + step.stride) == step.before.len()
                - step.position - 1) by {
                assert(step.after.skip(step.position + step.stride).len() == step.before.skip(
                    step.position + 1,
                ).len());
            }
            assert(steps.push(step).drop_last() == steps);
            slots = slots.push(seen);
            steps = steps.push(step);
        }
        let ghost got = outcome;
        match outcome {
            Ok(()) => {
                assert(got == Ok::<(), E>(got->Ok_0));
            },
            Err(error) => {
                proof {
                    assert forall|k: int| 0 <= k < slots.len() implies {
                        &&& (#[trigger] slots[k]).is_fresh()
                        &&& call_ensures(
                            edit,
                            (slots[k],),
                            if k + 1 < slots.len() {
                                Ok(())
                            } else {
                                Err::<(), E>(error)
                            },
                        )
                        &&& steps[k] == slots[k].visit(
                            final(slots[k].list()).items(),
                            final(slots[k].stride()).0 as nat,
                        )
                    } by {
                        if k + 1 == slots.len() {
                            assert(slots[k] == seen);
                        }
                    }
                    lemma_walk_so_far(steps, old(items).items());
                }
                return Err(error);
            },
        }
        index += stride.get();
    }
    proof {
        lemma_each_item_visited_once(steps, old(items).items(), items.items());
    }
    Ok(())
}

/// Allows calling [`edit`] and [`try_edit`] as methods on [`List`]s rather than free
/// functions.
pub trait Edit: List {
    /// Calls [`edit`] on `self`.
    fn edit<F>(&mut self, edit: F) where F: FnMut(Slot<Self>)
        requires
            forall|slot: Slot<Self>|
                slot.is_fresh() && call_ensures(edit, (slot,), ()) ==> slot.leaves(
                    final(slot.list()).items(),
                    final(slot.stride()).0 as nat,
                    final(slot.list()).limit(),
                ),
            forall|slots: Seq<Slot<Self>>, steps: Seq<Visit<Self::Item>>, slot: Slot<Self>|
                #![trigger slots.len(), is_chain(steps, old(self).items()), call_requires(edit, (slot,))]
                {
                    &&& steps.len() == slots.len()
                    &&& forall|k: int|
                        0 <= k < slots.len() ==> {
                            &&& (#[trigger] slots[k]).is_fresh()
                            &&& call_ensures(edit, (slots[k],), ())
                            &&& steps[k] == slots[k].visit(
                                final(slots[k].list()).items(),
                                final(slots[k].stride()).0 as nat,
                            )
                        }
                    &&& is_chain(steps, old(self).items())
                    &&& slot.is_fresh()
                    &&& slot.items() == state_after(steps, old(self).items()).0
                    &&& slot.position() == state_after(steps, old(self).items()).1
                    &&& slot.limit() == old(self).limit()
                } ==> call_requires(edit, (slot,)),
        ensures
            exists|slots: Seq<Slot<Self>>, steps: Seq<Visit<Self::Item>>|
                #![trigger slots.len(), is_chain(steps, old(self).items())]
                {
                    &&& steps.len() == slots.len()
                    &&& forall|k: int|
                        0 <= k < slots.len() ==> {
                            &&& (#[trigger] slots[k]).is_fresh()
                            &&& call_ensures(edit, (slots[k],), ())
                            &&& steps[k] == slots[k].visit(
                                final(slots[k].list()).items(),
                                final(slots[k].stride()).0 as nat,
                            )
                        }
                    &&& is_walk(steps, old(self).items(), final(self).items())
                    &&& are_splices(steps)
                    &&& steps.len() == old(self).items().len()
                    &&& final(self).items() == written(steps)
                },
            final(self).limit() == old(self).limit(),
    {
        crate::edit(self, edit)
    }

    /// Calls [`try_edit`] on `self`.
    fn try_edit<E, F>(&mut self, edit: F) -> (result: Result<(), E>) where
        F: FnMut(Slot<Self>) -> Result<(), E>,

        requires
            forall|slot: Slot<Self>, outcome: Result<(), E>|
                slot.is_fresh() && call_ensures(edit, (slot,), outcome) ==> slot.leaves(
                    final(slot.list()).items(),
                    final(slot.stride()).0 as nat,
                    final(slot.list()).limit(),
                ),
            forall|slots: Seq<Slot<Self>>, steps: Seq<Visit<Self::Item>>, slot: Slot<Self>|
                #![trigger slots.len(), is_chain(steps, old(self).items()), call_requires(edit, (slot,))]
                {
                    &&& steps.len() == slots.len()
                    &&& forall|k: int|
                        0 <= k < slots.len() ==> {
                            &&& (#[trigger] slots[k]).is_fresh()
                            &&& call_ensures(edit, (slots[k],), Ok(()))
                            &&& steps[k] == slots[k].visit(
                                final(slots[k].list()).items(),
                                final(slots[k].stride()).0 as nat,
                            )
                        }
                    &&& is_chain(steps, old(self).items())
                    &&& slot.is_fresh()
                    &&& slot.items() == state_after(steps, old(self).items()).0
                    &&& slot.position() == state_after(steps, old(self).items()).1
                    &&& slot.limit() == old(self).limit()
                } ==> call_requires(edit, (slot,)),
        ensures
            exists|slots: Seq<Slot<Self>>, steps: Seq<Visit<Self::Item>>|
                #![trigger slots.len(), is_chain(steps, old(self).items())]
                {
                    &&& steps.len() == slots.len()
                    &&& forall|k: int|
                        0 <= k < slots.len() ==> {
                            &&& (#[trigger] slots[k]).is_fresh()
                            &&& call_ensures(
                                edit,
                                (slots[k],),
                                if k + 1 < slots.len() {
                                    Ok(())
                                } else {
                                    result
                                },
                            )
                            &&& steps[k] == slots[k].visit(
                                final(slots[k].list()).items(),
                                final(slots[k].stride()).0 as nat,
                            )
                        }
                    &&& is_chain(steps, old(self).items())
                    &&& are_splices(steps)
                    &&& steps.len() <= old(self).items().len()
                    &&& final(self).items() == written(steps) + old(self).items().skip(
                        steps.len() as int,
                    )
                    &&& result is Ok ==> steps.len() == old(self).items().len()
                    &&& result is Err ==> steps.len() > 0
                },
            final(self).limit() == old(self).limit(),
    {
        crate::try_edit(self, edit)
    }
}

impl<L> Edit for L where L: List + ?Sized {
}

/// The number of positions a walk advances after visiting one slot: 1 where the item was
/// left in place, 0 where it was removed, and else the number of items that stand in its
/// place.
pub struct Stride(pub usize);

impl Stride {
    /// Sets the stride to `value`.
    pub fn set(&mut self, value: usize)
        ensures
            final(self).0 == value,
    {
        self.0 = value
    }

    /// The stride.
    pub fn get(self) -> (value: usize)
        ensures
            value == self.0,
    {
        self.0
    }
}

} // verus!
