//! The handle that a walk gives out at each position.

use crate::laws::{
    lemma_insert_after_is_splice, lemma_insert_before_is_splice,
    lemma_replace_with_nothing_removes, lemma_splice_is_splice,
};
use crate::walk::{has_room, splice, Visit};
use crate::{List, Stride};
use vstd::prelude::*;

verus! {

/// Represents the current position in a walk of a list.
///
/// A slot reads and overwrites the item it stands at. It makes at most one structural
/// edit, since each of those takes the slot by value.
pub struct Slot<'list, 'stride, L> where L: List + ?Sized {
    list: &'list mut L,
    index: usize,
    stride: &'stride mut Stride,
}

impl<'list, 'stride, L> Slot<'list, 'stride, L> where L: List + ?Sized {
    /// The list the slot is bound to. Where a contract speaks of the list when the slot has
    /// gone, it speaks of `final(slot.list())`.
    pub closed spec fn list(self) -> &'list mut L {
        self.list
    }

    /// The stride the slot is bound to, which the walk reads when the slot has gone.
    pub closed spec fn stride(self) -> &'stride mut Stride {
        self.stride
    }

    /// The position the slot stands at.
    pub closed spec fn position(self) -> int {
        self.index as int
    }

    /// The items of the list as they are now.
    pub open spec fn items(self) -> Seq<L::Item> {
        self.list().items()
    }

    /// The limit of the list.
    pub open spec fn limit(self) -> Option<nat> {
        self.list().limit()
    }

    /// The stride as it is now.
    pub open spec fn pending(self) -> nat {
        self.stride().0 as nat
    }

    /// The visit that the slot makes, if it leaves the list as `after` and the stride as
    /// `stride`.
    pub open spec fn visit(self, after: Seq<L::Item>, stride: nat) -> Visit<L::Item> {
        Visit { before: self.items(), position: self.position(), after, stride }
    }

    /// What a slot can leave behind: a splice at its position whose run is as long as the
    /// stride, in a list whose length still fits and whose limit is as it was.
    pub open spec fn leaves(self, after: Seq<L::Item>, stride: nat, limit: Option<nat>) -> bool {
        &&& self.visit(after, stride).is_splice()
        &&& after.len() <= usize::MAX
        &&& limit == self.limit()
    }

    /// The slot is as a walk hands it out: it stands at an item, and the stride is 1.
    pub open spec fn is_fresh(self) -> bool {
        self.wf() && self.pending() == 1
    }

    /// The slot stands at an item.
    pub open spec fn wf(self) -> bool {
        0 <= self.position() < self.items().len() <= usize::MAX
    }

    /// The item the slot stands at.
    pub open spec fn item(self) -> L::Item
        recommends
            self.wf(),
    {
        self.items()[self.position()]
    }

    /// A slot at `index` of `list`, which leaves in `stride` how far the walk is to advance.
    /// A walk hands it a stride of 1, which is what an item left in place asks for.
    pub fn new(list: &'list mut L, index: usize, stride: &'stride mut Stride) -> (slot: Self)
        requires
            index < old(list).items().len() <= usize::MAX,
        ensures
            slot.wf(),
            slot.items() == old(list).items(),
            slot.limit() == old(list).limit(),
            slot.position() == index,
            slot.pending() == old(stride).0,
            final(slot.list()).items() == final(list).items(),
            final(slot.list()).limit() == final(list).limit(),
            final(slot.stride()).0 == final(stride).0,
    {
        Slot { list, index, stride }
    }

    /// Returns a shared reference to the item at the current position.
    pub fn get(&self) -> (item: &L::Item)
        requires
            self.wf(),
        ensures
            *item == self.item(),
    {
        self.list.index(self.index)
    }

    /// Returns a mutable reference to the item at the current position. Writing through it
    /// overwrites the item in place, which is no structural edit.
    pub fn get_mut(&mut self) -> (item: &mut L::Item)
        requires
            old(self).wf(),
        ensures
            *item == old(self).item(),
            final(self).items() == old(self).items().update(old(self).position(), *final(item)),
            final(self).items().take(old(self).position()) == old(self).items().take(
                old(self).position(),
            ),
            final(self).items().skip(old(self).position() + 1) == old(self).items().skip(
                old(self).position() + 1,
            ),
            final(self).position() == old(self).position(),
            final(self).limit() == old(self).limit(),
            final(self).pending() == old(self).pending(),
            final(self).wf(),
            final(final(self).list()).items() == final(old(self).list()).items(),
            final(final(self).list()).limit() == final(old(self).list()).limit(),
            final(final(self).stride()).0 == final(old(self).stride()).0,
    {
        let ghost before = self.items();
        let ghost position = self.position();
        proof {
            assert forall|item: L::Item| #![auto]
                before.update(position, item).take(position) == before.take(position)
                    && before.update(position, item).skip(position + 1) == before.skip(
                    position + 1,
                ) by {
                assert(before.update(position, item).take(position) =~= before.take(position));
                assert(before.update(position, item).skip(position + 1) =~= before.skip(
                    position + 1,
                ));
            }
        }
        self.list.index_mut(self.index)
    }

    /// Inserts zero or more `items` before the current item.
    pub fn insert_before(self, items: Vec<L::Item>)
        requires
            self.wf(),
            has_room(self.items().len(), self.limit(), items@.len() as int),
        ensures
            final(self.list()).items() == self.items().take(self.position()) + items@
                + self.items().skip(self.position()),
            final(self.list()).items().len() <= usize::MAX,
            final(self.list()).limit() == self.limit(),
            final(self.stride()).0 == items@.len() + 1,
            self.leaves(
                final(self.list()).items(),
                final(self.stride()).0 as nat,
                final(self.list()).limit(),
            ),
    {
        let ghost before = self.items();
        let ghost seen = self;
        let count = items.len();
        let mut next: usize = self.index;
        for item in run: items.into_iter()
            invariant
                self.index < before.len() <= usize::MAX,
                run.seq() == items@,
                count == items@.len(),
                has_room(before.len(), self.list.limit(), items@.len() as int),
                next == self.index + run.index(),
                self.list.items() == before.take(self.index as int) + items@.take(run.index())
                    + before.skip(self.index as int),
                self.list.items().len() <= usize::MAX,
                self.index == seen.index,
                self.list.limit() == seen.list.limit(),
                final(self.list).items() == final(seen.list).items(),
                final(self.list).limit() == final(seen.list).limit(),
                final(self.stride).0 == final(seen.stride).0,
        {
            self.list.insert(next, item);
            next = next + 1;
        }
        self.stride.set(count + 1);
        proof {
            assert(items@.take(items@.len() as int) == items@);
            lemma_insert_before_is_splice(before, self.index as int, items@);
            lemma_splice_is_splice(before, self.index as int, items@.push(before[self.index as int]));
        }
    }

    /// Inserts zero or more `items` after the current item.
    pub fn insert_after(self, items: Vec<L::Item>)
        requires
            self.wf(),
            has_room(self.items().len(), self.limit(), items@.len() as int),
        ensures
            final(self.list()).items() == self.items().take(self.position() + 1) + items@
                + self.items().skip(self.position() + 1),
            final(self.list()).items().len() <= usize::MAX,
            final(self.list()).limit() == self.limit(),
            final(self.stride()).0 == items@.len() + 1,
            self.leaves(
                final(self.list()).items(),
                final(self.stride()).0 as nat,
                final(self.list()).limit(),
            ),
    {
        let ghost before = self.items();
        let ghost seen = self;
        let count = items.len();
        let mut next: usize = self.index;
        for item in run: items.into_iter()
            invariant
                self.index < before.len() <= usize::MAX,
                run.seq() == items@,
                count == items@.len(),
                has_room(before.len(), self.list.limit(), items@.len() as int),
                next == self.index + run.index(),
                self.list.items() == before.take(self.index + 1) + items@.take(run.index())
                    + before.skip(self.index + 1),
                self.list.items().len() <= usize::MAX,
                self.index == seen.index,
                self.list.limit() == seen.list.limit(),
                final(self.list).items() == final(seen.list).items(),
                final(self.list).limit() == final(seen.list).limit(),
                final(self.stride).0 == final(seen.stride).0,
        {
            next = next + 1;
            self.list.insert(next, item);
        }
        self.stride.set(count + 1);
        proof {
            assert(items@.take(items@.len() as int) == items@);
            lemma_insert_after_is_splice(before, self.index as int, items@);
            lemma_splice_is_splice(
                before,
                self.index as int,
                seq![before[self.index as int]] + items@,
            );
        }
    }

    /// Replaces the current item with zero or more `items`. With no items, this removes
    /// the current item.
    pub fn replace(self, items: Vec<L::Item>)
        requires
            self.wf(),
            has_room(self.items().len(), self.limit(), items@.len() - 1),
        ensures
            final(self.list()).items() == splice(self.items(), self.position(), items@),
            final(self.list()).items().len() <= usize::MAX,
            final(self.list()).limit() == self.limit(),
            final(self.stride()).0 == items@.len(),
            self.leaves(
                final(self.list()).items(),
                final(self.stride()).0 as nat,
                final(self.list()).limit(),
            ),
    {
        proof {
            lemma_splice_is_splice(self.items(), self.position(), items@);
        }
        self.stride.set(items.len());
        self.list.replace(self.index, items);
    }

    /// Calls `build` with the current item. Replaces the current item with the zero or
    /// more resulting items.
    ///
    /// This is how a replacement is made from the item it replaces: [`Slot::replace`]
    /// takes the slot, so its argument cannot read from it.
    pub fn replace_with<F>(self, build: F) where F: FnOnce(&L::Item) -> Vec<L::Item>
        requires
            self.wf(),
            call_requires(build, (&self.item(),)),
            forall|items: Vec<L::Item>|
                call_ensures(build, (&self.item(),), items) ==> has_room(
                    self.items().len(),
                    self.limit(),
                    items@.len() - 1,
                ),
        ensures
            exists|items: Vec<L::Item>|
                {
                    &&& call_ensures(build, (&self.item(),), items)
                    &&& final(self.list()).items() == splice(
                        self.items(),
                        self.position(),
                        items@,
                    )
                    &&& final(self.stride()).0 == items@.len()
                },
            final(self.list()).items().len() <= usize::MAX,
            final(self.list()).limit() == self.limit(),
            self.leaves(
                final(self.list()).items(),
                final(self.stride()).0 as nat,
                final(self.list()).limit(),
            ),
    {
        let items = build(self.get());
        self.replace(items);
    }

    /// Removes the current item.
    pub fn remove(self)
        requires
            self.wf(),
        ensures
            final(self.list()).items() == self.items().remove(self.position()),
            final(self.list()).items().len() <= usize::MAX,
            final(self.list()).limit() == self.limit(),
            final(self.stride()).0 == 0,
            self.leaves(
                final(self.list()).items(),
                final(self.stride()).0 as nat,
                final(self.list()).limit(),
            ),
    {
        proof {
            lemma_replace_with_nothing_removes(self.items(), self.position());
            lemma_splice_is_splice(self.items(), self.position(), Seq::empty());
        }
        self.list.remove(self.index);
        self.stride.set(0);
    }
}

/// A slot that is done with has left the list and the stride as they last were in it.
pub broadcast proof fn lemma_slot_resolved<L: List + ?Sized>(slot: Slot<L>)
    requires
        #[trigger] has_resolved(slot),
    ensures
        final(slot.list()).items() == slot.items(),
        final(slot.list()).limit() == slot.limit(),
        final(slot.stride()).0 == slot.pending(),
        slot.is_fresh() ==> slot.leaves(
            final(slot.list()).items(),
            final(slot.stride()).0 as nat,
            final(slot.list()).limit(),
        ),
{
}

} // verus!
