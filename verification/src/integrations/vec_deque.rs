use crate::List;
use std::collections::VecDeque;
use vstd::prelude::*;

verus! {

/// `VecDeque`'s `index_mut`, that is `&mut list[index]`: a mutable reference to the item
/// at `index`, counted from the front. What is written through it becomes that item, and
/// no other item changes. It panics where `index` is out of bounds, which `requires` rules
/// out.
#[verifier::external_body]
fn vec_deque_index_mut<Item>(list: &mut VecDeque<Item>, index: usize) -> (item: &mut Item)
    requires
        index < old(list)@.len(),
    ensures
        *item == old(list)@[index as int],
        final(list)@ == old(list)@.update(index as int, *final(item)),
{
    &mut list[index]
}

impl<Item> List for VecDeque<Item> {
    type Item = Item;

    open spec fn items(&self) -> Seq<Item> {
        self@
    }

    open spec fn limit(&self) -> Option<nat> {
        None
    }

    fn len(&self) -> (len: usize) {
        VecDeque::len(self)
    }

    fn index(&self, index: usize) -> (item: &Item) {
        &self[index]
    }

    fn index_mut(&mut self, index: usize) -> (item: &mut Item) {
        assert(self@.len() == self.len());
        vec_deque_index_mut(self, index)
    }

    fn insert(&mut self, index: usize, item: Item) {
        VecDeque::insert(self, index, item);
        assert(self@.len() == self.len());
    }

    fn remove(&mut self, index: usize) {
        assert(self@.len() == self.len());
        VecDeque::remove(self, index);
    }
}

} // verus!
