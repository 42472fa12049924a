use crate::List;
use vstd::prelude::*;

verus! {

impl<Item> List for Vec<Item> {
    type Item = Item;

    open spec fn items(&self) -> Seq<Item> {
        self@
    }

    open spec fn limit(&self) -> Option<nat> {
        None
    }

    fn len(&self) -> (len: usize) {
        Vec::len(self)
    }

    fn index(&self, index: usize) -> (item: &Item) {
        &self[index]
    }

    fn index_mut(&mut self, index: usize) -> (item: &mut Item) {
        assert(self@.len() == self.len());
        &mut self[index]
    }

    fn insert(&mut self, index: usize, item: Item) {
        Vec::insert(self, index, item);
        assert(self@.len() == self.len());
    }

    fn remove(&mut self, index: usize) {
        assert(self@.len() == self.len());
        Vec::remove(self, index);
    }
}

} // verus!
