use crate::List;
use tinyvec::TinyVec;
use vstd::prelude::*;

verus! {

/// A `TinyVec` of `i32` with ten places inline, as a [`List`].
#[verifier::external_body]
pub struct TinyVecList {
    inner: TinyVec<[i32; 10]>,
}

/// The items that the `TinyVec` holds, in order: the slice that it dereferences to, be it
/// inline or on the heap.
pub uninterp spec fn tiny_vec_items(list: TinyVecList) -> Seq<i32>;

/// `TinyVec::from_iter` on a `Vec`: an empty vector extended by the items of `items`, in
/// their order.
#[verifier::external_body]
fn tiny_vec_from_vec(items: Vec<i32>) -> (list: TinyVecList)
    ensures
        tiny_vec_items(list) == items@,
{
    TinyVecList { inner: TinyVec::from_iter(items) }
}

/// `to_vec` on the slice that the `TinyVec` dereferences to: a `Vec` of copies of the
/// items, in their order.
#[verifier::external_body]
fn tiny_vec_to_vec(list: &TinyVecList) -> (items: Vec<i32>)
    ensures
        items@ == tiny_vec_items(*list),
{
    list.inner.to_vec()
}

/// `TinyVec::len`: the number of items held.
#[verifier::external_body]
fn tiny_vec_len(list: &TinyVecList) -> (len: usize)
    ensures
        len == tiny_vec_items(*list).len(),
{
    list.inner.len()
}

/// Indexing a `TinyVec`, which goes through the slice it dereferences to: a reference to
/// the item at `index`. It panics where `index` is out of bounds, which `requires` rules
/// out.
#[verifier::external_body]
fn tiny_vec_index(list: &TinyVecList, index: usize) -> (item: &i32)
    requires
        index < tiny_vec_items(*list).len(),
    ensures
        *item == tiny_vec_items(*list)[index as int],
{
    &list.inner[index]
}

/// Indexing a `TinyVec` mutably, through the mutable slice it dereferences to: a
/// reference to the item at `index`. What is written through it becomes that item, and no
/// other item changes; the length is a `usize`, as ever. It panics where `index` is out of
/// bounds, which `requires` rules out.
#[verifier::external_body]
fn tiny_vec_index_mut(list: &mut TinyVecList, index: usize) -> (item: &mut i32)
    requires
        index < tiny_vec_items(*old(list)).len(),
    ensures
        *item == tiny_vec_items(*old(list))[index as int],
        tiny_vec_items(*final(list)) == tiny_vec_items(*old(list)).update(
            index as int,
            *final(item),
        ),
        tiny_vec_items(*final(list)).len() <= usize::MAX,
{
    &mut list.inner[index]
}

/// `TinyVec::insert`: puts `item` at `index` and moves the items from there on up by one;
/// the length is a `usize`, as ever. It panics where `index` is past the length. A full
/// inline vector moves to a `Vec` of twice its length, and on the heap the call is
/// `Vec::insert`, which panics where the capacity it asks for passes `isize::MAX` bytes;
/// below a sixteenth of `usize::MAX` items of four bytes, even twice what is needed does
/// not. `requires` rules both out. Running out of memory is not spoken of.
#[verifier::external_body]
fn tiny_vec_insert(list: &mut TinyVecList, index: usize, item: i32)
    requires
        index <= tiny_vec_items(*old(list)).len(),
        tiny_vec_items(*old(list)).len() < usize::MAX / 16,
    ensures
        tiny_vec_items(*final(list)) == tiny_vec_items(*old(list)).insert(index as int, item),
        tiny_vec_items(*final(list)).len() <= usize::MAX,
{
    list.inner.insert(index, item)
}

/// `TinyVec::remove`: takes out the item at `index` and moves the following items down by
/// one; the length is a `usize`, as ever. It panics where `index` is out of bounds, which
/// `requires` rules out.
#[verifier::external_body]
fn tiny_vec_remove(list: &mut TinyVecList, index: usize)
    requires
        index < tiny_vec_items(*old(list)).len(),
    ensures
        tiny_vec_items(*final(list)) == tiny_vec_items(*old(list)).remove(index as int),
        tiny_vec_items(*final(list)).len() <= usize::MAX,
{
    list.inner.remove(index);
}

/// `TinyVec::splice` over the one place `index`, with the splice dropped at once, which
/// is when it does its work: the item at `index` gives way to `items`, in their order, and
/// the items around it stay; the length is a `usize`, as ever. It panics where the range
/// ends past the length, and it reserves and inserts as `TinyVec::insert` does, with the
/// same panic where the vector would grow too long. `requires` rules both out. Running out
/// of memory is not spoken of.
#[verifier::external_body]
fn tiny_vec_splice(list: &mut TinyVecList, index: usize, items: Vec<i32>)
    requires
        index < tiny_vec_items(*old(list)).len(),
        tiny_vec_items(*old(list)).len() + items@.len() - 1 <= usize::MAX / 16,
    ensures
        tiny_vec_items(*final(list)) == tiny_vec_items(*old(list)).take(index as int) + items@
            + tiny_vec_items(*old(list)).skip(index + 1),
        tiny_vec_items(*final(list)).len() <= usize::MAX,
{
    list.inner.splice(index..=index, items);
}

impl TinyVecList {
    /// A list of the items of `items`, in their order.
    pub fn from_vec(items: Vec<i32>) -> (list: Self)
        ensures
            list.items() == items@,
    {
        tiny_vec_from_vec(items)
    }

    /// The items of the list, in their order.
    pub fn to_vec(&self) -> (items: Vec<i32>)
        ensures
            items@ == self.items(),
    {
        tiny_vec_to_vec(self)
    }
}

impl List for TinyVecList {
    type Item = i32;

    open spec fn items(&self) -> Seq<i32> {
        tiny_vec_items(*self)
    }

    open spec fn limit(&self) -> Option<nat> {
        Some((usize::MAX / 16) as nat)
    }

    fn len(&self) -> (len: usize) {
        tiny_vec_len(self)
    }

    fn index(&self, index: usize) -> (item: &i32) {
        tiny_vec_index(self, index)
    }

    fn index_mut(&mut self, index: usize) -> (item: &mut i32) {
        tiny_vec_index_mut(self, index)
    }

    fn insert(&mut self, index: usize, item: i32) {
        tiny_vec_insert(self, index, item)
    }

    fn remove(&mut self, index: usize) {
        tiny_vec_remove(self, index)
    }

    fn replace(&mut self, index: usize, items: Vec<i32>) {
        tiny_vec_splice(self, index, items)
    }
}

} // verus!
