use crate::List;
use tinyvec::ArrayVec;
use vstd::prelude::*;

verus! {

#[verifier::external_type_specification]
#[verifier::external_body]
#[verifier::reject_recursive_types(A)]
pub struct ExTinyArrayVec<A>(ArrayVec<A>);

/// The items that a `tinyvec::ArrayVec` holds, in order: the slice that it dereferences
/// to, which is the first `len` places of its array.
pub uninterp spec fn tiny_array_vec_items(list: ArrayVec<[i32; 10]>) -> Seq<i32>;

/// `ArrayVec::len`: the number of items held, which is never more than the array has
/// places.
#[verifier::external_body]
fn tiny_array_vec_len(list: &ArrayVec<[i32; 10]>) -> (len: usize)
    ensures
        len == tiny_array_vec_items(*list).len(),
        len <= 10,
{
    list.len()
}

/// Indexing a `tinyvec::ArrayVec`, which goes through the slice it dereferences to: a
/// reference to the item at `index`. It panics where `index` is out of bounds, which
/// `requires` rules out.
#[verifier::external_body]
fn tiny_array_vec_index(list: &ArrayVec<[i32; 10]>, index: usize) -> (item: &i32)
    requires
        index < tiny_array_vec_items(*list).len(),
    ensures
        *item == tiny_array_vec_items(*list)[index as int],
{
    &list[index]
}

/// Indexing a `tinyvec::ArrayVec` mutably, through the mutable slice it dereferences to:
/// a reference to the item at `index`. What is written through it becomes that item, and
/// no other item changes; the vector holds no more than its array has places, as ever. It
/// panics where `index` is out of bounds, which `requires` rules out.
#[verifier::external_body]
fn tiny_array_vec_index_mut(list: &mut ArrayVec<[i32; 10]>, index: usize) -> (item: &mut i32)
    requires
        index < tiny_array_vec_items(*old(list)).len(),
    ensures
        *item == tiny_array_vec_items(*old(list))[index as int],
        tiny_array_vec_items(*final(list)) == tiny_array_vec_items(*old(list)).update(
            index as int,
            *final(item),
        ),
        tiny_array_vec_items(*final(list)).len() <= 10,
{
    &mut list[index]
}

/// `ArrayVec::insert`: puts `item` at `index` and moves the items from there on up by
/// one. It panics where `index` is past the length or the capacity is exhausted, both of
/// which `requires` rules out.
#[verifier::external_body]
fn tiny_array_vec_insert(list: &mut ArrayVec<[i32; 10]>, index: usize, item: i32)
    requires
        index <= tiny_array_vec_items(*old(list)).len(),
        tiny_array_vec_items(*old(list)).len() < 10,
    ensures
        tiny_array_vec_items(*final(list)) == tiny_array_vec_items(*old(list)).insert(
            index as int,
            item,
        ),
{
    list.insert(index, item)
}

/// `ArrayVec::remove`: takes out the item at `index` and moves the following items down
/// by one; the vector holds no more than its array has places, as ever. It panics where
/// `index` is out of bounds, which `requires` rules out.
#[verifier::external_body]
fn tiny_array_vec_remove(list: &mut ArrayVec<[i32; 10]>, index: usize)
    requires
        index < tiny_array_vec_items(*old(list)).len(),
    ensures
        tiny_array_vec_items(*final(list)) == tiny_array_vec_items(*old(list)).remove(
            index as int,
        ),
        tiny_array_vec_items(*final(list)).len() <= 10,
{
    list.remove(index);
}

impl List for ArrayVec<[i32; 10]> {
    type Item = i32;

    open spec fn items(&self) -> Seq<i32> {
        tiny_array_vec_items(*self)
    }

    open spec fn limit(&self) -> Option<nat> {
        Some(10)
    }

    fn len(&self) -> (len: usize) {
        tiny_array_vec_len(self)
    }

    fn index(&self, index: usize) -> (item: &i32) {
        tiny_array_vec_index(self, index)
    }

    fn index_mut(&mut self, index: usize) -> (item: &mut i32) {
        tiny_array_vec_index_mut(self, index)
    }

    fn insert(&mut self, index: usize, item: i32) {
        tiny_array_vec_insert(self, index, item)
    }

    fn remove(&mut self, index: usize) {
        tiny_array_vec_remove(self, index)
    }
}

} // verus!
