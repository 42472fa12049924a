use crate::List;
use arrayvec::ArrayVec;
use vstd::prelude::*;

verus! {

#[verifier::external_type_specification]
#[verifier::external_body]
#[verifier::reject_recursive_types(T)]
pub struct ExArrayVec<T, const CAP: usize>(ArrayVec<T, CAP>);

/// The items that an `ArrayVec` holds, in order: the slice that it dereferences to.
pub uninterp spec fn array_vec_items(list: ArrayVec<i32, 10>) -> Seq<i32>;

/// `ArrayVec::len`: the number of items held, which is never more than the capacity.
#[verifier::external_body]
fn array_vec_len(list: &ArrayVec<i32, 10>) -> (len: usize)
    ensures
        len == array_vec_items(*list).len(),
        len <= 10,
{
    list.len()
}

/// Indexing an `ArrayVec`, which goes through the slice it dereferences to: a reference
/// to the item at `index`. It panics where `index` is out of bounds, which `requires`
/// rules out.
#[verifier::external_body]
fn array_vec_index(list: &ArrayVec<i32, 10>, index: usize) -> (item: &i32)
    requires
        index < array_vec_items(*list).len(),
    ensures
        *item == array_vec_items(*list)[index as int],
{
    &list[index]
}

/// Indexing an `ArrayVec` mutably, through the mutable slice it dereferences to: a
/// reference to the item at `index`. What is written through it becomes that item, and no
/// other item changes; the vector holds no more than its capacity, as ever. It panics
/// where `index` is out of bounds, which `requires` rules out.
#[verifier::external_body]
fn array_vec_index_mut(list: &mut ArrayVec<i32, 10>, index: usize) -> (item: &mut i32)
    requires
        index < array_vec_items(*old(list)).len(),
    ensures
        *item == array_vec_items(*old(list))[index as int],
        array_vec_items(*final(list)) == array_vec_items(*old(list)).update(
            index as int,
            *final(item),
        ),
        array_vec_items(*final(list)).len() <= 10,
{
    &mut list[index]
}

/// `ArrayVec::insert`: puts `item` at `index` and shifts the items from there on up by
/// one. It panics where `index` is past the length or the vector is full, both of which
/// `requires` rules out.
#[verifier::external_body]
fn array_vec_insert(list: &mut ArrayVec<i32, 10>, index: usize, item: i32)
    requires
        index <= array_vec_items(*old(list)).len(),
        array_vec_items(*old(list)).len() < 10,
    ensures
        array_vec_items(*final(list)) == array_vec_items(*old(list)).insert(index as int, item),
{
    list.insert(index, item)
}

/// `ArrayVec::remove`: takes out the item at `index` and shifts the following items down
/// by one; the vector holds no more than its capacity, as ever. It panics where `index`
/// is out of bounds, which `requires` rules out.
#[verifier::external_body]
fn array_vec_remove(list: &mut ArrayVec<i32, 10>, index: usize)
    requires
        index < array_vec_items(*old(list)).len(),
    ensures
        array_vec_items(*final(list)) == array_vec_items(*old(list)).remove(index as int),
        array_vec_items(*final(list)).len() <= 10,
{
    list.remove(index);
}

impl List for ArrayVec<i32, 10> {
    type Item = i32;

    open spec fn items(&self) -> Seq<i32> {
        array_vec_items(*self)
    }

    open spec fn limit(&self) -> Option<nat> {
        Some(10)
    }

    fn len(&self) -> (len: usize) {
        array_vec_len(self)
    }

    fn index(&self, index: usize) -> (item: &i32) {
        array_vec_index(self, index)
    }

    fn index_mut(&mut self, index: usize) -> (item: &mut i32) {
        array_vec_index_mut(self, index)
    }

    fn insert(&mut self, index: usize, item: i32) {
        array_vec_insert(self, index, item)
    }

    fn remove(&mut self, index: usize) {
        array_vec_remove(self, index)
    }
}

} // verus!
