use crate::List;
use smallvec::SmallVec;
use vstd::prelude::*;

verus! {

/// A `SmallVec` of `i32` with five places inline, as a [`List`].
#[verifier::external_body]
pub struct SmallVecList {
    inner: SmallVec<[i32; 5]>,
}

/// The items that the `SmallVec` holds, in order: the slice that it dereferences to.
pub uninterp spec fn small_vec_items(list: SmallVecList) -> Seq<i32>;

/// `SmallVec::from_vec`: a vector of the items of `items`, in their order.
#[verifier::external_body]
fn small_vec_from_vec(items: Vec<i32>) -> (list: SmallVecList)
    ensures
        small_vec_items(list) == items@,
{
    SmallVecList { inner: SmallVec::from_vec(items) }
}

/// `to_vec` on the slice that the `SmallVec` dereferences to: a `Vec` of copies of the
/// items, in their order.
#[verifier::external_body]
fn small_vec_to_vec(list: &SmallVecList) -> (items: Vec<i32>)
    ensures
        items@ == small_vec_items(*list),
{
    list.inner.to_vec()
}

/// `SmallVec::len`: the number of items held.
#[verifier::external_body]
fn small_vec_len(list: &SmallVecList) -> (len: usize)
    ensures
        len == small_vec_items(*list).len(),
{
    list.inner.len()
}

/// Indexing a `SmallVec`, which goes through the slice it dereferences to: a reference to
/// the item at `index`. It panics where `index` is out of bounds, which `requires` rules
/// out.
#[verifier::external_body]
fn small_vec_index(list: &SmallVecList, index: usize) -> (item: &i32)
    requires
        index < small_vec_items(*list).len(),
    ensures
        *item == small_vec_items(*list)[index as int],
{
    &list.inner[index]
}

/// Indexing a `SmallVec` mutably, through the mutable slice it dereferences to: a
/// reference to the item at `index`. What is written through it becomes that item, and no
/// other item changes; the length is a `usize`, as ever. It panics where `index` is out of
/// bounds, which `requires` rules out.
#[verifier::external_body]
fn small_vec_index_mut(list: &mut SmallVecList, index: usize) -> (item: &mut i32)
    requires
        index < small_vec_items(*old(list)).len(),
    ensures
        *item == small_vec_items(*old(list))[index as int],
        small_vec_items(*final(list)) == small_vec_items(*old(list)).update(
            index as int,
            *final(item),
        ),
        small_vec_items(*final(list)).len() <= usize::MAX,
{
    &mut list.inner[index]
}

/// `SmallVec::insert`: puts `item` at `index` and shifts the items from there on up by
/// one. It panics where `index` is past the length. Where the vector is full it grows to
/// the next power of two above its length, and panics if that many items of four bytes
/// pass `isize::MAX`; below a sixteenth of `usize::MAX` items they do not. `requires`
/// rules both out. Running out of memory is not spoken of.
#[verifier::external_body]
fn small_vec_insert(list: &mut SmallVecList, index: usize, item: i32)
    requires
        index <= small_vec_items(*old(list)).len(),
        small_vec_items(*old(list)).len() < usize::MAX / 16,
    ensures
        small_vec_items(*final(list)) == small_vec_items(*old(list)).insert(index as int, item),
{
    list.inner.insert(index, item)
}

/// `SmallVec::remove`: takes out the item at `index` and shifts the following items down
/// by one; the length is a `usize`, as ever. It panics where `index` is out of bounds,
/// which `requires` rules out.
#[verifier::external_body]
fn small_vec_remove(list: &mut SmallVecList, index: usize)
    requires
        index < small_vec_items(*old(list)).len(),
    ensures
        small_vec_items(*final(list)) == small_vec_items(*old(list)).remove(index as int),
        small_vec_items(*final(list)).len() <= usize::MAX,
{
    list.inner.remove(index);
}

impl SmallVecList {
    /// A list of the items of `items`, in their order.
    pub fn from_vec(items: Vec<i32>) -> (list: Self)
        ensures
            list.items() == items@,
    {
        small_vec_from_vec(items)
    }

    /// The items of the list, in their order.
    pub fn to_vec(&self) -> (items: Vec<i32>)
        ensures
            items@ == self.items(),
    {
        small_vec_to_vec(self)
    }
}

impl List for SmallVecList {
    type Item = i32;

    open spec fn items(&self) -> Seq<i32> {
        small_vec_items(*self)
    }

    open spec fn limit(&self) -> Option<nat> {
        Some((usize::MAX / 16) as nat)
    }

    fn len(&self) -> (len: usize) {
        small_vec_len(self)
    }

    fn index(&self, index: usize) -> (item: &i32) {
        small_vec_index(self, index)
    }

    fn index_mut(&mut self, index: usize) -> (item: &mut i32) {
        small_vec_index_mut(self, index)
    }

    fn insert(&mut self, index: usize, item: i32) {
        small_vec_insert(self, index, item)
    }

    fn remove(&mut self, index: usize) {
        small_vec_remove(self, index)
    }
}

} // verus!
