//! [`List`](crate::List) for the collections this crate knows.
//!
//! `Vec` and `VecDeque` are lists whatever their items are. The vectors of `arrayvec`,
//! `smallvec` and `tinyvec` are lists of `i32`: what they hold is named for one type of
//! vector each, and each is trusted to do to it what its source shows. An `ArrayVec` of
//! either crate is a list as it stands, with ten places. A `SmallVec` and a `TinyVec` are
//! held in a [`SmallVecList`] and a [`TinyVecList`], made from a `Vec` and read back as one.

mod array_vec;
mod small_vec;
mod tiny_array_vec;
mod tiny_vec;
mod vec;
mod vec_deque;

pub use self::small_vec::SmallVecList;
pub use self::tiny_vec::TinyVecList;
