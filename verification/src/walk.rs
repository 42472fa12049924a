//! What a walk is, in terms of the sequences of items.

use vstd::prelude::*;

verus! {

/// `items` with the item at `index` replaced by the run `mid`.
pub open spec fn splice<A>(items: Seq<A>, index: int, mid: Seq<A>) -> Seq<A>
    recommends
        0 <= index < items.len(),
{
    items.take(index) + mid + items.skip(index + 1)
}

/// Whether a list of `len` items can take `count` more without passing its `limit`.
pub open spec fn has_room(len: nat, limit: Option<nat>, count: int) -> bool {
    match limit {
        Some(limit) => len + count <= limit,
        None => true,
    }
}

/// One visit of a walk: the list as the slot found it, the position it stood at, the list
/// as it left it, and the stride it left behind.
pub ghost struct Visit<A> {
    pub before: Seq<A>,
    pub position: int,
    pub after: Seq<A>,
    pub stride: nat,
}

impl<A> Visit<A> {
    /// The item that was visited.
    pub open spec fn item(self) -> A
        recommends
            0 <= self.position < self.before.len(),
    {
        self.before[self.position]
    }

    /// The items that stand in place of the visited item after the visit.
    pub open spec fn run(self) -> Seq<A> {
        self.after.subrange(self.position, self.position + self.stride)
    }

    /// The visit left the list and the stride as a walk handed them out.
    pub open spec fn is_untouched(self) -> bool {
        self.after == self.before && self.stride == 1
    }

    /// The visit touched nothing if `keep` holds of the item, and else removed the item.
    pub open spec fn keeps_if(self, keep: spec_fn(A) -> bool) -> bool {
        if keep(self.item()) {
            self.is_untouched()
        } else {
            self.after == self.before.remove(self.position) && self.stride == 0
        }
    }

    /// The visit changed nothing but the visited position, where it left `stride` items:
    /// what stood before the position still does, and what stood after the visited item
    /// now stands after the run.
    pub open spec fn is_splice(self) -> bool {
        &&& 0 <= self.position < self.before.len()
        &&& self.position + self.stride <= self.after.len()
        &&& self.after.take(self.position) == self.before.take(self.position)
        &&& self.after.skip(self.position + self.stride) == self.before.skip(self.position + 1)
    }
}

/// Where a walk stands after `steps`, having begun on `start`: the list, and the position
/// of the next visit.
pub open spec fn state_after<A>(steps: Seq<Visit<A>>, start: Seq<A>) -> (Seq<A>, int) {
    if steps.len() == 0 {
        (start, 0)
    } else {
        (steps.last().after, steps.last().position + steps.last().stride)
    }
}

/// `steps` are the first visits of a walk that began on `start`: the last of them found
/// the list as the ones before left it, at the position they advanced to, and stood at an
/// item; and the ones before are such visits too.
pub open spec fn is_chain<A>(steps: Seq<Visit<A>>, start: Seq<A>) -> bool
    decreases steps.len(),
{
    steps.len() > 0 ==> {
        &&& is_chain(steps.drop_last(), start)
        &&& steps.last().before == state_after(steps.drop_last(), start).0
        &&& steps.last().position == state_after(steps.drop_last(), start).1
        &&& 0 <= steps.last().position < steps.last().before.len()
    }
}

/// Every one of `steps` is a splice.
pub open spec fn are_splices<A>(steps: Seq<Visit<A>>) -> bool {
    forall|k: int| 0 <= k < steps.len() ==> (#[trigger] steps[k]).is_splice()
}

/// What `steps` have written: the runs they left, one after the other.
pub open spec fn written<A>(steps: Seq<Visit<A>>) -> Seq<A>
    decreases steps.len(),
{
    if steps.len() == 0 {
        Seq::empty()
    } else {
        written(steps.drop_last()) + steps.last().run()
    }
}

/// `steps` are all the visits of a walk from `start` to `end`: after them the position
/// has reached the end of the list, which is then `end`.
pub open spec fn is_walk<A>(steps: Seq<Visit<A>>, start: Seq<A>, end: Seq<A>) -> bool {
    &&& is_chain(steps, start)
    &&& state_after(steps, start).0 == end
    &&& state_after(steps, start).1 >= end.len()
}

} // verus!
