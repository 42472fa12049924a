//! What holds of every walk, whatever the list and whatever the edits.

use crate::walk::{are_splices, is_chain, is_walk, splice, state_after, written, Visit};
use vstd::prelude::*;

verus! {

/// The first visits of a walk are themselves the first visits of that walk.
proof fn lemma_chain_prefix<A>(steps: Seq<Visit<A>>, start: Seq<A>, count: int)
    requires
        is_chain(steps, start),
        0 <= count <= steps.len(),
    ensures
        is_chain(steps.take(count), start),
    decreases steps.len(),
{
    if count == steps.len() {
        assert(steps.take(count) == steps);
    } else {
        lemma_chain_prefix(steps.drop_last(), start, count);
        assert(steps.drop_last().take(count) == steps.take(count));
    }
}

/// The visit of number `index` found the list as the visits before it left it.
proof fn lemma_chain_visit<A>(steps: Seq<Visit<A>>, start: Seq<A>, index: int)
    requires
        is_chain(steps, start),
        0 <= index < steps.len(),
    ensures
        steps[index].before == state_after(steps.take(index), start).0,
        steps[index].position == state_after(steps.take(index), start).1,
        0 <= steps[index].position < steps[index].before.len(),
{
    lemma_chain_prefix(steps, start, index + 1);
    assert(steps.take(index + 1).drop_last() == steps.take(index));
}

/// A splice is what stood before the position, then the run, then what stood after the
/// visited item.
proof fn lemma_splice_parts<A>(visit: Visit<A>)
    requires
        visit.is_splice(),
    ensures
        visit.after == visit.before.take(visit.position) + visit.run() + visit.before.skip(
            visit.position + 1,
        ),
        visit.run().len() == visit.stride,
{
    assert(visit.after =~= visit.after.take(visit.position) + visit.run() + visit.after.skip(
        visit.position + visit.stride,
    ));
}

/// Prior edits stay and later items wait untouched: however far a walk of splices has
/// come, the list is what the visits have written, followed by the items not yet visited,
/// and the position is just past what was written. This holds of a walk that was halted
/// as of one that ran to the end.
pub proof fn lemma_walk_so_far<A>(steps: Seq<Visit<A>>, start: Seq<A>)
    requires
        is_chain(steps, start),
        are_splices(steps),
    ensures
        steps.len() <= start.len(),
        state_after(steps, start).0 == written(steps) + start.skip(steps.len() as int),
        state_after(steps, start).1 == written(steps).len(),
    decreases steps.len(),
{
    if steps.len() > 0 {
        let earlier = steps.drop_last();
        let last = steps.last();
        assert(are_splices(earlier)) by {
            assert forall|k: int| 0 <= k < earlier.len() implies (#[trigger] earlier[k]).is_splice() by {
                assert(earlier[k] == steps[k]);
            }
        }
        lemma_walk_so_far(earlier, start);
        // The last visit stood just past what the earlier ones wrote, at the first item
        // not yet visited, and put its run there.
        assert(last.before == written(earlier) + start.skip(earlier.len() as int));
        assert(last.is_splice());
        lemma_splice_parts(last);
    }
}

/// Each item is visited exactly once, and nothing else is: a walk of splices makes as many
/// visits as the list had items at the start, the visit of number `k` stands at the item
/// that was at `k` then, with the later items still behind it, and the list ends as what
/// the visits wrote. So no item is skipped or seen again, and no inserted item is visited.
pub proof fn lemma_each_item_visited_once<A>(steps: Seq<Visit<A>>, start: Seq<A>, end: Seq<A>)
    requires
        is_walk(steps, start, end),
        are_splices(steps),
    ensures
        steps.len() == start.len(),
        forall|k: int|
            0 <= k < steps.len() ==> {
                &&& (#[trigger] steps[k]).item() == start[k]
                &&& steps[k].before.skip(steps[k].position) == start.skip(k)
            },
        end == written(steps),
{
    lemma_walk_so_far(steps, start);
    assert forall|k: int| 0 <= k < steps.len() implies {
        &&& (#[trigger] steps[k]).item() == start[k]
        &&& steps[k].before.skip(steps[k].position) == start.skip(k)
    } by {
        let first = steps.take(k);
        lemma_chain_prefix(steps, start, k);
        lemma_chain_visit(steps, start, k);
        assert(are_splices(first)) by {
            assert forall|j: int| 0 <= j < first.len() implies (#[trigger] first[j]).is_splice() by {
                assert(first[j] == steps[j]);
            }
        }
        lemma_walk_so_far(first, start);
        assert(steps[k].before == written(first) + start.skip(k));
    }
}

/// A walk that edits nothing leaves the list unchanged, and visits each of its positions
/// exactly once, in order.
pub proof fn lemma_walk_without_edits<A>(steps: Seq<Visit<A>>, start: Seq<A>, end: Seq<A>)
    requires
        is_walk(steps, start, end),
        forall|k: int| 0 <= k < steps.len() ==> (#[trigger] steps[k]).is_untouched(),
    ensures
        end == start,
        steps.len() == start.len(),
        forall|k: int| 0 <= k < steps.len() ==> (#[trigger] steps[k]).position == k,
{
    assert forall|k: int| 0 <= k < steps.len() implies (#[trigger] steps[k]).position == k by {
        let first = steps.take(k);
        lemma_chain_prefix(steps, start, k);
        lemma_chain_visit(steps, start, k);
        assert forall|j: int| 0 <= j < first.len() implies (#[trigger] first[j]).is_untouched() by {
            assert(first[j] == steps[j]);
        }
        lemma_untouched_so_far(first, start);
    }
    lemma_untouched_so_far(steps, start);
}

/// After visits that edit nothing the list is as it was, and the position is their number.
proof fn lemma_untouched_so_far<A>(steps: Seq<Visit<A>>, start: Seq<A>)
    requires
        is_chain(steps, start),
        forall|k: int| 0 <= k < steps.len() ==> (#[trigger] steps[k]).is_untouched(),
    ensures
        steps.len() <= start.len(),
        state_after(steps, start) == (start, steps.len() as int),
    decreases steps.len(),
{
    if steps.len() > 0 {
        let earlier = steps.drop_last();
        assert forall|k: int| 0 <= k < earlier.len() implies (#[trigger] earlier[k]).is_untouched() by {
            assert(earlier[k] == steps[k]);
        }
        lemma_untouched_so_far(earlier, start);
        assert(steps.last().is_untouched());
    }
}

/// Removing where a predicate holds leaves exactly the items of which it does not hold: a
/// walk that touches nothing where `keep` holds, and removes every other item, ends with
/// the items of which `keep` holds, in their order, and with as many as there were of them.
pub proof fn lemma_walk_removing<A>(
    steps: Seq<Visit<A>>,
    start: Seq<A>,
    end: Seq<A>,
    keep: spec_fn(A) -> bool,
)
    requires
        is_walk(steps, start, end),
        forall|k: int| 0 <= k < steps.len() ==> (#[trigger] steps[k]).keeps_if(keep),
    ensures
        end == start.filter(keep),
        end.len() == start.filter(keep).len(),
        steps.len() == start.len(),
{
    lemma_removing_so_far(steps, start, keep);
    assert(start.take(steps.len() as int) =~= start);
}

/// After visits that remove where `keep` does not hold, the items visited have been
/// filtered and the others wait untouched.
proof fn lemma_removing_so_far<A>(steps: Seq<Visit<A>>, start: Seq<A>, keep: spec_fn(A) -> bool)
    requires
        is_chain(steps, start),
        forall|k: int| 0 <= k < steps.len() ==> (#[trigger] steps[k]).keeps_if(keep),
    ensures
        steps.len() <= start.len(),
        state_after(steps, start).0 == start.take(steps.len() as int).filter(keep) + start.skip(
            steps.len() as int,
        ),
        state_after(steps, start).1 == start.take(steps.len() as int).filter(keep).len(),
    decreases steps.len(),
{
    if steps.len() == 0 {
        assert(start.take(0).filter(keep) =~= Seq::empty()) by {
            reveal(Seq::filter);
        }
    } else {
        let count = steps.len() - 1;
        let earlier = steps.drop_last();
        let last = steps.last();
        assert forall|k: int| 0 <= k < earlier.len() implies (#[trigger] earlier[k]).keeps_if(
            keep,
        ) by {
            assert(earlier[k] == steps[k]);
        }
        lemma_removing_so_far(earlier, start, keep);
        // The last visit stood at the first item not yet visited, and kept or removed it
        // as filtering one item more does.
        let kept = start.take(count).filter(keep);
        assert(last.before == kept + start.skip(count));
        assert(last.item() == start[count]);
        assert(last.keeps_if(keep));
        assert(start.take(count + 1).filter(keep) == if keep(start[count]) {
            kept.push(start[count])
        } else {
            kept
        }) by {
            assert(start.take(count + 1) =~= start.take(count).push(start[count]));
            start.take(count).lemma_filter_push(start[count], keep);
        }
        if keep(start[count]) {
            assert(last.after =~= kept.push(start[count]) + start.skip(count + 1));
        } else {
            assert(last.after =~= kept + start.skip(count + 1));
        }
    }
}

/// Replacing the item at a position by a run is a splice there, and its run is that run.
pub proof fn lemma_splice_is_splice<A>(before: Seq<A>, index: int, mid: Seq<A>)
    requires
        0 <= index < before.len(),
    ensures
        (Visit { before, position: index, after: splice(before, index, mid), stride: mid.len() })
            .is_splice(),
        (Visit { before, position: index, after: splice(before, index, mid), stride: mid.len() })
            .run() == mid,
{
    let after = splice(before, index, mid);
    assert(after.take(index) =~= before.take(index));
    assert(after.skip(index + mid.len()) =~= before.skip(index + 1));
}

/// Inserting before an item replaces it by the inserted items followed by itself.
pub proof fn lemma_insert_before_is_splice<A>(before: Seq<A>, index: int, more: Seq<A>)
    requires
        0 <= index < before.len(),
    ensures
        before.take(index) + more + before.skip(index) == splice(
            before,
            index,
            more.push(before[index]),
        ),
{
    assert(before.take(index) + more + before.skip(index) =~= splice(
        before,
        index,
        more.push(before[index]),
    ));
}

/// Inserting after an item replaces it by itself followed by the inserted items.
pub proof fn lemma_insert_after_is_splice<A>(before: Seq<A>, index: int, more: Seq<A>)
    requires
        0 <= index < before.len(),
    ensures
        before.take(index + 1) + more + before.skip(index + 1) == splice(
            before,
            index,
            seq![before[index]] + more,
        ),
{
    assert(before.take(index + 1) + more + before.skip(index + 1) =~= splice(
        before,
        index,
        seq![before[index]] + more,
    ));
}

/// Replacing an item with no items is removing it.
pub proof fn lemma_replace_with_nothing_removes<A>(items: Seq<A>, index: int)
    requires
        0 <= index < items.len(),
    ensures
        splice(items, index, Seq::empty()) == items.remove(index),
{
    assert(splice(items, index, Seq::empty()) =~= items.remove(index));
}

} // verus!
