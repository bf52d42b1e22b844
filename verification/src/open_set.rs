//! The frontier of the path search: a double-ended priority queue of cells
//! from the `priority-queue` crate, seen through the map from each queued
//! cell to its priority.

use vstd::prelude::*;
use priority_queue::DoublePriorityQueue;
use std::collections::hash_map::RandomState;
use crate::navigation::Cell;

verus! {

#[verifier::external_type_specification]
#[verifier::external_body]
#[verifier::reject_recursive_types(I)]
#[verifier::reject_recursive_types(P)]
#[verifier::reject_recursive_types(H)]
pub struct ExDoublePriorityQueue<I, P, H>(DoublePriorityQueue<I, P, H>);

/// The frontier's type: cells keyed by a `u128` priority.
pub type OpenSet = DoublePriorityQueue<Cell, u128, RandomState>;

/// The queued cells, each with its priority.
pub uninterp spec fn queued(q: OpenSet) -> Map<Cell, u128>;

/// `DoublePriorityQueue::new`: an empty queue.
#[verifier::external_body]
pub(crate) fn queue_new() -> (fresh: OpenSet)
    ensures
        queued(fresh).dom().is_empty(),
{
    DoublePriorityQueue::new()
}

/// `DoublePriorityQueue::push`: queues `item` with `priority`; an item that
/// is already queued keeps its place in the map and takes the new priority.
#[verifier::external_body]
pub(crate) fn queue_push(q: &mut OpenSet, item: Cell, priority: u128)
    ensures
        queued(*final(q)) == queued(*old(q)).insert(item, priority),
{
    q.push(item, priority);
}

/// `DoublePriorityQueue::pop_max`: removes and returns a queued item of the
/// greatest priority, or `None` when the queue is empty. Which of several
/// items of equal priority comes out is left open by the crate.
#[verifier::external_body]
pub(crate) fn queue_pop_max(q: &mut OpenSet) -> (r: Option<(Cell, u128)>)
    ensures
        match r {
            None => queued(*old(q)).is_empty() && queued(*final(q)) == queued(*old(q)),
            Some((item, p)) => {
                &&& queued(*old(q)).contains_key(item)
                &&& queued(*old(q))[item] == p
                &&& forall|other: Cell| #[trigger] queued(*old(q)).contains_key(other) ==> queued(*old(q))[other] <= p
                &&& queued(*final(q)) == queued(*old(q)).remove(item)
            },
        },
{
    q.pop_max()
}

} // verus!
