//! The snake's tail is kept in heapless's single-producer single-consumer
//! queue. These items state what the queue's operations do to the sequence of
//! cells that it holds, oldest first.
use vstd::prelude::*;

use heapless::spsc::Queue;

use crate::cell::Cell;

verus! {

/// Number of slots of the tail's queue; it holds one cell fewer than that.
pub const TAIL_SLOTS: usize = 33;

/// Greatest number of cells that the tail's queue can hold.
pub const TAIL_CAPACITY: usize = 32;

#[verifier::external_type_specification]
#[verifier::external_body]
#[verifier::reject_recursive_types(T)]
pub struct ExQueue<T, const N: usize>(Queue<T, N>);

/// The cells that a tail queue holds, from the front (oldest) to the back.
pub uninterp spec fn queue_cells(q: Queue<Cell, TAIL_SLOTS>) -> Seq<Cell>;

/// Relies on heapless's `Queue::new`: a new queue is empty.
#[verifier::external_body]
pub(crate) fn queue_new() -> (q: Queue<Cell, TAIL_SLOTS>)
    ensures
        queue_cells(q) == Seq::<Cell>::empty(),
{
    Queue::new()
}

/// Relies on heapless's `Queue::enqueue`: the cell goes to the back, unless
/// the queue already holds its capacity of `N - 1` cells, in which case the
/// cell is handed back and the queue is left as it was.
#[verifier::external_body]
pub(crate) fn queue_enqueue(q: &mut Queue<Cell, TAIL_SLOTS>, c: Cell) -> (r: Result<(), Cell>)
    ensures
        queue_cells(*old(q)).len() < TAIL_CAPACITY ==> r is Ok
            && queue_cells(*final(q)) == queue_cells(*old(q)).push(c),
        queue_cells(*old(q)).len() >= TAIL_CAPACITY ==> r is Err && r->Err_0 == c
            && queue_cells(*final(q)) == queue_cells(*old(q)),
{
    q.enqueue(c)
}

/// Relies on heapless's `Queue::dequeue`: takes the front cell out, if any.
#[verifier::external_body]
pub(crate) fn queue_dequeue(q: &mut Queue<Cell, TAIL_SLOTS>) -> (r: Option<Cell>)
    ensures
        queue_cells(*old(q)).len() == 0 ==> r is None
            && queue_cells(*final(q)) == queue_cells(*old(q)),
        queue_cells(*old(q)).len() > 0 ==> r == Some(queue_cells(*old(q))[0])
            && queue_cells(*final(q)) == queue_cells(*old(q)).drop_first(),
{
    q.dequeue()
}

/// Relies on heapless's `Queue::iter`: it walks the cells from the front to
/// the back.
#[verifier::external_body]
pub(crate) fn queue_to_vec(q: &Queue<Cell, TAIL_SLOTS>) -> (v: Vec<Cell>)
    ensures
        v@ == queue_cells(*q),
{
    q.iter().copied().collect()
}

} // verus!
