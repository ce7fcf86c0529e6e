//! The bounded single-producer/single-consumer command queue between the
//! USB interrupt context and the scan task.
//!
//! The ring itself comes from the `heapless` crate; this module gives its
//! contents a name and puts contracts on the three operations the firmware
//! uses.  The backing ring holds one spare element, so a ring of size 9
//! carries the eight commands the control channel may buffer.

use vstd::prelude::*;

use crate::packets::AppCommand;

verus! {

/// How many commands the queue can hold.
pub const QUEUE_CAPACITY: usize = 8;

#[verifier::external_type_specification]
#[verifier::external_body]
#[verifier::reject_recursive_types(T)]
pub struct ExSpscQueue<T, const N: usize>(heapless::spsc::Queue<T, N>);

/// The commands the queue holds, oldest first.
pub uninterp spec fn queue_items(q: heapless::spsc::Queue<AppCommand, 9>) -> Seq<AppCommand>;

/// Relies on `heapless::spsc::Queue::new`: creates an empty queue.
#[verifier::external_body]
pub fn queue_new() -> (q: heapless::spsc::Queue<AppCommand, 9>)
    ensures
        queue_items(q) == Seq::<AppCommand>::empty(),
{
    heapless::spsc::Queue::new()
}

/// Relies on `heapless::spsc::Queue::enqueue`: appends the command at the
/// back when fewer than N-1 items are held, and hands it back untouched
/// when the ring is full.
#[verifier::external_body]
pub fn queue_enqueue(q: &mut heapless::spsc::Queue<AppCommand, 9>, cmd: AppCommand) -> (r: Result<
    (),
    AppCommand,
>)
    ensures
        queue_items(*old(q)).len() < QUEUE_CAPACITY ==> (r is Ok && queue_items(*final(q))
            == queue_items(*old(q)).push(cmd)),
        queue_items(*old(q)).len() >= QUEUE_CAPACITY ==> (r == Err::<(), AppCommand>(cmd)
            && queue_items(*final(q)) == queue_items(*old(q))),
{
    q.enqueue(cmd)
}

/// Relies on `heapless::spsc::Queue::dequeue`: removes and returns the
/// oldest command, if any.
#[verifier::external_body]
pub fn queue_dequeue(q: &mut heapless::spsc::Queue<AppCommand, 9>) -> (r: Option<AppCommand>)
    ensures
        queue_items(*old(q)).len() == 0 ==> (r is None && queue_items(*final(q)) == queue_items(
            *old(q),
        )),
        queue_items(*old(q)).len() > 0 ==> (r == Some(queue_items(*old(q))[0]) && queue_items(
            *final(q),
        ) == queue_items(*old(q)).drop_first()),
{
    q.dequeue()
}

} // verus!
