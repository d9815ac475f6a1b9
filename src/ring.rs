use vstd::prelude::*;

use crate::events::Event;
use crate::monitor::MonitorReport;
use ringbuffer::{AllocRingBuffer, RingBuffer};

verus! {

#[verifier::external_type_specification]
#[verifier::external_body]
#[verifier::reject_recursive_types(T)]
pub struct ExAllocRingBuffer<T>(AllocRingBuffer<T>);

/// The events a ring holds, oldest first.
pub uninterp spec fn event_ring_items(r: AllocRingBuffer<Event>) -> Seq<Event>;

/// The number of events a ring holds at most.
pub uninterp spec fn event_ring_capacity(r: AllocRingBuffer<Event>) -> nat;

/// The reports a ring holds, oldest first.
pub uninterp spec fn report_ring_items(r: AllocRingBuffer<MonitorReport>) -> Seq<MonitorReport>;

/// The number of reports a ring holds at most.
pub uninterp spec fn report_ring_capacity(r: AllocRingBuffer<MonitorReport>) -> nat;

/// What a ring of capacity `cap` holds after `x` is pushed onto `items`:
/// at capacity the oldest item leaves.
pub open spec fn ring_push<T>(items: Seq<T>, cap: nat, x: T) -> Seq<T> {
    if items.len() >= cap {
        items.drop_first().push(x)
    } else {
        items.push(x)
    }
}

/// Relies on ringbuffer's `AllocRingBuffer::new`: an empty ring of the
/// given capacity (it panics on zero).
#[verifier::external_body]
pub(crate) fn new_event_ring(capacity: usize) -> (r: AllocRingBuffer<Event>)
    requires
        0 < capacity <= 65536,
    ensures
        event_ring_items(r) == Seq::<Event>::empty(),
        event_ring_capacity(r) == capacity,
{
    AllocRingBuffer::new(capacity)
}

/// Relies on ringbuffer's `RingBuffer::enqueue` for `AllocRingBuffer`: the
/// value goes last, and the oldest one leaves when the ring is full.
#[verifier::external_body]
pub(crate) fn push_event(ring: &mut AllocRingBuffer<Event>, event: Event)
    requires
        event_ring_items(*old(ring)).len() <= event_ring_capacity(*old(ring)),
    ensures
        event_ring_capacity(*final(ring)) == event_ring_capacity(*old(ring)),
        event_ring_items(*final(ring)) == ring_push(event_ring_items(*old(ring)), event_ring_capacity(*old(ring)), event),
{
    let _ = ring.enqueue(event);
}

/// Relies on ringbuffer's `RingBuffer::get`: below the length, index 0 is
/// the oldest item.
#[verifier::external_body]
pub(crate) fn event_ring_get(ring: &AllocRingBuffer<Event>, index: usize) -> (r: &Event)
    requires
        index < event_ring_items(*ring).len(),
    ensures
        *r == event_ring_items(*ring)[index as int],
{
    ring.get(index).unwrap()
}

/// Relies on ringbuffer's `RingBuffer::len`: the number of events held.
#[verifier::external_body]
pub(crate) fn event_ring_len(ring: &AllocRingBuffer<Event>) -> (r: usize)
    ensures
        r == event_ring_items(*ring).len(),
{
    ring.len()
}

/// Relies on ringbuffer's `AllocRingBuffer::new`: an empty ring of the
/// given capacity (it panics on zero).
#[verifier::external_body]
pub(crate) fn new_report_ring(capacity: usize) -> (r: AllocRingBuffer<MonitorReport>)
    requires
        0 < capacity <= 65536,
    ensures
        report_ring_items(r) == Seq::<MonitorReport>::empty(),
        report_ring_capacity(r) == capacity,
{
    AllocRingBuffer::new(capacity)
}

/// Relies on ringbuffer's `RingBuffer::enqueue` for `AllocRingBuffer`: the
/// value goes last, and the oldest one leaves when the ring is full.
#[verifier::external_body]
pub(crate) fn push_report(ring: &mut AllocRingBuffer<MonitorReport>, report: MonitorReport)
    requires
        report_ring_items(*old(ring)).len() <= report_ring_capacity(*old(ring)),
    ensures
        report_ring_capacity(*final(ring)) == report_ring_capacity(*old(ring)),
        report_ring_items(*final(ring)) == ring_push(report_ring_items(*old(ring)), report_ring_capacity(*old(ring)), report),
{
    let _ = ring.enqueue(report);
}

/// Relies on ringbuffer's `RingBuffer::get`: below the length, index 0 is
/// the oldest item.
#[verifier::external_body]
pub(crate) fn report_ring_get(ring: &AllocRingBuffer<MonitorReport>, index: usize) -> (r: MonitorReport)
    requires
        index < report_ring_items(*ring).len(),
    ensures
        r == report_ring_items(*ring)[index as int],
{
    *ring.get(index).unwrap()
}

/// Relies on ringbuffer's `RingBuffer::len`: the number of reports held.
#[verifier::external_body]
pub(crate) fn report_ring_len(ring: &AllocRingBuffer<MonitorReport>) -> (r: usize)
    ensures
        r == report_ring_items(*ring).len(),
{
    ring.len()
}

} // verus!
