use vstd::prelude::*;

use crate::events::Event;

verus! {

/// A broadcast channel of events with a bounded backlog. Every published
/// event gets the next sequence number; the last `capacity` of them are kept.
/// A subscriber that falls further behind is told how many it missed, and
/// publishing never waits for a subscriber.
pub struct EventBus {
    capacity: usize,
    next_seq: u64,
    backlog: Vec<Event>,
    closed: bool,
    log: Ghost<Seq<Event>>,
}

/// The read position of one subscriber: the sequence number of the next
/// event it is to receive.
#[derive(Debug, Clone, Copy, PartialEq, Eq, Structural)]
pub struct Subscription {
    pub next: u64,
}

/// What one receive on a subscription gives.
pub enum RecvOutcome<'a> {
    /// The event with sequence number `seq`.
    Delivered { seq: u64, event: &'a Event },
    /// `missed` events were dropped before this subscriber read them; it
    /// goes on from the oldest one still kept.
    Lagged { missed: u64 },
    /// Nothing new has been published.
    Empty,
    /// The bus is closed and this subscriber has read all it kept.
    Closed,
}

/// The bus is closed: nothing more can be published.
#[derive(Debug, Clone, Copy, PartialEq, Eq, Structural)]
pub struct BusClosed;

/// The sequence number a receive delivered, if it delivered one.
pub open spec fn delivered_seq(o: RecvOutcome) -> Option<u64> {
    match o {
        RecvOutcome::Delivered { seq, .. } => Some(seq),
        _ => None,
    }
}

/// How one receive moves a subscriber's position from `before` to `after`.
pub open spec fn cursor_step(before: u64, after: u64, delivered: Option<u64>) -> bool {
    &&& before <= after
    &&& delivered matches Some(s) ==> s == before && after == before + 1
}

impl EventBus {
    /// Every event published so far, in order; the event with sequence
    /// number `i` is `log()[i]`.
    pub closed spec fn log(&self) -> Seq<Event> {
        self.log@
    }

    pub closed spec fn capacity_spec(&self) -> nat {
        self.capacity as nat
    }

    pub closed spec fn is_closed_spec(&self) -> bool {
        self.closed
    }

    /// The number of events published so far.
    pub open spec fn published(&self) -> nat {
        self.log().len()
    }

    /// The sequence number of the oldest event still kept.
    pub open spec fn first_kept(&self) -> nat {
        if self.published() >= self.capacity_spec() {
            (self.published() - self.capacity_spec()) as nat
        } else {
            0
        }
    }

    pub closed spec fn wf(&self) -> bool {
        &&& self.capacity > 0
        &&& self.log@.len() == self.next_seq
        &&& self.backlog@.len() <= self.capacity
        &&& self.backlog@.len() == self.next_seq - self.first_kept()
        &&& self.backlog@ == self.log@.subrange(self.first_kept() as int, self.next_seq as int)
    }

    /// An open bus with nothing published that keeps the last `capacity` events.
    pub fn new(capacity: usize) -> (r: Self)
        requires
            capacity > 0,
        ensures
            r.wf(),
            r.log() == Seq::<Event>::empty(),
            r.capacity_spec() == capacity,
            !r.is_closed_spec(),
    {
        let r = EventBus {
            capacity,
            next_seq: 0,
            backlog: Vec::new(),
            closed: false,
            log: Ghost(Seq::empty()),
        };
        proof {
            assert(r.backlog@ =~= r.log@.subrange(0, 0));
        }
        r
    }

    pub fn capacity(&self) -> (r: usize)
        ensures
            r == self.capacity_spec(),
    {
        self.capacity
    }

    pub fn is_closed(&self) -> (r: bool)
        ensures
            r == self.is_closed_spec(),
    {
        self.closed
    }

    /// The number of events published so far.
    pub fn published_count(&self) -> (r: u64)
        requires
            self.wf(),
        ensures
            r == self.published(),
    {
        self.next_seq
    }

    /// A new subscriber, which receives the events published from now on
    /// and none before.
    pub fn subscribe(&self) -> (r: Subscription)
        requires
            self.wf(),
        ensures
            r.next == self.published(),
    {
        Subscription { next: self.next_seq }
    }

    /// Ends publication; subscribers receive what is kept, then `Closed`.
    pub fn close(&mut self)
        ensures
            final(self).is_closed_spec(),
            final(self).log() == old(self).log(),
            final(self).capacity_spec() == old(self).capacity_spec(),
            old(self).wf() ==> final(self).wf(),
    {
        self.closed = true;
    }

    /// Appends `event` to the log under the next sequence number, dropping
    /// the oldest kept event when the backlog is full.
    pub fn publish(&mut self, event: Event) -> (r: Result<u64, BusClosed>)
        requires
            old(self).wf(),
            old(self).published() < u64::MAX,
        ensures
            final(self).wf(),
            final(self).capacity_spec() == old(self).capacity_spec(),
            final(self).is_closed_spec() == old(self).is_closed_spec(),
            r is Err <==> old(self).is_closed_spec(),
            r is Err ==> final(self).log() == old(self).log(),
            r matches Ok(seq) ==> seq == old(self).published()
                && final(self).log() == old(self).log().push(event),
    {
        if self.closed {
            return Err(BusClosed);
        }
        let seq = self.next_seq;
        let ghost old_log = self.log@;
        let ghost old_backlog = self.backlog@;
        let ghost old_first = self.first_kept();
        if self.backlog.len() == self.capacity {
            self.backlog.remove(0);
        }
        self.backlog.push(event);
        self.next_seq = seq + 1;
        self.log = Ghost(old_log.push(event));
        proof {
            let first = self.first_kept();
            assert(self.backlog@ =~= self.log@.subrange(first as int, self.next_seq as int)) by {
                assert(old_backlog =~= old_log.subrange(old_first as int, seq as int));
                if old_backlog.len() == self.capacity {
                    assert(first == old_first + 1);
                } else {
                    assert(first == old_first);
                }
            }
        }
        Ok(seq)
    }

    /// Receives on `sub`: the next event it has not read, or word that it
    /// lagged behind the backlog, or that nothing new is there.
    pub fn recv<'a>(&'a self, sub: &mut Subscription) -> (r: RecvOutcome<'a>)
        requires
            self.wf(),
            old(sub).next <= self.published(),
        ensures
            final(sub).next <= self.published(),
            cursor_step(old(sub).next, final(sub).next, delivered_seq(r)),
            old(sub).next < self.first_kept() <==> r is Lagged,
            r matches RecvOutcome::Lagged { missed } ==> missed == self.first_kept() - old(sub).next
                && final(sub).next == self.first_kept(),
            self.first_kept() <= old(sub).next < self.published() <==> r is Delivered,
            r matches RecvOutcome::Delivered { seq, event } ==> *event == self.log()[seq as int],
            r is Empty <==> old(sub).next == self.published() && !self.is_closed_spec(),
            r is Closed <==> old(sub).next == self.published() && self.is_closed_spec(),
    {
        let first: u64 = self.next_seq - self.backlog.len() as u64;
        if sub.next < first {
            let missed = first - sub.next;
            sub.next = first;
            RecvOutcome::Lagged { missed }
        } else if sub.next < self.next_seq {
            let seq = sub.next;
            let i = (seq - first) as usize;
            sub.next = seq + 1;
            RecvOutcome::Delivered { seq, event: &self.backlog[i] }
        } else if self.closed {
            RecvOutcome::Closed
        } else {
            RecvOutcome::Empty
        }
    }
}

/// On one subscription, positions never go back over a run of receives.
proof fn lemma_cursor_monotone(cursors: Seq<u64>, delivered: Seq<Option<u64>>, i: int, j: int)
    requires
        cursors.len() == delivered.len() + 1,
        forall|k: int| 0 <= k < delivered.len() ==> cursor_step(cursors[k], cursors[k + 1], #[trigger] delivered[k]),
        0 <= i <= j < cursors.len(),
    ensures
        cursors[i] <= cursors[j],
    decreases j - i,
{
    if i < j {
        lemma_cursor_monotone(cursors, delivered, i, j - 1);
        let k = j - 1;
        assert(cursor_step(cursors[k], cursors[k + 1], delivered[k]));
    }
}

/// In a run of receives on one subscription, whatever the publications in
/// between: the events delivered come in publication order, none of them
/// twice, and none published before the position the run started from (for
/// a fresh subscription, the number of events published before it was made).
pub proof fn lemma_delivery_in_order(cursors: Seq<u64>, delivered: Seq<Option<u64>>)
    requires
        cursors.len() == delivered.len() + 1,
        forall|k: int| 0 <= k < delivered.len() ==> cursor_step(cursors[k], cursors[k + 1], #[trigger] delivered[k]),
    ensures
        forall|k: int| 0 <= k < delivered.len() && #[trigger] delivered[k] is Some ==> delivered[k]->0 >= cursors[0],
        forall|a: int, b: int|
            0 <= a < b < delivered.len() && #[trigger] delivered[a] is Some && #[trigger] delivered[b] is Some
                ==> delivered[a]->0 < delivered[b]->0,
{
    assert forall|k: int| 0 <= k < delivered.len() && #[trigger] delivered[k] is Some implies delivered[k]->0 >= cursors[0] by {
        lemma_cursor_monotone(cursors, delivered, 0, k);
        assert(cursor_step(cursors[k], cursors[k + 1], delivered[k]));
    }
    assert forall|a: int, b: int|
        0 <= a < b < delivered.len() && #[trigger] delivered[a] is Some && #[trigger] delivered[b] is Some
            implies delivered[a]->0 < delivered[b]->0 by {
        assert(cursor_step(cursors[a], cursors[a + 1], delivered[a]));
        assert(cursor_step(cursors[b], cursors[b + 1], delivered[b]));
        lemma_cursor_monotone(cursors, delivered, a + 1, b);
    }
}

/// A subscriber that more than `capacity` events have passed by since its
/// position is behind the backlog: its next receive reports a lag, and it
/// goes on strictly after the events that were dropped.
pub proof fn lemma_stalled_subscriber_lags(bus: EventBus, position: u64)
    requires
        bus.wf(),
        position <= bus.published(),
        bus.published() - position > bus.capacity_spec(),
    ensures
        position < bus.first_kept(),
{
}

} // verus!
