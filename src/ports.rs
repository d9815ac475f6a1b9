use vstd::prelude::*;

verus! {

/// Why a port could not be handed out or claimed.
#[derive(Debug, Clone, Copy, PartialEq, Eq, Structural)]
pub enum PortError {
    /// Every port of the allocator's range is claimed.
    NoAvailablePort,
    /// The port asked for is claimed already.
    PortAlreadyInUse,
}

/// The ports claimed by running or configured instances, and the range
/// `[range_start, range_end)` from which new ports are handed out.
pub struct PortAllocator {
    range_start: u32,
    range_end: u32,
    claimed: Vec<u32>,
}

impl View for PortAllocator {
    type V = Set<u32>;

    closed spec fn view(&self) -> Set<u32> {
        self.claimed@.to_set()
    }
}

/// The least port of `[lo, hi)` that `claimed` does not hold, if any.
pub open spec fn is_lowest_free(claimed: Set<u32>, lo: u32, hi: u32, p: u32) -> bool {
    &&& lo <= p < hi
    &&& !claimed.contains(p)
    &&& forall|q: u32| lo <= q < p ==> #[trigger] claimed.contains(q)
}

/// Every port of `[lo, hi)` is claimed.
pub open spec fn range_exhausted(claimed: Set<u32>, lo: u32, hi: u32) -> bool {
    forall|q: u32| lo <= q < hi ==> #[trigger] claimed.contains(q)
}

impl PortAllocator {
    pub closed spec fn range_start_spec(&self) -> u32 {
        self.range_start
    }

    pub closed spec fn range_end_spec(&self) -> u32 {
        self.range_end
    }

    /// An allocator over `[range_start, range_end)` with no port claimed.
    pub fn new(range_start: u32, range_end: u32) -> (r: Self)
        ensures
            r@ == Set::<u32>::empty(),
            r.range_start_spec() == range_start,
            r.range_end_spec() == range_end,
    {
        let r = PortAllocator { range_start, range_end, claimed: Vec::new() };
        proof {
            assert(r.claimed@.to_set() =~= Set::<u32>::empty());
        }
        r
    }

    /// An allocator over `[range_start, range_end)` that starts out with
    /// every port of `ports` claimed (a port may be listed more than once).
    pub fn with_claimed(range_start: u32, range_end: u32, ports: &Vec<u32>) -> (r: Self)
        ensures
            r@ == ports@.to_set(),
            r.range_start_spec() == range_start,
            r.range_end_spec() == range_end,
    {
        let mut r = PortAllocator::new(range_start, range_end);
        let mut i: usize = 0;
        while i < ports.len()
            invariant
                i <= ports.len(),
                r@ == ports@.subrange(0, i as int).to_set(),
                r.range_start_spec() == range_start,
                r.range_end_spec() == range_end,
            decreases ports.len() - i,
        {
            let p = ports[i];
            if !r.is_claimed(p) {
                r.claim(p);
            }
            proof {
                assert(ports@.subrange(0, i + 1) =~= ports@.subrange(0, i as int).push(p));
                ports@.subrange(0, i as int).lemma_push_to_set_commute(p);
            }
            i = i + 1;
        }
        proof {
            assert(ports@.subrange(0, ports@.len() as int) =~= ports@);
        }
        r
    }

    pub fn range_start(&self) -> (r: u32)
        ensures
            r == self.range_start_spec(),
    {
        self.range_start
    }

    pub fn range_end(&self) -> (r: u32)
        ensures
            r == self.range_end_spec(),
    {
        self.range_end
    }

    /// Whether `port` is claimed.
    pub fn is_claimed(&self, port: u32) -> (r: bool)
        ensures
            r == self@.contains(port),
    {
        let mut i: usize = 0;
        while i < self.claimed.len()
            invariant
                i <= self.claimed.len(),
                forall|j: int| 0 <= j < i ==> self.claimed@[j] != port,
            decreases self.claimed.len() - i,
        {
            if self.claimed[i] == port {
                proof {
                    assert(self.claimed@.to_set().contains(port)) by {
                        assert(self.claimed@.contains(port));
                    }
                }
                return true;
            }
            i = i + 1;
        }
        false
    }

    fn claim(&mut self, port: u32)
        ensures
            final(self)@ == old(self)@.insert(port),
            final(self).range_start == old(self).range_start,
            final(self).range_end == old(self).range_end,
    {
        self.claimed.push(port);
        proof {
            old(self).claimed@.lemma_push_to_set_commute(port);
        }
    }

    /// Hands out the lowest unclaimed port of the range and claims it.
    pub fn allocate(&mut self) -> (r: Result<u32, PortError>)
        ensures
            final(self).range_start_spec() == old(self).range_start_spec(),
            final(self).range_end_spec() == old(self).range_end_spec(),
            match r {
                Ok(p) => {
                    &&& is_lowest_free(old(self)@, old(self).range_start_spec(), old(self).range_end_spec(), p)
                    &&& final(self)@ == old(self)@.insert(p)
                },
                Err(e) => {
                    &&& e == PortError::NoAvailablePort
                    &&& range_exhausted(old(self)@, old(self).range_start_spec(), old(self).range_end_spec())
                    &&& final(self)@ == old(self)@
                },
            },
    {
        let mut p: u32 = self.range_start;
        while p < self.range_end
            invariant
                self.range_start == old(self).range_start,
                self.range_end == old(self).range_end,
                self@ == old(self)@,
                p >= self.range_start,
                forall|q: u32| self.range_start <= q < p ==> #[trigger] self@.contains(q),
            decreases self.range_end - p,
        {
            if !self.is_claimed(p) {
                self.claim(p);
                return Ok(p);
            }
            p = p + 1;
        }
        Err(PortError::NoAvailablePort)
    }

    /// Claims `port`, which must not be claimed already.
    pub fn reserve(&mut self, port: u32) -> (r: Result<(), PortError>)
        ensures
            final(self).range_start_spec() == old(self).range_start_spec(),
            final(self).range_end_spec() == old(self).range_end_spec(),
            r is Ok <==> !old(self)@.contains(port),
            r is Ok ==> final(self)@ == old(self)@.insert(port),
            r matches Err(e) ==> e == PortError::PortAlreadyInUse && final(self)@ == old(self)@,
    {
        if self.is_claimed(port) {
            Err(PortError::PortAlreadyInUse)
        } else {
            self.claim(port);
            Ok(())
        }
    }

    /// Gives `port` back; releasing a port that is not claimed changes nothing.
    pub fn release(&mut self, port: u32)
        ensures
            final(self)@ == old(self)@.remove(port),
            final(self).range_start_spec() == old(self).range_start_spec(),
            final(self).range_end_spec() == old(self).range_end_spec(),
    {
        let mut kept: Vec<u32> = Vec::new();
        let mut i: usize = 0;
        while i < self.claimed.len()
            invariant
                i <= self.claimed.len(),
                kept@.to_set() == self.claimed@.subrange(0, i as int).to_set().remove(port),
            decreases self.claimed.len() - i,
        {
            let q = self.claimed[i];
            proof {
                let pre = self.claimed@.subrange(0, i as int);
                assert(self.claimed@.subrange(0, i + 1) =~= pre.push(q));
                pre.lemma_push_to_set_commute(q);
            }
            if q != port {
                proof {
                    kept@.lemma_push_to_set_commute(q);
                }
                kept.push(q);
                proof {
                    assert(kept@.to_set() =~= self.claimed@.subrange(0, i + 1).to_set().remove(port));
                }
            } else {
                proof {
                    assert(kept@.to_set() =~= self.claimed@.subrange(0, i + 1).to_set().remove(port));
                }
            }
            i = i + 1;
        }
        proof {
            assert(self.claimed@.subrange(0, self.claimed@.len() as int) =~= self.claimed@);
        }
        self.claimed = kept;
    }
}

/// One call on an allocator, with what it returned.
pub enum PortCall {
    Allocate(Result<u32, PortError>),
    Release(u32),
}

/// How one call moves the claimed set from `before` to `after`, as the
/// contracts of `allocate` and `release` state it.
pub open spec fn port_step(before: Set<u32>, after: Set<u32>, lo: u32, hi: u32, call: PortCall) -> bool {
    match call {
        PortCall::Allocate(Ok(p)) => is_lowest_free(before, lo, hi, p) && after == before.insert(p),
        PortCall::Allocate(Err(_)) => after == before,
        PortCall::Release(p) => after == before.remove(p),
    }
}

/// The ports handed out by the allocations of `calls` and not released since.
pub open spec fn outstanding(calls: Seq<PortCall>) -> Set<u32>
    decreases calls.len(),
{
    if calls.len() == 0 {
        Set::empty()
    } else {
        let prev = outstanding(calls.drop_last());
        match calls.last() {
            PortCall::Allocate(Ok(p)) => prev.insert(p),
            PortCall::Allocate(Err(_)) => prev,
            PortCall::Release(p) => prev.remove(p),
        }
    }
}

proof fn lemma_outstanding_claimed(states: Seq<Set<u32>>, lo: u32, hi: u32, calls: Seq<PortCall>, k: int)
    requires
        states.len() == calls.len() + 1,
        forall|j: int| 0 <= j < calls.len() ==> port_step(states[j], states[j + 1], lo, hi, #[trigger] calls[j]),
        0 <= k <= calls.len(),
    ensures
        outstanding(calls.subrange(0, k)).subset_of(states[k]),
    decreases k,
{
    if k > 0 {
        let j = k - 1;
        lemma_outstanding_claimed(states, lo, hi, calls, j);
        assert(calls.subrange(0, k).drop_last() =~= calls.subrange(0, j));
        assert(port_step(states[j], states[j + 1], lo, hi, calls[j]));
    }
}

/// No double issue: over any sequence of allocations and releases, starting
/// from any claimed set, a port that an allocation hands out is held by no
/// earlier allocation that has not been released.
pub proof fn lemma_allocate_never_double_issues(states: Seq<Set<u32>>, lo: u32, hi: u32, calls: Seq<PortCall>)
    requires
        states.len() == calls.len() + 1,
        forall|j: int| 0 <= j < calls.len() ==> port_step(states[j], states[j + 1], lo, hi, #[trigger] calls[j]),
    ensures
        forall|k: int| 0 <= k < calls.len() ==> (#[trigger] calls[k] matches PortCall::Allocate(Ok(p))
            ==> !outstanding(calls.subrange(0, k)).contains(p)),
{
    assert forall|k: int| 0 <= k < calls.len() implies (#[trigger] calls[k] matches PortCall::Allocate(Ok(p))
        ==> !outstanding(calls.subrange(0, k)).contains(p)) by {
        lemma_outstanding_claimed(states, lo, hi, calls, k);
        assert(port_step(states[k], states[k + 1], lo, hi, calls[k]));
    }
}

} // verus!
