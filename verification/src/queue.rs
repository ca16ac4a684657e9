use vstd::prelude::*;

verus! {

/// Bounded admission: caps how many requests are in flight at once. Once the
/// cap is reached, further arrivals are rejected immediately — nothing ever
/// waits. An alternative to the rate limiter for bounding load; a deployment
/// may use either or both.
pub struct BoundedQueue {
    capacity: u32,
    in_flight: u32,
}

impl BoundedQueue {
    /// Maximum number of requests in flight at once.
    pub closed spec fn spec_capacity(&self) -> u32 {
        self.capacity
    }

    /// Requests currently in flight.
    pub closed spec fn spec_in_flight(&self) -> u32 {
        self.in_flight
    }

    /// Internal invariant: a positive cap never exceeded.
    pub closed spec fn wf(&self) -> bool {
        self.capacity >= 1 && self.in_flight <= self.capacity
    }

    /// Creates an empty queue stage with the given capacity.
    pub fn new(capacity: u32) -> (r: BoundedQueue)
        requires
            capacity >= 1,
        ensures
            r.wf(),
            r.spec_capacity() == capacity,
            r.spec_in_flight() == 0,
    {
        BoundedQueue { capacity, in_flight: 0 }
    }

    /// Admits one request iff the stage is not yet full; never blocks.
    pub fn try_enter(&mut self) -> (r: bool)
        requires
            old(self).wf(),
        ensures
            final(self).wf(),
            final(self).spec_capacity() == old(self).spec_capacity(),
            r == (old(self).spec_in_flight() < old(self).spec_capacity()),
            final(self).spec_in_flight() == if r {
                old(self).spec_in_flight() + 1
            } else {
                old(self).spec_in_flight() as int
            },
    {
        if self.in_flight < self.capacity {
            self.in_flight = self.in_flight + 1;
            true
        } else {
            false
        }
    }

    /// Releases one slot when a request finishes.
    pub fn leave(&mut self)
        requires
            old(self).wf(),
            old(self).spec_in_flight() >= 1,
        ensures
            final(self).wf(),
            final(self).spec_capacity() == old(self).spec_capacity(),
            final(self).spec_in_flight() == old(self).spec_in_flight() - 1,
    {
        self.in_flight = self.in_flight - 1;
    }
}

} // verus!
