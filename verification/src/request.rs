//! Monotonic request IDs scoped to one process incarnation.
use vstd::prelude::*;

verus! {

/// Pairing the value with the owning slot and incarnation makes an
/// asynchronous request unique even after a process slot is reused.
pub struct RequestSequence {
    pub next: u64,
}

impl RequestSequence {
    pub fn new() -> (r: Self)
        ensures
            r.next == 1,
    {
        Self { next: 1 }
    }

    /// Hands out the next ID; an exhausted sequence never wraps.
    pub fn allocate(&mut self) -> (id: Option<u64>)
        ensures
            old(self).next < u64::MAX ==> id == Some(old(self).next) && final(self).next
                == old(self).next + 1,
            old(self).next == u64::MAX ==> id is None && final(self).next == old(self).next,
    {
        let request_id = self.next;
        match request_id.checked_add(1) {
            Some(next) => {
                self.next = next;
                Some(request_id)
            },
            None => None,
        }
    }
}

/// Two successive successful allocations give strictly increasing IDs, and a
/// sequence started by `new` never hands out zero.
pub proof fn lemma_ids_strictly_increase(first: u64, second: u64, next_before: u64)
    requires
        next_before >= 1,
        first == next_before,
        second == next_before + 1,
    ensures
        0 < first < second,
{
}

} // verus!
