//! The source of record sequence numbers.

use vstd::prelude::*;

verus! {

/// Hands out sequence numbers in increasing order, each one once. The
/// largest 64-bit value is never handed out: it bounds every range scan
/// from above.
#[derive(Debug)]
pub struct SequenceGenerator {
    next: u64,
}

impl View for SequenceGenerator {
    type V = u64;

    /// The number that comes next.
    closed spec fn view(&self) -> u64 {
        self.next
    }
}

impl SequenceGenerator {
    /// A generator whose first number is `first`.
    pub fn starting_at(first: u64) -> (generator: SequenceGenerator)
        ensures
            generator@ == first,
    {
        SequenceGenerator { next: first }
    }

    /// The next number, or `None` once every number below `u64::MAX` has
    /// been handed out.
    pub fn generate(&mut self) -> (id: Option<u64>)
        ensures
            id == issued(old(self)@),
            final(self)@ == after_issue(old(self)@),
    {
        if self.next < u64::MAX {
            let id = self.next;
            self.next = id + 1;
            Some(id)
        } else {
            None
        }
    }
}

/// What a generator that stands at `next` hands out.
pub open spec fn issued(next: u64) -> Option<u64> {
    if next < u64::MAX {
        Some(next)
    } else {
        None
    }
}

/// Where a generator that stood at `next` stands after handing out a
/// number.
pub open spec fn after_issue(next: u64) -> u64 {
    if next < u64::MAX {
        (next + 1) as u64
    } else {
        next
    }
}

/// Two numbers handed out one after the other differ, and the second is
/// the larger.
pub proof fn law_sequence_increases(next: u64)
    requires
        issued(next) is Some,
        issued(after_issue(next)) is Some,
    ensures
        issued(next)->0 < issued(after_issue(next))->0,
{
}

} // verus!
