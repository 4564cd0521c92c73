//! Process identifiers and the allocator that issues them.

use vstd::prelude::*;

verus! {

/// A process identifier. Identifiers handed out by a [`PidAllocator`] are
/// unique and strictly increasing; 0 is never issued and 1 is the first
/// (conventionally the init process).
#[derive(Debug, Clone, Copy, PartialEq, Eq, Structural, PartialOrd, Ord, Hash)]
pub struct ProcessId(pub usize);

/// Issues process identifiers from a counter that starts at 1.
///
/// The ghost history records every identifier issued so far, so that the
/// uniqueness and ordering of identifiers can be stated about the whole run.
pub struct PidAllocator {
    next: usize,
    issued: Ghost<Seq<ProcessId>>,
}

impl PidAllocator {
    /// The identifier that the next allocation returns.
    pub closed spec fn next_id(&self) -> usize {
        self.next
    }

    /// Every identifier issued so far, oldest first.
    pub closed spec fn issued(&self) -> Seq<ProcessId> {
        self.issued@
    }

    /// The counter never goes back: everything issued lies below it, in
    /// strictly increasing order.
    pub closed spec fn wf(&self) -> bool {
        &&& self.next >= 1
        &&& forall|i: int| 0 <= i < self.issued@.len() ==> 1 <= #[trigger] self.issued@[i].0 < self.next
        &&& forall|i: int, j: int|
            0 <= i < j < self.issued@.len() ==> #[trigger] self.issued@[i].0 < #[trigger] self.issued@[j].0
    }

    /// A fresh allocator whose first identifier is 1.
    pub fn new() -> (r: PidAllocator)
        ensures
            r.wf(),
            r.next_id() == 1,
            r.issued() == Seq::<ProcessId>::empty(),
    {
        PidAllocator { next: 1, issued: Ghost(Seq::empty()) }
    }

    /// Whether another identifier can still be issued (the counter has not
    /// reached the largest machine word).
    pub fn can_allocate(&self) -> (r: bool)
        ensures
            r == (self.next_id() < usize::MAX),
    {
        self.next < usize::MAX
    }

    /// Issues the next identifier and advances the counter by one.
    pub fn allocate(&mut self) -> (r: ProcessId)
        requires
            old(self).wf(),
            old(self).next_id() < usize::MAX,
        ensures
            final(self).wf(),
            r.0 == old(self).next_id(),
            final(self).next_id() == old(self).next_id() + 1,
            final(self).issued() == old(self).issued().push(r),
    {
        let r = ProcessId(self.next);
        self.next = self.next + 1;
        self.issued = Ghost(self.issued@.push(r));
        r
    }
}

/// Identifiers issued by one allocator are pairwise distinct and strictly
/// increasing in the order in which they were issued, over any sequence of
/// allocations.
pub proof fn lemma_issued_strictly_increasing(a: &PidAllocator)
    requires
        a.wf(),
    ensures
        forall|i: int, j: int|
            0 <= i < j < a.issued().len() ==> #[trigger] a.issued()[i].0 < #[trigger] a.issued()[j].0,
        forall|i: int, j: int|
            0 <= i < a.issued().len() && 0 <= j < a.issued().len() && i != j
                ==> #[trigger] a.issued()[i] != #[trigger] a.issued()[j],
        forall|i: int| 0 <= i < a.issued().len() ==> #[trigger] a.issued()[i].0 >= 1,
{
    assert forall|i: int, j: int|
        0 <= i < a.issued().len() && 0 <= j < a.issued().len() && i != j
            implies #[trigger] a.issued()[i] != #[trigger] a.issued()[j] by {
        if i < j {
            assert(a.issued()[i].0 < a.issued()[j].0);
        } else {
            assert(a.issued()[j].0 < a.issued()[i].0);
        }
    }
}

impl ProcessId {
    /// Issues a new, never used identifier from the given allocator.
    pub fn new(pids: &mut PidAllocator) -> (r: ProcessId)
        requires
            old(pids).wf(),
            old(pids).next_id() < usize::MAX,
        ensures
            final(pids).wf(),
            r.0 == old(pids).next_id(),
            final(pids).next_id() == old(pids).next_id() + 1,
            final(pids).issued() == old(pids).issued().push(r),
    {
        pids.allocate()
    }

    /// An identifier with the given number (to restore or name a known
    /// process, not to create one).
    pub fn from_usize(pid: usize) -> (r: ProcessId)
        ensures
            r.0 == pid,
    {
        ProcessId(pid)
    }

    /// The number of this identifier.
    pub fn as_usize(self) -> (r: usize)
        ensures
            r == self.0,
    {
        self.0
    }

    /// Whether this is the init process (identifier 1).
    pub fn is_init(self) -> (r: bool)
        ensures
            r == (self.0 == 1),
    {
        self.0 == 1
    }
}

} // verus!
