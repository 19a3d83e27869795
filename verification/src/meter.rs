//! The resource meter: how many reads and writes a program has made, against
//! the most it may make.

use vstd::prelude::*;

verus! {

/// The two kinds of storage access that are counted.
#[derive(Clone, Copy, Debug, PartialEq, Eq, Structural)]
pub enum AccessKind {
    Read,
    Write,
}

/// The quota that an access would have gone over.
#[derive(Clone, Copy, Debug, PartialEq, Eq, Structural)]
pub enum QuotaError {
    ExceededReads,
    ExceededWrites,
}

/// What a meter holds: the accesses made so far and the most allowed.
pub struct MeterCounts {
    pub reads: nat,
    pub max_reads: nat,
    pub writes: nat,
    pub max_writes: nat,
}

impl MeterCounts {
    /// The counts of a meter that has counted nothing yet.
    pub open spec fn fresh(max_reads: nat, max_writes: nat) -> MeterCounts {
        MeterCounts { reads: 0, max_reads, writes: 0, max_writes }
    }

    /// No count is above its maximum.
    pub open spec fn within(self) -> bool {
        self.reads <= self.max_reads && self.writes <= self.max_writes
    }

    /// Whether one more access of this kind stays within its maximum.
    pub open spec fn allows(self, kind: AccessKind) -> bool {
        match kind {
            AccessKind::Read => self.reads + 1 <= self.max_reads,
            AccessKind::Write => self.writes + 1 <= self.max_writes,
        }
    }

    /// The counts after one more access of this kind.
    pub open spec fn charged(self, kind: AccessKind) -> MeterCounts {
        match kind {
            AccessKind::Read => MeterCounts { reads: self.reads + 1, ..self },
            AccessKind::Write => MeterCounts { writes: self.writes + 1, ..self },
        }
    }
}

/// The quota that stands in the way of an access of this kind.
pub open spec fn quota_of(kind: AccessKind) -> QuotaError {
    match kind {
        AccessKind::Read => QuotaError::ExceededReads,
        AccessKind::Write => QuotaError::ExceededWrites,
    }
}

/// Counts the reads and writes of one run against their maxima.
#[derive(Debug)]
pub struct ResourceMeter {
    max_n_read: u32,
    max_n_write: u32,
    curr_n_read: u32,
    curr_n_write: u32,
}

impl View for ResourceMeter {
    type V = MeterCounts;

    closed spec fn view(&self) -> MeterCounts {
        MeterCounts {
            reads: self.curr_n_read as nat,
            max_reads: self.max_n_read as nat,
            writes: self.curr_n_write as nat,
            max_writes: self.max_n_write as nat,
        }
    }
}

impl ResourceMeter {
    #[verifier::type_invariant]
    spec fn inv(self) -> bool {
        self.curr_n_read <= self.max_n_read && self.curr_n_write <= self.max_n_write
    }

    /// A meter that has counted nothing yet.
    pub fn new(max_read: u32, max_write: u32) -> (meter: ResourceMeter)
        ensures
            meter@ == MeterCounts::fresh(max_read as nat, max_write as nat),
    {
        ResourceMeter { max_n_read: max_read, max_n_write: max_write, curr_n_read: 0, curr_n_write: 0 }
    }

    /// Counts one access of the given kind, unless that would take the count
    /// above its maximum: then nothing is counted and the quota is named.
    pub fn check_and_increment(&mut self, kind: AccessKind) -> (r: Result<(), QuotaError>)
        ensures
            old(self)@.within(),
            final(self)@.within(),
            old(self)@.allows(kind) ==> r is Ok && final(self)@ == old(self)@.charged(kind),
            !old(self)@.allows(kind) ==> r == Err::<(), QuotaError>(quota_of(kind)) && final(self)@
                == old(self)@,
    {
        proof {
            use_type_invariant(&*self);
        }
        match kind {
            AccessKind::Read => {
                if self.curr_n_read < self.max_n_read {
                    self.curr_n_read = self.curr_n_read + 1;
                    Ok(())
                } else {
                    Err(QuotaError::ExceededReads)
                }
            },
            AccessKind::Write => {
                if self.curr_n_write < self.max_n_write {
                    self.curr_n_write = self.curr_n_write + 1;
                    Ok(())
                } else {
                    Err(QuotaError::ExceededWrites)
                }
            },
        }
    }

    /// The reads counted so far.
    pub fn reads(&self) -> (n: u32)
        ensures
            n == self@.reads,
    {
        self.curr_n_read
    }

    /// The writes counted so far.
    pub fn writes(&self) -> (n: u32)
        ensures
            n == self@.writes,
    {
        self.curr_n_write
    }

    /// The most reads allowed.
    pub fn max_reads(&self) -> (n: u32)
        ensures
            n == self@.max_reads,
    {
        self.max_n_read
    }

    /// The most writes allowed.
    pub fn max_writes(&self) -> (n: u32)
        ensures
            n == self@.max_writes,
    {
        self.max_n_write
    }
}

} // verus!
