//! Progress accounting for a recursive directory copy. The copy itself is
//! I/O and lives in the unverified shell; this module owns the decision of
//! when a progress event is due: after each copied file, an event is
//! emitted only when the whole-number percentage has advanced.

use vstd::prelude::*;

verus! {

/// An event surfaced to the caller during a directory copy: a progress
/// report, or the error that ended the copy.
pub enum CopyEvent {
    Progress { progress: u32, copied_files: usize, total_files: usize },
    Error { error: String },
}

/// The whole-number percentage of `copied` out of `total`.
pub open spec fn spec_percent(copied: nat, total: nat) -> int {
    (copied as int * 100) / (total as int)
}

/// Tracks how many of `total_files` files are copied and which percentage
/// was last reported.
pub struct ProgressTracker {
    copied_files: usize,
    total_files: usize,
    last_progress: u32,
}

impl ProgressTracker {
    /// The counters are consistent: no more copied than counted, and the
    /// last report is a percentage not above the current one.
    pub closed spec fn wf(&self) -> bool {
        &&& self.copied_files <= self.total_files
        &&& 0 < self.total_files
        &&& self.last_progress <= spec_percent(self.copied_files as nat, self.total_files as nat)
    }

    /// How many files the copy covers.
    pub closed spec fn spec_total(&self) -> usize {
        self.total_files
    }

    /// How many files are copied so far.
    pub closed spec fn spec_copied(&self) -> usize {
        self.copied_files
    }

    /// The last whole-number percentage reported.
    pub closed spec fn spec_last(&self) -> u32 {
        self.last_progress
    }

    /// A tracker for a copy of `total_files` files, none copied yet.
    pub fn new(total_files: usize) -> (r: ProgressTracker)
        requires
            0 < total_files,
        ensures
            r.wf(),
            r.spec_total() == total_files,
            r.spec_copied() == 0,
            r.spec_last() == 0,
    {
        ProgressTracker { copied_files: 0, total_files, last_progress: 0 }
    }

    /// How many files are copied so far.
    pub fn copied(&self) -> (r: usize)
        ensures
            r == self.spec_copied(),
    {
        self.copied_files
    }

    /// How many files the copy covers.
    pub fn total(&self) -> (r: usize)
        ensures
            r == self.spec_total(),
    {
        self.total_files
    }

    /// Accounts one more copied file. An event is due exactly when the
    /// whole-number percentage advanced since the last report; the event
    /// then carries the new percentage and both counters.
    pub fn record_copied(&mut self) -> (r: Option<CopyEvent>)
        requires
            old(self).wf(),
            old(self).spec_copied() < old(self).spec_total(),
        ensures
            final(self).wf(),
            final(self).spec_total() == old(self).spec_total(),
            final(self).spec_copied() == old(self).spec_copied() + 1,
            ({
                let p = spec_percent(
                    (old(self).spec_copied() + 1) as nat,
                    old(self).spec_total() as nat,
                );
                if p >= old(self).spec_last() + 1 {
                    &&& r == Some(
                        CopyEvent::Progress {
                            progress: p as u32,
                            copied_files: (old(self).spec_copied() + 1) as usize,
                            total_files: old(self).spec_total(),
                        },
                    )
                    &&& final(self).spec_last() == p
                } else {
                    &&& r is None
                    &&& final(self).spec_last() == old(self).spec_last()
                }
            }),
    {
        self.copied_files = self.copied_files + 1;
        let c = self.copied_files as u128;
        let t = self.total_files as u128;
        let p128 = c * 100 / t;
        proof {
            assert(c * 100 <= t * 100) by (nonlinear_arith)
                requires
                    c <= t,
            ;
            vstd::arithmetic::div_mod::lemma_div_is_ordered(
                c as int * 100,
                t as int * 100,
                t as int,
            );
            assert(t as int * 100 / t as int == 100) by (nonlinear_arith)
                requires
                    t > 0,
            ;
            assert(p128 <= 100);
            vstd::arithmetic::div_mod::lemma_div_is_ordered(
                (c as int - 1) * 100,
                c as int * 100,
                t as int,
            );
        }
        let p = p128 as u32;
        if p - self.last_progress >= 1 {
            self.last_progress = p;
            Some(
                CopyEvent::Progress {
                    progress: p,
                    copied_files: self.copied_files,
                    total_files: self.total_files,
                },
            )
        } else {
            None
        }
    }
}

} // verus!
