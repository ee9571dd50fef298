//! What the pool counts.

use crate::dead_letter::DeadLetterQueue;
use crate::scheduler::Scheduler;
use vstd::prelude::*;

verus! {

/// The sum as an atomic counter counts: past the greatest value it starts over
/// from zero.
pub open spec fn counter_sum(n: u64, by: u64) -> u64 {
    if n + by > u64::MAX {
        (n + by - u64::MAX - 1) as u64
    } else {
        (n + by) as u64
    }
}

/// What became of the tasks so far.
#[derive(Debug, Clone, Copy, PartialEq, Eq, Structural)]
pub struct MetricsCounters {
    pub total_submitted: u64,
    pub total_completed: u64,
    pub total_failed: u64,
    pub total_panicked: u64,
    pub total_elapsed_us: u64,
}

impl Default for MetricsCounters {
    fn default() -> (c: MetricsCounters)
        ensures
            c == MetricsCounters::zero(),
    {
        MetricsCounters {
            total_submitted: 0,
            total_completed: 0,
            total_failed: 0,
            total_panicked: 0,
            total_elapsed_us: 0,
        }
    }
}

impl MetricsCounters {
    /// Nothing counted yet.
    pub open spec fn zero() -> MetricsCounters {
        MetricsCounters {
            total_submitted: 0,
            total_completed: 0,
            total_failed: 0,
            total_panicked: 0,
            total_elapsed_us: 0,
        }
    }

    /// One more task submitted.
    pub open spec fn with_submitted(self) -> MetricsCounters {
        MetricsCounters { total_submitted: counter_sum(self.total_submitted, 1), ..self }
    }

    /// One more task completed, in `elapsed_us` microseconds.
    pub open spec fn with_completed(self, elapsed_us: u64) -> MetricsCounters {
        MetricsCounters {
            total_completed: counter_sum(self.total_completed, 1),
            total_elapsed_us: counter_sum(self.total_elapsed_us, elapsed_us),
            ..self
        }
    }

    /// One more task failed.
    pub open spec fn with_failed(self) -> MetricsCounters {
        MetricsCounters { total_failed: counter_sum(self.total_failed, 1), ..self }
    }

    /// One more task panicked.
    pub open spec fn with_panicked(self) -> MetricsCounters {
        MetricsCounters { total_panicked: counter_sum(self.total_panicked, 1), ..self }
    }

    pub fn count_submitted(&mut self)
        ensures
            *final(self) == old(self).with_submitted(),
    {
        self.total_submitted = self.total_submitted.wrapping_add(1);
    }

    pub fn count_completed(&mut self, elapsed_us: u64)
        ensures
            *final(self) == old(self).with_completed(elapsed_us),
    {
        self.total_completed = self.total_completed.wrapping_add(1);
        self.total_elapsed_us = self.total_elapsed_us.wrapping_add(elapsed_us);
    }

    pub fn count_failed(&mut self)
        ensures
            *final(self) == old(self).with_failed(),
    {
        self.total_failed = self.total_failed.wrapping_add(1);
    }

    pub fn count_panicked(&mut self)
        ensures
            *final(self) == old(self).with_panicked(),
    {
        self.total_panicked = self.total_panicked.wrapping_add(1);
    }
}

/// The state of the pool in numbers.
#[derive(Debug, Clone, Copy, PartialEq, Eq)]
pub struct MetricsSnapshot {
    pub total_submitted: u64,
    pub total_completed: u64,
    pub total_failed: u64,
    pub total_panicked: u64,
    pub pending: usize,
    pub active_workers: usize,
    pub dead_letter_count: usize,
    /// The average time of a completed task as a fraction: the microseconds of
    /// all, and how many they were. `None` where no task completed.
    pub avg_elapsed_us: Option<(u64, u64)>,
}

/// The parts of the pool that its numbers are read from.
pub struct Metrics<'a> {
    pub counters: &'a MetricsCounters,
    pub scheduler: &'a Scheduler,
    pub active_workers: usize,
    pub dead_letter: &'a DeadLetterQueue,
}

impl<'a> Metrics<'a> {
    pub fn new(
        counters: &'a MetricsCounters,
        scheduler: &'a Scheduler,
        active_workers: usize,
        dead_letter: &'a DeadLetterQueue,
    ) -> (m: Metrics<'a>)
        ensures
            m == (Metrics { counters, scheduler, active_workers, dead_letter }),
    {
        Metrics { counters, scheduler, active_workers, dead_letter }
    }

    /// The state of the pool in numbers.
    pub fn snapshot(&self) -> (s: MetricsSnapshot)
        requires
            self.scheduler@.pending + self.scheduler@.queued() <= usize::MAX,
        ensures
            s.total_submitted == self.counters.total_submitted,
            s.total_completed == self.counters.total_completed,
            s.total_failed == self.counters.total_failed,
            s.total_panicked == self.counters.total_panicked,
            s.pending == self.scheduler@.pending + self.scheduler@.queued(),
            s.active_workers == self.active_workers,
            s.dead_letter_count == self.dead_letter@.entries.len(),
            s.avg_elapsed_us == if self.counters.total_completed > 0 {
                Some((self.counters.total_elapsed_us, self.counters.total_completed))
            } else {
                None
            },
    {
        let pending: usize = self.scheduler.total_pending() + self.scheduler.queued_count();
        let avg_elapsed_us = if self.counters.total_completed > 0 {
            Some((self.counters.total_elapsed_us, self.counters.total_completed))
        } else {
            None
        };
        MetricsSnapshot {
            total_submitted: self.counters.total_submitted,
            total_completed: self.counters.total_completed,
            total_failed: self.counters.total_failed,
            total_panicked: self.counters.total_panicked,
            pending,
            active_workers: self.active_workers,
            dead_letter_count: self.dead_letter.len(),
            avg_elapsed_us,
        }
    }
}

} // verus!
