//! Retention and record-limit rules that keep the store from growing
//! without bound.

use crate::time::Span;
use vstd::prelude::*;

verus! {

/// One pass of housekeeping: what to prune and whether to compact.
#[derive(Clone, Copy, Debug, PartialEq, Eq, Structural)]
pub struct HousekeepingJob {
    /// Samples at least this old are deleted; `None` keeps every age.
    pub retention: Option<Span>,
    /// Most samples the store may hold; `None` sets no limit.
    pub record_limit: Option<usize>,
    /// Whether the store is compacted after the deletion by age.
    pub vacuum: bool,
}

/// The deletion by age of one housekeeping pass.
#[derive(Clone, Copy, Debug, PartialEq, Eq, Structural)]
pub struct Purge {
    /// Samples taken at or before this time are deleted; `None` where no
    /// time since the epoch is old enough.
    pub cutoff: Option<Span>,
    /// Whether the store is compacted afterwards.
    pub vacuum: bool,
}

/// One step of a housekeeping pass, for the store to carry out.
#[derive(Clone, Copy, Debug, PartialEq, Eq, Structural)]
pub enum HousekeepingStep {
    /// Delete every sample taken at or before this time.
    DeleteThrough(Span),
    /// Compact the store.
    Vacuum,
    /// Count the samples that the store holds.
    CountRecords,
    /// Delete this many samples, the oldest first.
    DeleteOldest(usize),
    /// The pass is over.
    Finished,
}

/// Whether a sample taken at `timestamp` falls to a purge with this cutoff.
pub open spec fn expired(timestamp: Span, cutoff: Option<Span>) -> bool {
    match cutoff {
        Some(limit) => timestamp@ <= limit@,
        None => false,
    }
}

/// The cutoff of a purge at `now` that keeps samples younger than
/// `retention`.
pub open spec fn cutoff_at(now: Span, retention: Span) -> Option<Span> {
    if retention@ <= now@ {
        Some(Span { nanos: (now.nanos - retention.nanos) as u128 })
    } else {
        None
    }
}

/// How many of the oldest samples leave a store of `records` samples that
/// may hold `limit`: the surplus and a quarter of the limit on top, so that
/// the next pass finds room.
pub open spec fn excess_records(records: nat, limit: nat) -> nat {
    if records > limit {
        (records - limit + limit / 4) as nat
    } else {
        0
    }
}

/// The step with which the pass turns to the record limit: the samples are
/// counted where a limit is set, and the pass is over where none is.
pub open spec fn counting_step(job: HousekeepingJob) -> HousekeepingStep {
    if job.record_limit is Some {
        HousekeepingStep::CountRecords
    } else {
        HousekeepingStep::Finished
    }
}

/// The step that follows the deletion by age: the store is compacted where
/// the pass compacts and has a deletion by age, which takes a retention and
/// a clock that could be read; else the pass turns to the record limit.
pub open spec fn compacting_step(job: HousekeepingJob, clock: Option<Span>) -> HousekeepingStep {
    if job.vacuum && job.retention is Some && clock is Some {
        HousekeepingStep::Vacuum
    } else {
        counting_step(job)
    }
}

/// The step of a pass that follows the step `done`, or the first step where
/// `done` is `None`. `clock` is what the wall clock read when the pass
/// began, and `counted` the number of samples that the count found, `None`
/// where the count failed.
///
/// A pass deletes by age, then compacts, then counts, then deletes what is
/// over the limit, leaving out each step for which it has no cause. A
/// deletion or a compaction that failed does not hold the pass up; a count
/// that failed ends it.
pub open spec fn step_after(
    job: HousekeepingJob,
    clock: Option<Span>,
    done: Option<HousekeepingStep>,
    counted: Option<usize>,
) -> HousekeepingStep {
    match done {
        None => match (job.retention, clock) {
            (Some(retention), Some(now)) => match cutoff_at(now, retention) {
                Some(cutoff) => HousekeepingStep::DeleteThrough(cutoff),
                None => compacting_step(job, clock),
            },
            _ => counting_step(job),
        },
        Some(HousekeepingStep::DeleteThrough(_)) => compacting_step(job, clock),
        Some(HousekeepingStep::Vacuum) => counting_step(job),
        Some(HousekeepingStep::CountRecords) => match (counted, job.record_limit) {
            (Some(records), Some(limit)) => if records > limit {
                HousekeepingStep::DeleteOldest(excess_records(records as nat, limit as nat) as usize)
            } else {
                HousekeepingStep::Finished
            },
            _ => HousekeepingStep::Finished,
        },
        Some(HousekeepingStep::DeleteOldest(_)) => HousekeepingStep::Finished,
        Some(HousekeepingStep::Finished) => HousekeepingStep::Finished,
    }
}

/// The place of a step in a pass; nothing done yet stands before all.
pub open spec fn stage_of(done: Option<HousekeepingStep>) -> int {
    match done {
        None => 0,
        Some(HousekeepingStep::DeleteThrough(_)) => 1,
        Some(HousekeepingStep::Vacuum) => 2,
        Some(HousekeepingStep::CountRecords) => 3,
        Some(HousekeepingStep::DeleteOldest(_)) => 4,
        Some(HousekeepingStep::Finished) => 5,
    }
}

impl HousekeepingJob {
    /// The pass that runs once when the store is opened: it applies the
    /// retention, compacts, and sets no record limit.
    pub fn at_startup(keep_duration: Option<Span>) -> (job: HousekeepingJob)
        ensures
            job == (HousekeepingJob { retention: keep_duration, record_limit: None, vacuum: true }),
    {
        HousekeepingJob { retention: keep_duration, record_limit: None, vacuum: true }
    }

    /// The deletion by age of this pass, given the wall clock's reading.
    ///
    /// There is none where no retention is set, and none where the clock
    /// could not be read (`clock` is `None`). Otherwise samples taken at or
    /// before `clock - retention` are to be deleted.
    pub fn purge(&self, clock: Option<Span>) -> (purge: Option<Purge>)
        ensures
            purge == (match (self.retention, clock) {
                (Some(retention), Some(now)) => Some(
                    Purge { cutoff: cutoff_at(now, retention), vacuum: self.vacuum },
                ),
                _ => None,
            }),
    {
        match (self.retention, clock) {
            (Some(retention), Some(now)) => Some(
                Purge { cutoff: now.checked_sub(retention), vacuum: self.vacuum },
            ),
            _ => None,
        }
    }

    /// The step with which the pass turns to the record limit.
    fn counting(&self) -> (step: HousekeepingStep)
        ensures
            step == counting_step(*self),
    {
        match self.record_limit {
            Some(_) => HousekeepingStep::CountRecords,
            None => HousekeepingStep::Finished,
        }
    }

    /// The step that follows the deletion by age.
    fn compacting(&self, purge: Option<Purge>) -> (step: HousekeepingStep)
        ensures
            step == if purge matches Some(by_age) && by_age.vacuum {
                HousekeepingStep::Vacuum
            } else {
                counting_step(*self)
            },
    {
        match purge {
            Some(by_age) => if by_age.vacuum {
                HousekeepingStep::Vacuum
            } else {
                self.counting()
            },
            None => self.counting(),
        }
    }

    /// The next step of the pass: the first where `done` is `None`, else
    /// the one that follows the step `done`, whose outcome matters only for
    /// the count. `clock` is what the wall clock read when the pass began,
    /// `None` where it could not be read; `counted` is the number of samples
    /// that the count found, `None` where the count failed.
    ///
    /// The pass deletes by age, then compacts, then counts, then deletes the
    /// oldest samples over the limit, and leaves out each step for which it
    /// has no cause. The count is taken after the deletion by age, so that
    /// the limit applies to what the retention has left.
    pub fn next_step(
        &self,
        clock: Option<Span>,
        done: Option<HousekeepingStep>,
        counted: Option<usize>,
    ) -> (step: HousekeepingStep)
        ensures
            step == step_after(*self, clock, done, counted),
    {
        match done {
            None => {
                let purge = self.purge(clock);
                match purge {
                    Some(Purge { cutoff: Some(cutoff), vacuum: _ }) => HousekeepingStep::DeleteThrough(
                        cutoff,
                    ),
                    _ => self.compacting(purge),
                }
            },
            Some(HousekeepingStep::DeleteThrough(_)) => self.compacting(self.purge(clock)),
            Some(HousekeepingStep::Vacuum) => self.counting(),
            Some(HousekeepingStep::CountRecords) => match counted {
                Some(records) => match self.eviction(records) {
                    Some(excess) => HousekeepingStep::DeleteOldest(excess),
                    None => HousekeepingStep::Finished,
                },
                None => HousekeepingStep::Finished,
            },
            Some(HousekeepingStep::DeleteOldest(_)) => HousekeepingStep::Finished,
            Some(HousekeepingStep::Finished) => HousekeepingStep::Finished,
        }
    }

    /// How many of the oldest samples to delete from a store that holds
    /// `records` samples; `None` where the store is within its limit or has
    /// none.
    pub fn eviction(&self, records: usize) -> (excess: Option<usize>)
        ensures
            excess == (match self.record_limit {
                Some(limit) if records > limit => Some(
                    excess_records(records as nat, limit as nat) as usize,
                ),
                _ => None,
            }),
            excess matches Some(n) ==> 0 < n <= records && n == excess_records(
                records as nat,
                self.record_limit.unwrap() as nat,
            ),
    {
        match self.record_limit {
            Some(limit) => {
                if records > limit {
                    Some(records - limit + limit / 4)
                } else {
                    None
                }
            },
            None => None,
        }
    }
}

/// A purge deletes exactly the samples whose age has reached the retention:
/// a sample taken at `timestamp` falls to the purge made at `now` if and only
/// if `timestamp + retention <= now`. A sample whose age equals the retention
/// is deleted too.
pub proof fn law_purge_deletes_by_age(timestamp: Span, now: Span, retention: Span)
    ensures
        expired(timestamp, cutoff_at(now, retention)) <==> timestamp@ + retention@ <= now@,
{
}

/// After an eviction the store holds the limit less a quarter of it, and so
/// no more than the limit.
pub proof fn law_eviction_leaves_room(records: nat, limit: nat)
    requires
        records > limit,
    ensures
        excess_records(records, limit) <= records,
        records - excess_records(records, limit) == limit - limit / 4,
        records - excess_records(records, limit) <= limit,
{
}

/// A pass goes forward and ends: every step stands later in the pass than
/// the step before it, until the pass is over. So the deletion by age comes
/// first, the compaction follows it, the count is taken after both, the
/// deletion over the limit follows the count, and a pass has at most five
/// steps.
pub proof fn law_pass_goes_forward(
    job: HousekeepingJob,
    clock: Option<Span>,
    done: Option<HousekeepingStep>,
    counted: Option<usize>,
)
    ensures
        done != Some(HousekeepingStep::Finished) ==> stage_of(
            Some(step_after(job, clock, done, counted)),
        ) > stage_of(done),
        done == Some(HousekeepingStep::Finished) ==> step_after(job, clock, done, counted)
            == HousekeepingStep::Finished,
        1 <= stage_of(Some(step_after(job, clock, done, counted))) <= 5,
{
}

/// The steps of a pass are those of its deletion by age and of its
/// eviction: the first step deletes through the cutoff of `purge` where it
/// has one, and the step after a count deletes the oldest samples that
/// `eviction` names.
pub proof fn law_steps_follow_the_rules(
    job: HousekeepingJob,
    clock: Option<Span>,
    records: usize,
)
    ensures
        step_after(job, clock, None, None) matches HousekeepingStep::DeleteThrough(cutoff) ==> (
        job.retention is Some && clock is Some && cutoff_at(clock.unwrap(), job.retention.unwrap())
            == Some(cutoff)),
        step_after(job, clock, Some(HousekeepingStep::CountRecords), Some(records))
            matches HousekeepingStep::DeleteOldest(excess) ==> (job.record_limit is Some && records
            > job.record_limit.unwrap() && excess == excess_records(
            records as nat,
            job.record_limit.unwrap() as nat,
        )),
{
}

} // verus!
