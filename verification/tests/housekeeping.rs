use metrics_sqlite::{HousekeepingJob, HousekeepingStep, Purge, Span};

fn job(retention: Option<Span>, record_limit: Option<usize>, vacuum: bool) -> HousekeepingJob {
    HousekeepingJob { retention, record_limit, vacuum }
}

#[test]
fn startup_pass_applies_retention_and_compacts() {
    let week = Span::from_secs(60 * 60 * 24 * 7);
    assert_eq!(HousekeepingJob::at_startup(Some(week)), job(Some(week), None, true));
    assert_eq!(HousekeepingJob::at_startup(None), job(None, None, true));
}

#[test]
fn purge_cuts_off_at_now_less_retention() {
    let pass = job(Some(Span::from_secs(60)), None, false);
    assert_eq!(
        pass.purge(Some(Span::from_secs(1000))),
        Some(Purge { cutoff: Some(Span::from_secs(940)), vacuum: false })
    );
    let compacting = job(Some(Span::from_secs(60)), Some(10), true);
    assert_eq!(
        compacting.purge(Some(Span::from_parts(1000, 1))),
        Some(Purge { cutoff: Some(Span::from_parts(940, 1)), vacuum: true })
    );
}

#[test]
fn purge_at_the_boundary_deletes_the_sample_taken_at_the_epoch() {
    let pass = job(Some(Span::from_secs(60)), None, false);
    assert_eq!(
        pass.purge(Some(Span::from_secs(60))),
        Some(Purge { cutoff: Some(Span::zero()), vacuum: false })
    );
}

#[test]
fn purge_finds_nothing_old_enough_before_the_retention_has_passed() {
    let pass = job(Some(Span::from_secs(60)), None, true);
    assert_eq!(
        pass.purge(Some(Span::from_secs(59))),
        Some(Purge { cutoff: None, vacuum: true })
    );
}

#[test]
fn purge_is_skipped_without_retention_or_clock() {
    assert_eq!(job(None, Some(5), true).purge(Some(Span::from_secs(1000))), None);
    assert_eq!(job(Some(Span::from_secs(60)), None, true).purge(None), None);
    assert_eq!(job(None, None, false).purge(None), None);
}

#[test]
fn eviction_removes_the_surplus_and_a_quarter_of_the_limit() {
    let pass = job(None, Some(100), false);
    assert_eq!(pass.eviction(130), Some(55));
    assert_eq!(130 - 55, 75);
    assert_eq!(pass.eviction(101), Some(26));
}

#[test]
fn eviction_leaves_a_store_within_its_limit() {
    let pass = job(None, Some(100), false);
    assert_eq!(pass.eviction(100), None);
    assert_eq!(pass.eviction(99), None);
    assert_eq!(pass.eviction(0), None);
}

#[test]
fn eviction_rounds_the_quarter_down() {
    assert_eq!(job(None, Some(3), false).eviction(4), Some(1));
    assert_eq!(job(None, Some(7), false).eviction(10), Some(4));
    assert_eq!(job(None, Some(0), false).eviction(5), Some(5));
}

#[test]
fn eviction_is_skipped_without_a_limit() {
    assert_eq!(job(Some(Span::from_secs(1)), None, true).eviction(1_000_000), None);
}

#[test]
fn eviction_of_the_largest_store_does_not_overflow() {
    assert_eq!(
        job(None, Some(usize::MAX - 1), false).eviction(usize::MAX),
        Some(1 + (usize::MAX - 1) / 4)
    );
}

/// The steps of a pass in the order in which the pass lays them down, with
/// `records` as what every count finds.
fn pass(job: HousekeepingJob, clock: Option<Span>, records: Option<usize>) -> Vec<HousekeepingStep> {
    let mut steps = Vec::new();
    let mut done = None;
    loop {
        let step = job.next_step(clock, done, records);
        steps.push(step);
        if step == HousekeepingStep::Finished {
            return steps;
        }
        assert!(steps.len() <= 5, "a pass has at most five steps");
        done = Some(step);
    }
}

#[test]
fn full_pass_deletes_by_age_compacts_counts_and_evicts() {
    let whole = job(Some(Span::from_secs(60)), Some(100), true);
    assert_eq!(
        pass(whole, Some(Span::from_secs(1000)), Some(130)),
        vec![
            HousekeepingStep::DeleteThrough(Span::from_secs(940)),
            HousekeepingStep::Vacuum,
            HousekeepingStep::CountRecords,
            HousekeepingStep::DeleteOldest(55),
            HousekeepingStep::Finished,
        ]
    );
}

#[test]
fn periodic_pass_counts_after_the_deletion_by_age() {
    let periodic = job(Some(Span::from_secs(60)), Some(100), false);
    assert_eq!(
        pass(periodic, Some(Span::from_secs(1000)), Some(100)),
        vec![
            HousekeepingStep::DeleteThrough(Span::from_secs(940)),
            HousekeepingStep::CountRecords,
            HousekeepingStep::Finished,
        ]
    );
}

#[test]
fn startup_pass_without_retention_does_nothing() {
    assert_eq!(
        pass(HousekeepingJob::at_startup(None), Some(Span::from_secs(1000)), Some(5)),
        vec![HousekeepingStep::Finished]
    );
}

#[test]
fn startup_pass_compacts_after_the_deletion() {
    let startup = HousekeepingJob::at_startup(Some(Span::from_secs(60)));
    assert_eq!(
        pass(startup, Some(Span::from_secs(1000)), None),
        vec![
            HousekeepingStep::DeleteThrough(Span::from_secs(940)),
            HousekeepingStep::Vacuum,
            HousekeepingStep::Finished,
        ]
    );
    assert_eq!(
        pass(startup, Some(Span::from_secs(10)), None),
        vec![HousekeepingStep::Vacuum, HousekeepingStep::Finished]
    );
}

#[test]
fn pass_without_clock_skips_the_deletion_by_age_and_the_compaction() {
    let whole = job(Some(Span::from_secs(60)), Some(100), true);
    assert_eq!(
        pass(whole, None, Some(101)),
        vec![
            HousekeepingStep::CountRecords,
            HousekeepingStep::DeleteOldest(26),
            HousekeepingStep::Finished,
        ]
    );
}

#[test]
fn pass_ends_when_the_count_fails() {
    let limited = job(None, Some(100), false);
    assert_eq!(
        pass(limited, Some(Span::from_secs(1000)), None),
        vec![HousekeepingStep::CountRecords, HousekeepingStep::Finished]
    );
}

#[test]
fn next_step_after_each_step() {
    let whole = job(Some(Span::from_secs(60)), Some(100), true);
    let clock = Some(Span::from_secs(1000));
    assert_eq!(
        whole.next_step(clock, Some(HousekeepingStep::DeleteOldest(55)), Some(130)),
        HousekeepingStep::Finished
    );
    assert_eq!(
        whole.next_step(clock, Some(HousekeepingStep::Finished), Some(130)),
        HousekeepingStep::Finished
    );
    assert_eq!(
        whole.next_step(clock, Some(HousekeepingStep::Vacuum), None),
        HousekeepingStep::CountRecords
    );
    let plain = job(Some(Span::from_secs(60)), None, false);
    assert_eq!(
        plain.next_step(clock, Some(HousekeepingStep::DeleteThrough(Span::from_secs(940))), None),
        HousekeepingStep::Finished
    );
}
