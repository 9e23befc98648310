//! The integer part of the SM-2 schedule and the review grades.
use vstd::prelude::*;

verus! {

/// The four review buttons.
#[derive(Clone, Copy, Debug, PartialEq, Eq)]
pub enum Grade {
    Again,
    Hard,
    Good,
    Easy,
}

/// One SM-2 step on (repetitions, interval in days): a failed review resets
/// to (0, 1); a passed one counts a repetition, and the interval becomes 1
/// after the first, 6 after the second and `grown_interval` (the interval
/// times the ease factor, rounded) after any later one.
pub open spec fn schedule_step(repetitions: u32, interval_days: u32, passed: bool, grown_interval: u32) -> (u32, u32) {
    if !passed {
        (0, 1)
    } else {
        let reps = (repetitions + 1) as u32;
        (reps, if reps == 1 { 1 } else if reps == 2 { 6 } else { grown_interval })
    }
}

/// The new (repetitions, interval) after a review.
pub fn advance_schedule(repetitions: u32, interval_days: u32, passed: bool, grown_interval: u32) -> (r: (u32, u32))
    requires
        passed ==> repetitions < u32::MAX,
    ensures
        r == schedule_step(repetitions, interval_days, passed, grown_interval),
        !passed ==> r == (0u32, 1u32),
        passed ==> r.0 == repetitions + 1,
        passed && repetitions == 0 ==> r.1 == 1,
        passed && repetitions == 1 ==> r.1 == 6,
        passed && repetitions >= 2 ==> r.1 == grown_interval,
{
    if !passed {
        (0, 1)
    } else {
        let reps = repetitions + 1;
        let interval = if reps == 1 {
            1
        } else if reps == 2 {
            6
        } else {
            grown_interval
        };
        (reps, interval)
    }
}

/// When the next review is due: `interval_days` days after `now`.
pub fn next_review_at(now: i64, interval_days: u32) -> (r: i64)
    requires
        now + interval_days * 86400 <= i64::MAX,
    ensures
        r == now + interval_days * 86400,
{
    now + (interval_days as i64) * 86400
}

/// Law: a failed review always restarts the schedule at one day, whatever came before.
pub proof fn lemma_lapse_resets(repetitions: u32, interval_days: u32, grown_interval: u32)
    ensures
        schedule_step(repetitions, interval_days, false, grown_interval) == (0u32, 1u32),
{
}

/// Law: from a fresh or reset card, two passed reviews give intervals 1 then 6.
pub proof fn lemma_first_two_passes(interval_days: u32, g1: u32, g2: u32)
    ensures
        schedule_step(0, interval_days, true, g1) == (1u32, 1u32),
        schedule_step(1, 1, true, g2) == (2u32, 6u32),
{
}

/// Law: every passed review counts one more repetition, and from the third
/// pass on the interval becomes the grown interval (the previous interval times
/// the ease factor), whatever the previous interval was.
pub proof fn lemma_later_passes_grow(repetitions: u32, interval_days: u32, grown_interval: u32)
    requires
        2 <= repetitions < u32::MAX,
    ensures
        schedule_step(repetitions, interval_days, true, grown_interval)
            == ((repetitions + 1) as u32, grown_interval),
{
}

/// Law: a passed review never lowers the repetition count; it raises it by one.
pub proof fn lemma_pass_counts(repetitions: u32, interval_days: u32, grown_interval: u32)
    requires
        repetitions < u32::MAX,
    ensures
        schedule_step(repetitions, interval_days, true, grown_interval).0 == repetitions + 1,
{
}

} // verus!
