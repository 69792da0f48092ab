//! Whether an event that has come due is announced today, and whether it
//! leaves the queue afterwards.

use crate::clock::{days_from, EventDate};
use crate::store::Timeslice;
use vstd::prelude::*;

verus! {

/// What becomes of an event that has come due.
#[derive(Clone, Copy, Debug, PartialEq, Eq, Structural)]
pub enum Firing {
    /// Not announced today; it stays in the queue.
    Skip,
    /// Announced; it stays in the queue.
    Fire,
    /// Announced, then taken out of the queue.
    FireAndRemove,
}

/// Whether an event with this interval and anchor date is announced on
/// `today`, `days_apart` being the number of days between the two dates.
pub open spec fn fires_on(
    interval: Timeslice,
    anchor: EventDate,
    today: EventDate,
    days_apart: int,
) -> bool {
    match interval {
        Timeslice::Daily => true,
        Timeslice::Weekly => days_apart % 7 == 0,
        Timeslice::Monthly => today.month == anchor.month,
        Timeslice::Yearly => today.year == anchor.year,
        Timeslice::Once => !today.precedes(&anchor),
    }
}

/// Whether an event with this interval leaves the queue once announced.
pub open spec fn leaves_after_firing(interval: Timeslice) -> bool {
    interval == Timeslice::Once
}

/// The decision for an event with this interval and anchor date.
pub open spec fn decision(
    interval: Timeslice,
    anchor: EventDate,
    today: EventDate,
    days_apart: int,
) -> Firing {
    if !fires_on(interval, anchor, today, days_apart) {
        Firing::Skip
    } else if leaves_after_firing(interval) {
        Firing::FireAndRemove
    } else {
        Firing::Fire
    }
}

/// Whether `days` is a whole number of weeks, in either direction.
pub fn whole_weeks(days: i64) -> (whole: bool)
    ensures
        whole == (days % 7 == 0),
{
    if days >= 0 {
        days % 7 == 0
    } else {
        let back: i64 = -(days + 1);
        (back % 7) == 6
    }
}

/// Decides for an event with this interval and anchor date, given the
/// number of days between the anchor and today.
pub fn evaluate(interval: Timeslice, anchor: &EventDate, today: &EventDate, days_apart: i64) -> (d:
    Firing)
    ensures
        d == decision(interval, *anchor, *today, days_apart as int),
{
    match interval {
        Timeslice::Daily => Firing::Fire,
        Timeslice::Weekly => {
            if whole_weeks(days_apart) {
                Firing::Fire
            } else {
                Firing::Skip
            }
        },
        Timeslice::Monthly => {
            if today.month == anchor.month {
                Firing::Fire
            } else {
                Firing::Skip
            }
        },
        Timeslice::Yearly => {
            if today.year == anchor.year {
                Firing::Fire
            } else {
                Firing::Skip
            }
        },
        Timeslice::Once => {
            if today.is_before(anchor) {
                Firing::Skip
            } else {
                Firing::FireAndRemove
            }
        },
    }
}

/// Decides for an event with this interval and anchor date on `today`. For
/// a weekly event the days between the two dates are counted by the
/// calendar; no other interval looks at them.
pub fn evaluate_on(interval: Timeslice, anchor: &EventDate, today: &EventDate) -> (d: Firing)
    requires
        interval == Timeslice::Weekly ==> anchor.wf() && today.wf(),
    ensures
        d == decision(interval, *anchor, *today, today.days_since(anchor)),
{
    let days_apart: i64 = match interval {
        Timeslice::Weekly => days_from(today, anchor),
        _ => 0,
    };
    evaluate(interval, anchor, today, days_apart)
}

/// A weekly event is announced exactly on the days a whole number of weeks
/// from its anchor, and stays in the queue.
pub proof fn lemma_weekly(anchor: EventDate, today: EventDate, days_apart: int)
    ensures
        decision(Timeslice::Weekly, anchor, today, days_apart) == if days_apart % 7 == 0 {
            Firing::Fire
        } else {
            Firing::Skip
        },
{
}

/// A one-time event whose anchor is today or lies in the past is announced
/// and leaves the queue, however many days have passed.
pub proof fn lemma_once_overdue(anchor: EventDate, today: EventDate, days_apart: int)
    requires
        anchor == today || anchor.precedes(&today),
    ensures
        decision(Timeslice::Once, anchor, today, days_apart) == Firing::FireAndRemove,
{
}

} // verus!
