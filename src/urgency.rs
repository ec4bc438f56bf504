//! How close a deadline is: the buckets into which incomplete tasks fall.

use crate::date::{date_of_text, day_number, CalendarDate};
use vstd::prelude::*;

verus! {

/// The days left from which a deadline is on track.
pub const ON_TRACK_DAYS: i64 = 7;

#[derive(Clone, Copy, Debug, PartialEq, Eq, Structural)]
pub enum Urgency {
    /// Seven days or more remain.
    OnTrack,
    /// One to six days remain.
    Approaching,
    /// The deadline is today.
    DueToday,
    /// The deadline has passed.
    Overdue,
}

/// The bucket of a deadline that lies `days` days ahead (behind, if negative).
pub open spec fn urgency_for(days: int) -> Urgency {
    if days >= ON_TRACK_DAYS {
        Urgency::OnTrack
    } else if days > 0 {
        Urgency::Approaching
    } else if days == 0 {
        Urgency::DueToday
    } else {
        Urgency::Overdue
    }
}

/// The bucket of a deadline text seen on `today`; `None` where the text is no
/// real date, as the `0000-00-00` of a task without deadline is not.
pub open spec fn deadline_urgency_of(deadline: Seq<char>, today: CalendarDate) -> Option<Urgency> {
    match date_of_text(deadline) {
        Some(d) => Some(urgency_for(d.day_count() - today.day_count())),
        None => None,
    }
}

/// The bucket of a deadline that lies `days` days ahead.
pub fn urgency_of_days(days: i64) -> (r: Urgency)
    ensures
        r == urgency_for(days as int),
{
    if days >= ON_TRACK_DAYS {
        Urgency::OnTrack
    } else if days > 0 {
        Urgency::Approaching
    } else if days == 0 {
        Urgency::DueToday
    } else {
        Urgency::Overdue
    }
}

/// The signed number of days from `reference` to `deadline`.
pub fn days_until(deadline: CalendarDate, reference: CalendarDate) -> (r: i64)
    requires
        deadline.wf(),
        reference.wf(),
    ensures
        r as int == deadline.day_count() - reference.day_count(),
{
    let a = day_number(&deadline);
    let b = day_number(&reference);
    a as i64 - b as i64
}

/// The bucket of a deadline text seen on `today`, as `deadline_urgency_of` says.
pub fn deadline_urgency(deadline: &str, today: CalendarDate) -> (r: Option<Urgency>)
    requires
        today.wf(),
    ensures
        r == deadline_urgency_of(deadline@, today),
{
    match CalendarDate::parse(deadline) {
        Some(d) => Some(urgency_of_days(days_until(d, today))),
        None => None,
    }
}

/// How many tasks stand in each bucket.
#[derive(Clone, Copy, Debug, PartialEq, Eq, Structural)]
pub struct UrgencyCounts {
    pub on_track: usize,
    pub approaching: usize,
    pub due_today: usize,
    pub overdue: usize,
}

} // verus!
