//! Calendar dates and instants, held as plain numbers.
use vstd::prelude::*;
use chrono::{Datelike, Local, NaiveDate};

verus! {

/// A calendar date with no time of day, held as its day number in the
/// proleptic Gregorian calendar (0001-01-01 is day 1).
#[derive(Clone, Copy, Debug, PartialEq, Eq, Structural)]
pub struct Date {
    pub day: i32,
}

/// An instant, in whole seconds and nanoseconds since the Unix epoch.
#[derive(Clone, Copy, Debug, PartialEq, Eq, Structural)]
pub struct Timestamp {
    pub secs: i64,
    pub nanos: u32,
}

/// The day number of the date that a `YYYY-MM-DD` text names, if it names one.
pub uninterp spec fn date_parsed(s: Seq<char>) -> Option<int>;

impl Date {
    /// Whole days from `from` to `self`: negative when `self` lies before.
    pub open spec fn days_since(self, from: Date) -> int {
        self.day - from.day
    }

    pub fn days_until(self, today: Date) -> (r: i64)
        ensures
            r == self.days_since(today),
    {
        self.day as i64 - today.day as i64
    }
}

/// How near a due date is, for display.
#[derive(Clone, Copy, Debug, PartialEq, Eq, Structural)]
pub enum Proximity {
    Overdue,
    Today,
    Tomorrow,
    /// Due in two or three days.
    Soon,
    /// Due in four to seven days.
    ThisWeek,
    Later,
}

/// The proximity of a due date `days` days away.
pub open spec fn proximity_of(days: int) -> Proximity {
    if days < 0 {
        Proximity::Overdue
    } else if days == 0 {
        Proximity::Today
    } else if days == 1 {
        Proximity::Tomorrow
    } else if days <= 3 {
        Proximity::Soon
    } else if days <= 7 {
        Proximity::ThisWeek
    } else {
        Proximity::Later
    }
}

pub fn proximity(days: i64) -> (r: Proximity)
    ensures
        r == proximity_of(days as int),
{
    if days < 0 {
        Proximity::Overdue
    } else if days == 0 {
        Proximity::Today
    } else if days == 1 {
        Proximity::Tomorrow
    } else if days <= 3 {
        Proximity::Soon
    } else if days <= 7 {
        Proximity::ThisWeek
    } else {
        Proximity::Later
    }
}

/// Relies on chrono's `NaiveDate::parse_from_str` with the pattern
/// `%Y-%m-%d`, and on `Datelike::num_days_from_ce` for the day number: the
/// outcome depends on the text alone.
#[verifier::external_body]
pub(crate) fn parse_date(s: &str) -> (r: Option<Date>)
    ensures
        r is None <==> date_parsed(s@) is None,
        r matches Some(d) ==> date_parsed(s@) == Some(d.day as int),
{
    match NaiveDate::parse_from_str(s, "%Y-%m-%d") {
        Ok(d) => Some(Date { day: d.num_days_from_ce() }),
        Err(_) => None,
    }
}

/// Relies on chrono's `Local::now` and `DateTime::date_naive`: the current
/// local date.
#[verifier::external_body]
pub(crate) fn today() -> (r: Date) {
    Date { day: Local::now().date_naive().num_days_from_ce() }
}

/// Relies on chrono's `Local::now`: the current instant.
#[verifier::external_body]
pub(crate) fn now() -> (r: Timestamp) {
    let t = Local::now();
    Timestamp { secs: t.timestamp(), nanos: t.timestamp_subsec_nanos() }
}

} // verus!
