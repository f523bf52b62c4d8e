//! Calendar dates in the proleptic Gregorian calendar, held as plain
//! year/month/day fields so that every rule about them can be verified.

use vstd::prelude::*;

verus! {

/// A calendar date (no time component).
#[derive(Clone, Copy, PartialEq, Eq, Structural, Debug)]
pub struct Date {
    pub year: i32,
    pub month: u8,
    pub day: u8,
}

pub open spec fn is_leap_year(y: int) -> bool {
    y % 4 == 0 && (y % 100 != 0 || y % 400 == 0)
}

pub open spec fn days_in_month(y: int, m: int) -> int {
    if m == 2 {
        if is_leap_year(y) {
            29
        } else {
            28
        }
    } else if m == 4 || m == 6 || m == 9 || m == 11 {
        30
    } else {
        31
    }
}

/// Year/month/day form a real calendar date (any year).
pub open spec fn civil_wf(y: int, m: int, d: int) -> bool {
    1 <= m <= 12 && 1 <= d <= days_in_month(y, m)
}

impl Date {
    /// A real calendar date within the span the wire format carries
    /// (four-digit years).
    pub open spec fn wf(self) -> bool {
        1 <= self.year <= 9999 && civil_wf(self.year as int, self.month as int, self.day as int)
    }

    /// Calendar order: by year, then month, then day.
    pub open spec fn spec_le(self, o: Date) -> bool {
        self.year < o.year || (self.year == o.year && (self.month < o.month || (self.month
            == o.month && self.day <= o.day)))
    }

    pub open spec fn spec_lt(self, o: Date) -> bool {
        self.spec_le(o) && self != o
    }

    /// True when `self` is on or before `o` in calendar order.
    pub fn le(&self, o: &Date) -> (r: bool)
        ensures
            r == self.spec_le(*o),
    {
        self.year < o.year || (self.year == o.year && (self.month < o.month || (self.month
            == o.month && self.day <= o.day)))
    }
}

/// The earliest date the library works with.
pub open spec fn min_date() -> Date {
    Date { year: 1, month: 1, day: 1 }
}

/// The latest date the library works with.
pub open spec fn max_date() -> Date {
    Date { year: 9999, month: 12, day: 31 }
}

pub open spec fn spec_next_day(d: Date) -> Date {
    if d.day < days_in_month(d.year as int, d.month as int) {
        Date { year: d.year, month: d.month, day: (d.day + 1) as u8 }
    } else if d.month < 12 {
        Date { year: d.year, month: (d.month + 1) as u8, day: 1 }
    } else {
        Date { year: (d.year + 1) as i32, month: 1, day: 1 }
    }
}

pub open spec fn spec_prev_day(d: Date) -> Date {
    if d.day > 1 {
        Date { year: d.year, month: d.month, day: (d.day - 1) as u8 }
    } else if d.month > 1 {
        Date {
            year: d.year,
            month: (d.month - 1) as u8,
            day: days_in_month(d.year as int, d.month as int - 1) as u8,
        }
    } else {
        Date { year: (d.year - 1) as i32, month: 12, day: 31 }
    }
}

fn days_in_month_exec(y: i32, m: u8) -> (r: u8)
    requires
        1 <= y,
        1 <= m <= 12,
    ensures
        r as int == days_in_month(y as int, m as int),
{
    if m == 2 {
        if y % 4 == 0 && (y % 100 != 0 || y % 400 == 0) {
            29
        } else {
            28
        }
    } else if m == 4 || m == 6 || m == 9 || m == 11 {
        30
    } else {
        31
    }
}

impl Date {
    /// The following calendar day.
    pub fn next_day(&self) -> (r: Date)
        requires
            self.wf(),
            *self != max_date(),
        ensures
            r == spec_next_day(*self),
            r.wf(),
            self.spec_lt(r),
    {
        let dim = days_in_month_exec(self.year, self.month);
        if self.day < dim {
            Date { year: self.year, month: self.month, day: self.day + 1 }
        } else if self.month < 12 {
            Date { year: self.year, month: self.month + 1, day: 1 }
        } else {
            Date { year: self.year + 1, month: 1, day: 1 }
        }
    }

    /// The preceding calendar day.
    pub fn prev_day(&self) -> (r: Date)
        requires
            self.wf(),
            *self != min_date(),
        ensures
            r == spec_prev_day(*self),
            r.wf(),
            r.spec_lt(*self),
    {
        if self.day > 1 {
            Date { year: self.year, month: self.month, day: self.day - 1 }
        } else if self.month > 1 {
            let dim = days_in_month_exec(self.year, self.month - 1);
            Date { year: self.year, month: self.month - 1, day: dim }
        } else {
            Date { year: self.year - 1, month: 12, day: 31 }
        }
    }
}

} // verus!
