//! A wall-clock reading, and its text in the layout of the date block.
use chrono::NaiveDate;
use vstd::pervasive::unreached;
use vstd::prelude::*;

verus! {

/// The first year of the calendar that chrono can hold.
pub const MIN_YEAR: i32 = -262143;

/// The last year of the calendar that chrono can hold.
pub const MAX_YEAR: i32 = 262142;

/// The layout of the date block: month name, day of the month, weekday
/// name, and the time on a twelve-hour clock.
pub const DATE_LAYOUT: &'static str = "%b %d %a %I:%M %p";

/// Whether `year` has a 29th of February in the proleptic Gregorian calendar.
pub open spec fn is_leap_year(year: int) -> bool {
    year % 4 == 0 && (year % 100 != 0 || year % 400 == 0)
}

/// The number of days of a month, for `1 <= month <= 12`.
pub open spec fn days_in_month(year: int, month: int) -> int {
    if month == 2 {
        if is_leap_year(year) {
            29
        } else {
            28
        }
    } else if month == 4 || month == 6 || month == 9 || month == 11 {
        30
    } else {
        31
    }
}

/// Whether the fields name a day of the calendar and a second of that day.
pub open spec fn civil_valid(
    year: int,
    month: int,
    day: int,
    hour: int,
    minute: int,
    second: int,
) -> bool {
    &&& MIN_YEAR <= year <= MAX_YEAR
    &&& 1 <= month <= 12
    &&& 1 <= day <= days_in_month(year, month)
    &&& 0 <= hour < 24
    &&& 0 <= minute < 60
    &&& 0 <= second < 60
}

/// What chrono prints for the date and time of the fields in `layout`, or
/// `None` where chrono has no date and time for them.
pub uninterp spec fn chrono_text(
    layout: Seq<char>,
    year: int,
    month: int,
    day: int,
    hour: int,
    minute: int,
    second: int,
) -> Option<Seq<char>>;

/// The view of a text that may be missing.
pub open spec fn text_view(text: Option<String>) -> Option<Seq<char>> {
    match text {
        Some(t) => Some(t@),
        None => None,
    }
}

/// Prints a date and time with chrono's `NaiveDateTime::format`, in the
/// layout of the date block.
///
/// The value that is printed is made from the fields with
/// `NaiveDate::from_ymd_opt` and `NaiveDate::and_hms_opt`. Not proved, and
/// taken from chrono: the two give a value exactly for the days of the
/// calendar between `MIN_YEAR` and `MAX_YEAR` and the seconds of a day
/// without leap second; and the text depends on the fields and the layout
/// alone. Only the layout of the date block is admitted, which chrono
/// prints without error.
#[verifier::external_body]
fn chrono_format(
    layout: &str,
    year: i32,
    month: u32,
    day: u32,
    hour: u32,
    minute: u32,
    second: u32,
) -> (r: Option<String>)
    requires
        layout@ == DATE_LAYOUT@,
    ensures
        text_view(r) == chrono_text(
            layout@,
            year as int,
            month as int,
            day as int,
            hour as int,
            minute as int,
            second as int,
        ),
        r is Some <==> civil_valid(
            year as int,
            month as int,
            day as int,
            hour as int,
            minute as int,
            second as int,
        ),
{
    let date = NaiveDate::from_ymd_opt(year, month, day)?;
    let at = date.and_hms_opt(hour, minute, second)?;
    Some(at.format(layout).to_string())
}

/// A reading of a wall clock: a day of the calendar and a second of it.
#[derive(Debug, Clone, Copy, PartialEq, Eq)]
pub struct WallClock {
    year: i32,
    month: u32,
    day: u32,
    hour: u32,
    minute: u32,
    second: u32,
}

/// A wall-clock reading as the contracts see it.
pub struct Reading {
    pub year: int,
    pub month: int,
    pub day: int,
    pub hour: int,
    pub minute: int,
    pub second: int,
}

impl Reading {
    /// Whether the reading names a day of the calendar and a second of it.
    pub open spec fn valid(self) -> bool {
        civil_valid(self.year, self.month, self.day, self.hour, self.minute, self.second)
    }

    /// What chrono prints for the reading in the layout of the date block.
    pub open spec fn text(self) -> Seq<char> {
        chrono_text(
            DATE_LAYOUT@,
            self.year,
            self.month,
            self.day,
            self.hour,
            self.minute,
            self.second,
        ).unwrap()
    }
}

impl View for WallClock {
    type V = Reading;

    closed spec fn view(&self) -> Reading {
        Reading {
            year: self.year as int,
            month: self.month as int,
            day: self.day as int,
            hour: self.hour as int,
            minute: self.minute as int,
            second: self.second as int,
        }
    }
}

/// Whether `year` has a 29th of February.
fn leap_year(year: i32) -> (r: bool)
    requires
        MIN_YEAR <= year <= MAX_YEAR,
    ensures
        r == is_leap_year(year as int),
{
    // 262400 is a multiple of 400, so the shift keeps every remainder.
    let shifted: i32 = year + 262400;
    shifted % 4 == 0 && (shifted % 100 != 0 || shifted % 400 == 0)
}

/// The number of days of a month.
fn month_length(year: i32, month: u32) -> (r: u32)
    requires
        MIN_YEAR <= year <= MAX_YEAR,
        1 <= month <= 12,
    ensures
        r == days_in_month(year as int, month as int),
{
    if month == 2 {
        if leap_year(year) {
            29
        } else {
            28
        }
    } else if month == 4 || month == 6 || month == 9 || month == 11 {
        30
    } else {
        31
    }
}

impl WallClock {
    #[verifier::type_invariant]
    spec fn well_formed(self) -> bool {
        self@.valid()
    }

    /// The reading with these fields, if they name a day of the calendar
    /// and a second of it.
    pub fn new(year: i32, month: u32, day: u32, hour: u32, minute: u32, second: u32) -> (r: Option<
        WallClock,
    >)
        ensures
            r is Some <==> civil_valid(
                year as int,
                month as int,
                day as int,
                hour as int,
                minute as int,
                second as int,
            ),
            r matches Some(clock) ==> clock@ == (Reading {
                year: year as int,
                month: month as int,
                day: day as int,
                hour: hour as int,
                minute: minute as int,
                second: second as int,
            }),
    {
        if year < MIN_YEAR || year > MAX_YEAR || month < 1 || month > 12 {
            return None;
        }
        if day < 1 || day > month_length(year, month) {
            return None;
        }
        if hour >= 24 || minute >= 60 || second >= 60 {
            return None;
        }
        Some(WallClock { year, month, day, hour, minute, second })
    }

    /// The reading in the layout of the date block, as chrono prints it.
    pub fn text(&self) -> (r: String)
        ensures
            self@.valid(),
            r@ == self@.text(),
    {
        proof {
            use_type_invariant(self);
        }
        match chrono_format(
            DATE_LAYOUT,
            self.year,
            self.month,
            self.day,
            self.hour,
            self.minute,
            self.second,
        ) {
            Some(text) => text,
            None => unreached(),
        }
    }
}

} // verus!
