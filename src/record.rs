//! The data the formatter works on: one record per directory entry, its
//! modification time, and the listing options.

use vstd::prelude::*;

verus! {

/// The earliest year that the calendar code accepts.
pub const MIN_YEAR: i32 = -262143;
/// The latest year that the calendar code accepts.
pub const MAX_YEAR: i32 = 262142;

/// A leap year of the proleptic Gregorian calendar.
pub open spec fn is_leap_year(year: int) -> bool {
    (year % 4 == 0 && year % 100 != 0) || year % 400 == 0
}

/// The number of days in `month` (1 to 12) of `year`.
pub open spec fn days_in_month(year: int, month: int) -> int {
    if month == 2 {
        if is_leap_year(year) { 29 } else { 28 }
    } else if month == 4 || month == 6 || month == 9 || month == 11 {
        30
    } else {
        31
    }
}

/// A wall-clock time in the local time zone, to the minute.
#[derive(Clone, Copy, Debug, PartialEq, Eq, Structural)]
pub struct LocalTime {
    pub year: i32,
    pub month: u32,
    pub day: u32,
    pub hour: u32,
    pub minute: u32,
}

impl LocalTime {
    /// The fields name a real minute of a real day.
    pub open spec fn wf(&self) -> bool {
        &&& MIN_YEAR <= self.year <= MAX_YEAR
        &&& 1 <= self.month <= 12
        &&& 1 <= self.day <= days_in_month(self.year as int, self.month as int)
        &&& self.hour < 24
        &&& self.minute < 60
    }

    /// Makes a time from its fields, or `None` where they name no real minute.
    pub fn new(year: i32, month: u32, day: u32, hour: u32, minute: u32) -> (r: Option<LocalTime>)
        ensures
            r matches Some(t) ==> t.wf() && t == (LocalTime { year, month, day, hour, minute }),
            r is None ==> !(LocalTime { year, month, day, hour, minute }).wf(),
    {
        if year < MIN_YEAR || year > MAX_YEAR || month < 1 || month > 12 || hour >= 24 || minute >= 60 {
            return None;
        }
        // Shifting by a multiple of 400 keeps every divisibility test and makes the year positive.
        let y: i64 = year as i64 + 400000;
        let leap = (y % 4 == 0 && y % 100 != 0) || y % 400 == 0;
        assert(leap == is_leap_year(year as int)) by (nonlinear_arith)
            requires
                y == year + 400000,
                leap == ((y % 4 == 0 && y % 100 != 0) || y % 400 == 0),
        {
        }
        let days: u32 = if month == 2 {
            if leap { 29 } else { 28 }
        } else if month == 4 || month == 6 || month == 9 || month == 11 {
            30
        } else {
            31
        };
        if day < 1 || day > days {
            return None;
        }
        Some(LocalTime { year, month, day, hour, minute })
    }
}

/// One directory entry, as read from the file system.
#[derive(Clone, Debug)]
pub struct DirEntryRecord {
    /// The entry's name; it holds no path separator.
    pub name: String,
    pub is_directory: bool,
    pub size_bytes: u64,
    pub modified: LocalTime,
    /// The Unix mode bits.
    pub permission_bits: u32,
}

/// The listing options.
#[derive(Clone, Debug)]
pub struct RsArgs {
    /// The directory to list.
    pub dir: String,
    /// Show the detailed one-line-per-entry report.
    pub long: bool,
    /// Include hidden entries (names that begin with a dot).
    pub all: bool,
    /// Put every entry on a line of its own.
    pub force_col: bool,
}

} // verus!
