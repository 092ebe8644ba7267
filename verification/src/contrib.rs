//! Contribution statistics: calendar dates, the day-number arithmetic
//! behind weekday and window computations, and the year-, month- and
//! week-to-date totals over a calendar of daily counts.

use vstd::prelude::*;

verus! {

/// A calendar date in the proleptic Gregorian calendar, year 1 through
/// 9999.
#[derive(Debug, Clone, Copy, PartialEq, Eq, Structural)]
pub struct Date {
    pub year: u16,
    pub month: u8,
    pub day: u8,
}

/// Whether `y` is a leap year.
pub open spec fn is_leap_year(y: int) -> bool {
    y % 4 == 0 && (y % 100 != 0 || y % 400 == 0)
}

/// Days in a month of a given year.
pub open spec fn days_in_month(y: int, m: int) -> int {
    if m == 2 {
        if is_leap_year(y) {
            29
        } else {
            28
        }
    } else if m == 4 || m == 6 || m == 9 || m == 11 {
        30
    } else {
        31
    }
}

impl Date {
    /// A valid calendar date.
    pub open spec fn wf(self) -> bool {
        &&& 1 <= self.year <= 9999
        &&& 1 <= self.month <= 12
        &&& 1 <= self.day <= days_in_month(self.year as int, self.month as int)
    }
}

/// The date's day number: days since the reference day (the first of March
/// of year zero), counted in the proleptic Gregorian calendar.
pub open spec fn day_number_of(d: Date) -> int {
    let y: int = if d.month <= 2 {
        d.year - 1
    } else {
        d.year as int
    };
    let era: int = y / 400;
    let yoe: int = y - era * 400;
    let mp: int = if d.month > 2 {
        d.month - 3
    } else {
        d.month + 9
    };
    let doy: int = (153 * mp + 2) / 5 + d.day - 1;
    let doe: int = yoe * 365 + yoe / 4 - yoe / 100 + doy;
    era * 146097 + doe
}

/// The date's weekday, counted from Sunday as zero.
pub open spec fn weekday_from_sunday_of(d: Date) -> int {
    (day_number_of(d) + 3) % 7
}

/// Computes the day number of a valid date.
pub fn day_number(d: &Date) -> (r: u64)
    requires
        d.wf(),
    ensures
        r == day_number_of(*d),
        r >= 306,
{
    let y: u64 = if d.month <= 2 {
        (d.year - 1) as u64
    } else {
        d.year as u64
    };
    let era: u64 = y / 400;
    let yoe: u64 = y - era * 400;
    let mp: u64 = if d.month > 2 {
        (d.month - 3) as u64
    } else {
        (d.month + 9) as u64
    };
    let doy: u64 = (153 * mp + 2) / 5 + d.day as u64 - 1;
    let doe: u64 = yoe * 365 + yoe / 4 - yoe / 100 + doy;
    proof {
        assert(era <= 25 && yoe <= 399) by {
            assert(y <= 9999);
            assert(era == y / 400);
            assert(y / 400 <= 25) by (nonlinear_arith)
                requires
                    y <= 9999,
            ;
            assert(yoe == y % 400) by (nonlinear_arith)
                requires
                    era == y / 400,
                    yoe == y - era * 400,
            ;
        }
        assert(mp <= 11 && doy <= 365);
        assert(yoe / 4 >= yoe / 100) by (nonlinear_arith)
            requires
                yoe >= 0,
        ;
        if d.month <= 2 {
            assert(mp >= 10);
            assert(doy >= 306);
        } else {
            assert(y >= 1);
            if era >= 1 {
                assert(era * 146097 >= 146097);
            } else {
                assert(yoe == y);
                assert(yoe * 365 >= 365);
            }
        }
    }
    era * 146097 + doe
}

/// Computes the weekday of a valid date, Sunday as zero.
pub fn weekday_from_sunday(d: &Date) -> (r: u64)
    requires
        d.wf(),
    ensures
        r == weekday_from_sunday_of(*d),
        r <= 6,
{
    (day_number(d) + 3) % 7
}

/// Whether a cell's date counts toward the year-to-date window: same
/// calendar year and not after today.
pub open spec fn in_year_window(c: Date, today: Date) -> bool {
    c.year == today.year && day_number_of(c) <= day_number_of(today)
}

/// Whether a cell's date counts toward the month-to-date window: same
/// calendar year and month and not after today.
pub open spec fn in_month_window(c: Date, today: Date) -> bool {
    c.year == today.year && c.month == today.month && day_number_of(c) <= day_number_of(today)
}

/// Whether a cell's date counts toward the week-to-date window: on or after
/// the most recent Sunday and not after today.
pub open spec fn in_week_window(c: Date, today: Date) -> bool {
    &&& day_number_of(today) - weekday_from_sunday_of(today) <= day_number_of(c)
    &&& day_number_of(c) <= day_number_of(today)
}

/// One day's cell of the contribution calendar.
#[derive(Debug, Clone, Copy, PartialEq, Eq, Structural)]
pub struct ContributionCell {
    pub date: Date,
    pub count: u32,
}

/// Sum of the counts of the cells inside a window.
pub open spec fn window_sum(
    cells: Seq<ContributionCell>,
    today: Date,
    in_window: spec_fn(Date, Date) -> bool,
) -> int
    decreases cells.len(),
{
    if cells.len() == 0 {
        0
    } else {
        window_sum(cells.drop_last(), today, in_window) + (
        if in_window(cells.last().date, today) {
            cells.last().count as int
        } else {
            0
        })
    }
}

/// Number of cells inside a window.
pub open spec fn window_days(
    cells: Seq<ContributionCell>,
    today: Date,
    in_window: spec_fn(Date, Date) -> bool,
) -> int
    decreases cells.len(),
{
    if cells.len() == 0 {
        0
    } else {
        window_days(cells.drop_last(), today, in_window) + (
        if in_window(cells.last().date, today) {
            1int
        } else {
            0
        })
    }
}

/// Running sums and day counts for the year-, month- and week-to-date
/// windows relative to a given today.
#[derive(Debug, Clone, Copy, PartialEq, Eq, Structural)]
pub struct ContributionTotals {
    pub year_sum: u64,
    pub year_days: u64,
    pub month_sum: u64,
    pub month_days: u64,
    pub week_sum: u64,
    pub week_days: u64,
}

/// Computes the three to-date windows over a calendar of cells. Cells dated
/// after today — the padding of a calendar grid — count toward none of
/// them.
pub fn contribution_totals(cells: &Vec<ContributionCell>, today: &Date) -> (r: ContributionTotals)
    requires
        today.wf(),
        forall|i: int| 0 <= i < cells@.len() ==> (#[trigger] cells@[i]).date.wf(),
        cells@.len() <= 0x1_0000_0000,
    ensures
        r.year_sum == window_sum(cells@, *today, |c: Date, t: Date| in_year_window(c, t)),
        r.year_days == window_days(cells@, *today, |c: Date, t: Date| in_year_window(c, t)),
        r.month_sum == window_sum(cells@, *today, |c: Date, t: Date| in_month_window(c, t)),
        r.month_days == window_days(cells@, *today, |c: Date, t: Date| in_month_window(c, t)),
        r.week_sum == window_sum(cells@, *today, |c: Date, t: Date| in_week_window(c, t)),
        r.week_days == window_days(cells@, *today, |c: Date, t: Date| in_week_window(c, t)),
{
    let today_dn = day_number(today);
    let week_start = today_dn - weekday_from_sunday(today);
    let mut year_sum: u64 = 0;
    let mut year_days: u64 = 0;
    let mut month_sum: u64 = 0;
    let mut month_days: u64 = 0;
    let mut week_sum: u64 = 0;
    let mut week_days: u64 = 0;
    let mut i: usize = 0;
    while i < cells.len()
        invariant
            i <= cells@.len(),
            cells@.len() <= 0x1_0000_0000,
            today.wf(),
            forall|j: int| 0 <= j < cells@.len() ==> (#[trigger] cells@[j]).date.wf(),
            today_dn == day_number_of(*today),
            week_start == day_number_of(*today) - weekday_from_sunday_of(*today),
            year_sum == window_sum(
                cells@.take(i as int),
                *today,
                |c: Date, t: Date| in_year_window(c, t),
            ),
            year_days == window_days(
                cells@.take(i as int),
                *today,
                |c: Date, t: Date| in_year_window(c, t),
            ),
            month_sum == window_sum(
                cells@.take(i as int),
                *today,
                |c: Date, t: Date| in_month_window(c, t),
            ),
            month_days == window_days(
                cells@.take(i as int),
                *today,
                |c: Date, t: Date| in_month_window(c, t),
            ),
            week_sum == window_sum(
                cells@.take(i as int),
                *today,
                |c: Date, t: Date| in_week_window(c, t),
            ),
            week_days == window_days(
                cells@.take(i as int),
                *today,
                |c: Date, t: Date| in_week_window(c, t),
            ),
            year_sum <= i * 0xFFFF_FFFF,
            month_sum <= i * 0xFFFF_FFFF,
            week_sum <= i * 0xFFFF_FFFF,
            year_days <= i,
            month_days <= i,
            week_days <= i,
        decreases cells@.len() - i,
    {
        let cell = &cells[i];
        let cell_dn = day_number(&cell.date);
        proof {
            assert((i + 1) * 0xFFFF_FFFF == i * 0xFFFF_FFFF + 0xFFFF_FFFF) by (nonlinear_arith);
            assert(cells@.len() * 0xFFFF_FFFF <= 0x1_0000_0000 * 0xFFFF_FFFF) by (nonlinear_arith)
                requires
                    cells@.len() <= 0x1_0000_0000,
            ;
            assert(i * 0xFFFF_FFFF <= cells@.len() * 0xFFFF_FFFF) by (nonlinear_arith)
                requires
                    i < cells@.len(),
            ;
            assert(cells@.take(i + 1).drop_last() =~= cells@.take(i as int));
            assert(cells@.take(i + 1).last() == cells@[i as int]);
        }
        if cell.date.year == today.year && cell_dn <= today_dn {
            year_sum = year_sum + cell.count as u64;
            year_days = year_days + 1;
            if cell.date.month == today.month {
                month_sum = month_sum + cell.count as u64;
                month_days = month_days + 1;
            }
        } else {
            proof {
                assert(!in_year_window(cell.date, *today));
                assert(!in_month_window(cell.date, *today));
            }
        }
        if week_start <= cell_dn && cell_dn <= today_dn {
            week_sum = week_sum + cell.count as u64;
            week_days = week_days + 1;
        }
        i += 1;
    }
    proof {
        assert(cells@.take(cells@.len() as int) =~= cells@);
    }
    ContributionTotals { year_sum, year_days, month_sum, month_days, week_sum, week_days }
}

/// The average over a window: the sum divided by the day count, zero when
/// no days were counted.
pub fn window_average(sum: u64, days: u64) -> (r: u64)
    ensures
        r == if days == 0 {
            0int
        } else {
            sum as int / days as int
        },
{
    if days == 0 {
        0
    } else {
        sum / days
    }
}

/// The numeric value of a decimal digit character; ten for any other
/// character.
pub open spec fn dec_digit_val(c: char) -> int {
    let u = c as u32;
    if '0' as u32 <= u <= '9' as u32 {
        u - '0' as u32
    } else {
        10
    }
}

/// Whether `s` has the shape of a calendar date, `yyyy-mm-dd`, with field
/// values that make a valid date.
pub open spec fn date_string_fields(s: Seq<char>) -> Option<Date> {
    if s.len() == 10 && s[4] == '-' && s[7] == '-' && (forall|i: int|
        (0 <= i < 4 || i == 5 || i == 6 || i == 8 || i == 9) ==> dec_digit_val(#[trigger] s[i])
            < 10) {
        let y = 1000 * dec_digit_val(s[0]) + 100 * dec_digit_val(s[1]) + 10 * dec_digit_val(s[2])
            + dec_digit_val(s[3]);
        let m = 10 * dec_digit_val(s[5]) + dec_digit_val(s[6]);
        let d = 10 * dec_digit_val(s[8]) + dec_digit_val(s[9]);
        let date = Date { year: y as u16, month: m as u8, day: d as u8 };
        if date.wf() {
            Some(date)
        } else {
            None
        }
    } else {
        None
    }
}

fn dec_digit(c: char) -> (v: u32)
    ensures
        v == dec_digit_val(c),
{
    let u = c as u32;
    if u >= '0' as u32 && u <= '9' as u32 {
        u - '0' as u32
    } else {
        10
    }
}

/// Parses a `yyyy-mm-dd` string into a valid date, rejecting anything of
/// another shape and any field combination that names no calendar day.
pub fn parse_date(s: &str) -> (r: Option<Date>)
    ensures
        r == date_string_fields(s@),
        r matches Some(d) ==> d.wf(),
{
    if s.unicode_len() != 10 {
        return None;
    }
    if s.get_char(4) != '-' || s.get_char(7) != '-' {
        return None;
    }
    let d0 = dec_digit(s.get_char(0));
    let d1 = dec_digit(s.get_char(1));
    let d2 = dec_digit(s.get_char(2));
    let d3 = dec_digit(s.get_char(3));
    let d5 = dec_digit(s.get_char(5));
    let d6 = dec_digit(s.get_char(6));
    let d8 = dec_digit(s.get_char(8));
    let d9 = dec_digit(s.get_char(9));
    if d0 >= 10 || d1 >= 10 || d2 >= 10 || d3 >= 10 || d5 >= 10 || d6 >= 10 || d8 >= 10 || d9
        >= 10 {
        proof {
            assert(date_string_fields(s@) is None);
        }
        return None;
    }
    let year = (1000 * d0 + 100 * d1 + 10 * d2 + d3) as u16;
    let month = (10 * d5 + d6) as u8;
    let day = (10 * d8 + d9) as u8;
    let date = Date { year, month, day };
    let leap = (year % 4 == 0) && (year % 100 != 0 || year % 400 == 0);
    let dim: u8 = if month == 2 {
        if leap {
            29
        } else {
            28
        }
    } else if month == 4 || month == 6 || month == 9 || month == 11 {
        30
    } else {
        31
    };
    if 1 <= year && 1 <= month && month <= 12 && 1 <= day && day <= dim {
        Some(date)
    } else {
        None
    }
}

} // verus!
