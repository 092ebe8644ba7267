use gh_chk::contrib::{
    contribution_totals, day_number, parse_date, weekday_from_sunday, window_average,
    ContributionCell, Date,
};

fn date(year: u16, month: u8, day: u8) -> Date {
    Date { year, month, day }
}

#[test]
fn weekday_matches_known_dates() {
    // 1970-01-01 was a Thursday, 2026-10-11 a Sunday, 2026-10-07 a Wednesday.
    assert_eq!(weekday_from_sunday(&date(1970, 1, 1)), 4);
    assert_eq!(weekday_from_sunday(&date(2026, 10, 11)), 0);
    assert_eq!(weekday_from_sunday(&date(2026, 10, 7)), 3);
}

#[test]
fn day_numbers_are_consecutive_across_month_ends() {
    assert_eq!(day_number(&date(2026, 10, 1)) - day_number(&date(2026, 9, 30)), 1);
    assert_eq!(day_number(&date(2025, 1, 1)) - day_number(&date(2024, 12, 31)), 1);
    assert_eq!(day_number(&date(2024, 3, 1)) - day_number(&date(2024, 2, 29)), 1);
}

#[test]
fn future_dated_cells_count_toward_no_window() {
    let today = date(2026, 10, 7);
    let cells = vec![
        ContributionCell { date: date(2026, 10, 7), count: 5 },
        ContributionCell { date: date(2026, 10, 6), count: 3 },
        ContributionCell { date: date(2026, 10, 8), count: 100 },
    ];
    let totals = contribution_totals(&cells, &today);
    assert_eq!(totals.week_sum, 8);
    assert_eq!(totals.month_sum, 8);
    assert_eq!(totals.year_sum, 8);
    assert_eq!(totals.week_days, 2);
    assert_eq!(totals.month_days, 2);
    assert_eq!(totals.year_days, 2);
}

#[test]
fn windows_respect_week_month_and_year_boundaries() {
    // 2026-10-07 is a Wednesday; the week-to-date window starts on Sunday
    // 2026-10-04.
    let today = date(2026, 10, 7);
    let cells = vec![
        ContributionCell { date: date(2026, 10, 4), count: 2 },
        ContributionCell { date: date(2026, 10, 3), count: 4 },
        ContributionCell { date: date(2026, 9, 30), count: 7 },
        ContributionCell { date: date(2025, 12, 31), count: 11 },
    ];
    let totals = contribution_totals(&cells, &today);
    assert_eq!(totals.week_sum, 2);
    assert_eq!(totals.week_days, 1);
    assert_eq!(totals.month_sum, 6);
    assert_eq!(totals.month_days, 2);
    assert_eq!(totals.year_sum, 13);
    assert_eq!(totals.year_days, 3);
}

#[test]
fn average_is_zero_without_days() {
    assert_eq!(window_average(0, 0), 0);
    assert_eq!(window_average(9, 0), 0);
    assert_eq!(window_average(9, 2), 4);
    assert_eq!(window_average(8, 2), 4);
}

#[test]
fn parse_date_accepts_calendar_days_only() {
    assert_eq!(parse_date("2026-10-07"), Some(date(2026, 10, 7)));
    assert_eq!(parse_date("2024-02-29"), Some(date(2024, 2, 29)));
    assert_eq!(parse_date("2026-02-29"), None);
    assert_eq!(parse_date("2026-13-01"), None);
    assert_eq!(parse_date("2026-00-10"), None);
    assert_eq!(parse_date("2026-10-00"), None);
    assert_eq!(parse_date("0000-10-01"), None);
}

#[test]
fn parse_date_rejects_malformed_strings() {
    assert_eq!(parse_date(""), None);
    assert_eq!(parse_date("20261007"), None);
    assert_eq!(parse_date("2026-10-7"), None);
    assert_eq!(parse_date("2026/10/07"), None);
    assert_eq!(parse_date("2026-10-0a"), None);
    assert_eq!(parse_date("2026-10-07T12:00:00Z"), None);
}
