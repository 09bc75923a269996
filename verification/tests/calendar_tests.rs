use sometime::day_cell;
use sometime::days_in_month;
use sometime::is_leap_year;
use sometime::month_name;
use sometime::month_start_weekday;
use sometime::month_title;
use sometime::rows_needed;
use sometime::u32_to_string;
use sometime::weekday_name;
use sometime::CalendarLayout;

#[test]
fn february_leap_year() {
    assert_eq!(days_in_month(2024, 2), 29);
}

#[test]
fn february_common_year() {
    assert_eq!(days_in_month(2023, 2), 28);
}

#[test]
fn century_years() {
    assert!(!is_leap_year(1900));
    assert!(is_leap_year(2000));
    assert!(is_leap_year(0));
    assert!(!is_leap_year(-1));
    assert!(is_leap_year(-4));
    assert_eq!(days_in_month(1900, 2), 28);
    assert_eq!(days_in_month(2000, 2), 29);
}

#[test]
fn all_months_of_a_common_year() {
    let expected = [31, 28, 31, 30, 31, 30, 31, 31, 30, 31, 30, 31];
    for m in 1..=12u32 {
        assert_eq!(days_in_month(2023, m), expected[(m - 1) as usize]);
    }
}

#[test]
fn rows_for_wednesday_start_of_thirty_days() {
    assert_eq!(rows_needed(3, 30), 5);
}

#[test]
fn rows_bounds() {
    assert_eq!(rows_needed(0, 28), 4);
    assert_eq!(rows_needed(6, 31), 6);
    assert_eq!(rows_needed(0, 1), 1);
}

#[test]
fn day_cells_fill_left_to_right() {
    assert_eq!(day_cell(3, 1), (3, 0));
    assert_eq!(day_cell(3, 4), (6, 0));
    assert_eq!(day_cell(3, 5), (0, 1));
    assert_eq!(day_cell(3, 30), (4, 4));
}

#[test]
fn layout_of_the_default_side() {
    let l = CalendarLayout::layout_for(448);
    assert_eq!(l.padding, 14);
    assert_eq!(l.cell_w, 60);
    assert_eq!(l.cell_h, 42);
    assert_eq!(l.month_font, 30);
    assert_eq!(l.weekday_font, 24);
    assert_eq!(l.day_font, 30);
    assert_eq!(l.total_w, 448);
    assert_eq!(l.total_h, 366);
    assert_eq!(l.rect_x, 0);
    assert_eq!(l.rect_y, 41);
}

#[test]
fn layout_fits_small_canvas() {
    let l = CalendarLayout::layout_for(32);
    assert_eq!(l.padding, 1);
    assert_eq!(l.cell_w, 4);
    assert_eq!(l.cell_h, 3);
    assert!(l.total_w <= 32);
    assert!(l.total_h <= 32);
}

#[test]
fn decimal_rendering() {
    assert_eq!(u32_to_string(0), "0");
    assert_eq!(u32_to_string(7), "7");
    assert_eq!(u32_to_string(31), "31");
    assert_eq!(u32_to_string(2024), "2024");
}

#[test]
fn titles_and_names() {
    assert_eq!(month_title(2024, 3), "March 2024");
    assert_eq!(month_title(1999, 12), "December 1999");
    assert_eq!(month_title(-44, 3), "March -44");
    assert_eq!(month_title(0, 1), "January 0");
    assert_eq!(month_name(1), "January");
    assert_eq!(weekday_name(0), "Sun");
    assert_eq!(weekday_name(6), "Sat");
}

#[test]
fn weekday_of_known_month_starts() {
    // The first of January 2024 was a Monday.
    assert_eq!(month_start_weekday(2024, 1), 1);
    // The first of October 2023 was a Sunday.
    assert_eq!(month_start_weekday(2023, 10), 0);
    // The first of February 2025 was a Saturday.
    assert_eq!(month_start_weekday(2025, 2), 6);
}
