//! Calendar layout: pure functions from a side length to the month-grid
//! geometry, and from (year, month) to the month's length and row count.
//! All arithmetic is exact integer arithmetic with ceiling divisions
//! written as `(a + b - 1) / b`.

use vstd::prelude::*;
use vstd::string::StringExecFns;

use crate::canvas::in_rect;
use crate::canvas::pixel_is;
use crate::canvas::pixel_same;
use crate::canvas::Canvas;
use crate::text::TextItem;
use crate::theme::Bgra;
use crate::theme::Theme;

verus! {

/// A leap year of the proleptic Gregorian calendar: divisible by four,
/// except century years not divisible by four hundred.
pub open spec fn spec_is_leap_year(year: int) -> bool {
    (year % 4 == 0 && year % 100 != 0) || year % 400 == 0
}

/// The number of days of the given month by the calendar standard:
/// thirty-one for January, March, May, July, August, October and
/// December, thirty for April, June, September and November, and
/// twenty-eight or twenty-nine for February depending on leap years.
pub open spec fn spec_days_in_month(year: int, month: int) -> int {
    if month == 2 {
        if spec_is_leap_year(year) {
            29
        } else {
            28
        }
    } else if month == 4 || month == 6 || month == 9 || month == 11 {
        30
    } else {
        31
    }
}

/// Whether the year is a leap year.
pub fn is_leap_year(year: i32) -> (r: bool)
    ensures
        r == spec_is_leap_year(year as int),
{
    (year % 4 == 0 && year % 100 != 0) || year % 400 == 0
}

/// The number of days of the given month.
pub fn days_in_month(year: i32, month: u32) -> (r: u32)
    requires
        1 <= month <= 12,
    ensures
        r == spec_days_in_month(year as int, month as int),
        28 <= r <= 31,
{
    if month == 2 {
        if is_leap_year(year) {
            29
        } else {
            28
        }
    } else if month == 4 || month == 6 || month == 9 || month == 11 {
        30
    } else {
        31
    }
}

/// The number of grid rows a month needs: the ceiling of
/// `(start_weekday + days) / 7`.
pub open spec fn spec_rows_needed(start_weekday: int, days: int) -> int {
    (start_weekday + days + 6) / 7
}

/// How many grid rows the month needs, given the weekday of its first day
/// (Sunday is zero) and its number of days. Never more than six.
pub fn rows_needed(start_weekday: u32, days: u32) -> (r: u32)
    requires
        start_weekday < 7,
        1 <= days <= 31,
    ensures
        r == spec_rows_needed(start_weekday as int, days as int),
        1 <= r <= 6,
{
    (start_weekday + days + 6) / 7
}

/// The row count is exactly the ceiling of `(start_weekday + days) / 7`:
/// the rows cover every day, and the last row is not empty.
pub proof fn lemma_rows_needed_is_ceiling(start_weekday: int, days: int)
    requires
        0 <= start_weekday < 7,
        1 <= days <= 31,
    ensures
        7 * spec_rows_needed(start_weekday, days) >= start_weekday + days,
        7 * (spec_rows_needed(start_weekday, days) - 1) < start_weekday + days,
{
}

/// Every day of the month lies inside the rows the month was given: its
/// row index is below `rows_needed`.
pub proof fn lemma_days_fit_grid(start_weekday: int, days: int, day: int)
    requires
        0 <= start_weekday < 7,
        1 <= days <= 31,
        1 <= day <= days,
    ensures
        0 <= spec_day_row(start_weekday, day) < spec_rows_needed(start_weekday, days),
        0 <= spec_day_col(start_weekday, day) < 7,
{
}

/// Grid position of a day: days fill the grid left to right, top to
/// bottom, starting at the month's first weekday.
pub open spec fn spec_day_col(start_weekday: int, day: int) -> int {
    (start_weekday + day - 1) % 7
}

pub open spec fn spec_day_row(start_weekday: int, day: int) -> int {
    (start_weekday + day - 1) / 7
}

/// Column and row of the cell for the given day.
pub fn day_cell(start_weekday: u32, day: u32) -> (rc: (u32, u32))
    requires
        start_weekday < 7,
        1 <= day <= 31,
    ensures
        rc.0 == spec_day_col(start_weekday as int, day as int),
        rc.1 == spec_day_row(start_weekday as int, day as int),
        rc.0 < 7,
        rc.1 < 6,
{
    let pos: u32 = start_weekday + day - 1;
    (pos % 7, pos / 7)
}

/// The static geometry of the month grid on a square canvas. The grid has
/// seven columns and is sized for the largest possible row count, six, so
/// one background cache serves every month.
pub struct CalendarLayout {
    pub side: usize,
    /// Outer padding: the side length divided by thirty-two, rounded up.
    pub padding: usize,
    /// Width of one of the seven day columns.
    pub cell_w: usize,
    /// Height of one grid row: seven tenths of the cell width, rounded up.
    pub cell_h: usize,
    /// Height reserved for the month title line.
    pub month_h: usize,
    /// Width of the grid including its padding.
    pub total_w: usize,
    /// Height of title, weekday header and six rows, including padding.
    pub total_h: usize,
    /// Left edge of the grid, centered on the canvas.
    pub rect_x: usize,
    /// Top edge of the grid, centered on the canvas.
    pub rect_y: usize,
    /// Font size of the month title.
    pub month_font: usize,
    /// Font size of the weekday header labels.
    pub weekday_font: usize,
    /// Font size of the day numbers.
    pub day_font: usize,
}

pub open spec fn spec_padding(side: int) -> int {
    (side + 31) / 32
}

pub open spec fn spec_cell_w(side: int) -> int {
    (side - 2 * spec_padding(side)) / 7
}

pub open spec fn spec_cell_h(side: int) -> int {
    (7 * spec_cell_w(side) + 9) / 10
}

pub open spec fn spec_month_font(side: int) -> int {
    (spec_cell_w(side) + 1) / 2
}

pub open spec fn spec_weekday_font(side: int) -> int {
    (2 * spec_cell_w(side) + 4) / 5
}

impl CalendarLayout {
    /// The fields are exactly the layout formulas for `side`.
    pub open spec fn wf(self) -> bool {
        let side = self.side as int;
        &&& 32 <= side <= 1024
        &&& self.padding == spec_padding(side)
        &&& self.cell_w == spec_cell_w(side)
        &&& self.cell_h == spec_cell_h(side)
        &&& self.month_font == spec_month_font(side)
        &&& self.weekday_font == spec_weekday_font(side)
        &&& self.day_font == spec_month_font(side)
        &&& self.month_h == self.month_font
        &&& self.total_w == 7 * self.cell_w + 2 * self.padding
        &&& self.total_h == 3 * self.padding + self.month_h + 7 * self.cell_h
        &&& self.rect_x == (if self.total_w <= side {
            (side - self.total_w) / 2
        } else {
            0
        })
        &&& self.rect_y == (if self.total_h <= side {
            (side - self.total_h) / 2
        } else {
            0
        })
    }

    /// The unique well-formed layout of a given side.
    pub open spec fn spec_layout(side: int) -> CalendarLayout {
        let p = spec_padding(side);
        let cw = spec_cell_w(side);
        let ch = spec_cell_h(side);
        let mf = spec_month_font(side);
        let tw = 7 * cw + 2 * p;
        let th = 3 * p + mf + 7 * ch;
        CalendarLayout {
            side: side as usize,
            padding: p as usize,
            cell_w: cw as usize,
            cell_h: ch as usize,
            month_h: mf as usize,
            total_w: tw as usize,
            total_h: th as usize,
            rect_x: (if tw <= side {
                (side - tw) / 2
            } else {
                0
            }) as usize,
            rect_y: (if th <= side {
                (side - th) / 2
            } else {
                0
            }) as usize,
            month_font: mf as usize,
            weekday_font: spec_weekday_font(side) as usize,
            day_font: mf as usize,
        }
    }

    /// A well-formed layout is exactly `spec_layout` of its side.
    pub proof fn lemma_wf_layout_unique(l: CalendarLayout)
        requires
            l.wf(),
        ensures
            l == CalendarLayout::spec_layout(l.side as int),
    {
        let side = l.side as int;
        assert(32 * ((side + 31) / 32) <= side + 31);
        assert(0 <= spec_padding(side));
        assert(2 * spec_padding(side) <= side);
        assert(7 * ((side - 2 * spec_padding(side)) / 7) <= side - 2 * spec_padding(side));
        assert(0 <= spec_cell_w(side) <= 146);
        assert(0 <= spec_cell_h(side) <= 103);
        assert(0 <= spec_month_font(side));
        assert(0 <= spec_weekday_font(side));
    }

    /// Computes the grid geometry for a canvas of the given side.
    pub fn layout_for(side: usize) -> (l: CalendarLayout)
        requires
            32 <= side <= 1024,
        ensures
            l.wf(),
            l.side == side,
            l == CalendarLayout::spec_layout(side as int),
    {
        let padding: usize = (side + 31) / 32;
        proof {
            assert(32 * ((side + 31) / 32) <= side + 31);
            assert(2 * padding <= side);
        }
        let cell_w: usize = (side - 2 * padding) / 7;
        let cell_h: usize = (7 * cell_w + 9) / 10;
        let month_font: usize = (cell_w + 1) / 2;
        let weekday_font: usize = (2 * cell_w + 4) / 5;
        let month_h: usize = month_font;
        proof {
            assert(7 * ((side - 2 * padding) / 7) <= side - 2 * padding);
        }
        let total_w: usize = 7 * cell_w + 2 * padding;
        let total_h: usize = 3 * padding + month_h + 7 * cell_h;
        let rect_x: usize = if total_w <= side {
            (side - total_w) / 2
        } else {
            0
        };
        let rect_y: usize = if total_h <= side {
            (side - total_h) / 2
        } else {
            0
        };
        let l = CalendarLayout {
            side,
            padding,
            cell_w,
            cell_h,
            month_h,
            total_w,
            total_h,
            rect_x,
            rect_y,
            month_font,
            weekday_font,
            day_font: month_font,
        };
        proof {
            CalendarLayout::lemma_wf_layout_unique(l);
        }
        l
    }

    /// Top edge of the weekday header row.
    pub open spec fn spec_header_y(self) -> int {
        self.rect_y + self.padding + self.month_h + self.padding
    }

    /// Top edge of the first grid row, below title and weekday header.
    pub open spec fn spec_grid_y(self) -> int {
        self.spec_header_y() + self.cell_h
    }

    /// Left edge of the given grid column.
    pub open spec fn spec_col_x(self, col: int) -> int {
        self.rect_x + self.padding + col * self.cell_w
    }

    /// Top edge of the given grid row.
    pub open spec fn spec_row_y(self, row: int) -> int {
        self.spec_grid_y() + row * self.cell_h
    }

    /// Pixel origin of the cell at the given column and row.
    pub fn cell_origin(&self, col: u32, row: u32) -> (xy: (usize, usize))
        requires
            self.wf(),
            col < 7,
            row < 6,
        ensures
            xy.0 == self.spec_col_x(col as int),
            xy.1 == self.spec_row_y(row as int),
            xy.0 <= 4096,
            xy.1 <= 4096,
    {
        proof {
            assert(self.cell_w <= 146);
            assert(self.cell_h <= 103);
            assert(self.padding <= 32);
            assert(col as int * self.cell_w as int <= 6 * 146) by (nonlinear_arith)
                requires
                    col < 7,
                    self.cell_w <= 146,
            ;
            assert(row as int * self.cell_h as int <= 5 * 103) by (nonlinear_arith)
                requires
                    row < 6,
                    self.cell_h <= 103,
            ;
        }
        let x: usize = self.rect_x + self.padding + (col as usize) * self.cell_w;
        let y: usize = self.rect_y + self.padding + self.month_h + self.padding + self.cell_h + (
        row as usize) * self.cell_h;
        (x, y)
    }
}

/// The character of one decimal digit.
pub open spec fn spec_digit_char(d: int) -> char {
    if d == 0 {
        '0'
    } else if d == 1 {
        '1'
    } else if d == 2 {
        '2'
    } else if d == 3 {
        '3'
    } else if d == 4 {
        '4'
    } else if d == 5 {
        '5'
    } else if d == 6 {
        '6'
    } else if d == 7 {
        '7'
    } else if d == 8 {
        '8'
    } else {
        '9'
    }
}

/// The decimal digits of a nonnegative number, most significant first.
pub open spec fn spec_decimal(n: int) -> Seq<char>
    decreases n,
{
    if n < 10 {
        seq![spec_digit_char(n)]
    } else {
        spec_decimal(n / 10) + seq![spec_digit_char(n % 10)]
    }
}

/// The one-character token of a decimal digit.
fn digit_str(d: u32) -> (r: &'static str)
    requires
        d < 10,
    ensures
        r@ == seq![spec_digit_char(d as int)],
{
    proof {
        reveal_strlit("0");
        reveal_strlit("1");
        reveal_strlit("2");
        reveal_strlit("3");
        reveal_strlit("4");
        reveal_strlit("5");
        reveal_strlit("6");
        reveal_strlit("7");
        reveal_strlit("8");
        reveal_strlit("9");
    }
    let r = match d {
        0 => "0",
        1 => "1",
        2 => "2",
        3 => "3",
        4 => "4",
        5 => "5",
        6 => "6",
        7 => "7",
        8 => "8",
        _ => "9",
    };
    proof {
        assert(r@ =~= seq![spec_digit_char(d as int)]);
    }
    r
}

/// A possibly negative number in decimal: a leading minus sign for
/// negative values.
pub open spec fn spec_signed_decimal(n: int) -> Seq<char> {
    if n < 0 {
        seq!['-'] + spec_decimal(-n)
    } else {
        spec_decimal(n)
    }
}

/// Renders a nonnegative number in decimal.
pub fn u32_to_string(n: u32) -> (r: String)
    ensures
        r@ == spec_decimal(n as int),
    decreases n,
{
    if n < 10 {
        String::from_str(digit_str(n))
    } else {
        let prefix = u32_to_string(n / 10);
        let r = prefix.concat(digit_str(n % 10));
        r
    }
}

/// Renders a number in decimal, negative values with a leading minus.
pub fn i32_to_string(n: i32) -> (r: String)
    requires
        n > i32::MIN,
    ensures
        r@ == spec_signed_decimal(n as int),
{
    if n < 0 {
        proof {
            reveal_strlit("-");
            assert("-"@ =~= seq!['-']);
        }
        let digits = u32_to_string((-n) as u32);
        let r = String::from_str("-").concat(digits.as_str());
        proof {
            assert(r@ =~= spec_signed_decimal(n as int));
        }
        r
    } else {
        u32_to_string(n as u32)
    }
}

/// The English name of the given month.
pub open spec fn spec_month_name(month: int) -> Seq<char> {
    if month == 1 {
        "January"@
    } else if month == 2 {
        "February"@
    } else if month == 3 {
        "March"@
    } else if month == 4 {
        "April"@
    } else if month == 5 {
        "May"@
    } else if month == 6 {
        "June"@
    } else if month == 7 {
        "July"@
    } else if month == 8 {
        "August"@
    } else if month == 9 {
        "September"@
    } else if month == 10 {
        "October"@
    } else if month == 11 {
        "November"@
    } else {
        "December"@
    }
}

/// The English name of the given month.
pub fn month_name(month: u32) -> (r: &'static str)
    requires
        1 <= month <= 12,
    ensures
        r@ == spec_month_name(month as int),
{
    match month {
        1 => "January",
        2 => "February",
        3 => "March",
        4 => "April",
        5 => "May",
        6 => "June",
        7 => "July",
        8 => "August",
        9 => "September",
        10 => "October",
        11 => "November",
        _ => "December",
    }
}

/// The month title line: the month's English name, a space, and the year
/// in decimal.
pub open spec fn spec_month_title(year: int, month: int) -> Seq<char> {
    spec_month_name(month) + seq![' '] + spec_signed_decimal(year)
}

/// Builds the month title line, month name then year.
pub fn month_title(year: i32, month: u32) -> (r: String)
    requires
        year > i32::MIN,
        1 <= month <= 12,
    ensures
        r@ == spec_month_title(year as int, month as int),
{
    proof {
        reveal_strlit(" ");
    }
    let name = String::from_str(month_name(month)).concat(" ");
    proof {
        assert(" "@ =~= seq![' ']);
    }
    let digits = i32_to_string(year);
    let r = name.concat(digits.as_str());
    proof {
        assert(r@ =~= spec_month_title(year as int, month as int));
    }
    r
}


/// The abbreviated English weekday names of the header row, Sunday first.
pub open spec fn spec_weekday_name(i: int) -> Seq<char> {
    if i == 0 {
        "Sun"@
    } else if i == 1 {
        "Mon"@
    } else if i == 2 {
        "Tue"@
    } else if i == 3 {
        "Wed"@
    } else if i == 4 {
        "Thu"@
    } else if i == 5 {
        "Fri"@
    } else {
        "Sat"@
    }
}

/// The abbreviated English name of a weekday, Sunday is zero.
pub fn weekday_name(i: u32) -> (r: &'static str)
    requires
        i < 7,
    ensures
        r@ == spec_weekday_name(i as int),
{
    match i {
        0 => "Sun",
        1 => "Mon",
        2 => "Tue",
        3 => "Wed",
        4 => "Thu",
        5 => "Fri",
        _ => "Sat",
    }
}

/// The month title block: centered over the grid width at the top.
pub open spec fn title_item_ok(it: TextItem, l: CalendarLayout, year: int, month: int, t: Theme) -> bool {
    &&& it.text@ == spec_month_title(year, month)
    &&& it.x == l.rect_x + l.padding
    &&& it.y == l.rect_y + l.padding
    &&& it.font_size == l.month_font
    &&& it.box_w == 7 * l.cell_w
    &&& it.color == t.primary
}

/// The weekday header label of column `i`, vertically centered in the
/// header row.
pub open spec fn weekday_item_ok(it: TextItem, l: CalendarLayout, i: int, t: Theme) -> bool {
    &&& it.text@ == spec_weekday_name(i)
    &&& it.x == l.spec_col_x(i)
    &&& it.y == l.spec_header_y() + (l.cell_h - l.weekday_font) / 2
    &&& it.font_size == l.weekday_font
    &&& it.box_w == l.cell_w
    &&& it.color == t.secondary
}

/// The number of day `d`, centered in its grid cell.
pub open spec fn day_item_ok(it: TextItem, l: CalendarLayout, start: int, d: int, t: Theme) -> bool {
    &&& it.text@ == spec_decimal(d)
    &&& it.x == l.spec_col_x(spec_day_col(start, d))
    &&& it.y == l.spec_row_y(spec_day_row(start, d)) + (l.cell_h - l.day_font) / 2
    &&& it.font_size == l.day_font
    &&& it.box_w == l.cell_w
    &&& it.color == t.primary
}

/// Builds the dynamic text of one calendar frame: the month title, the
/// seven weekday header labels, and one number per day of the month,
/// each with its pixel origin, centering box, font size and color.
pub fn calendar_text_items(
    l: &CalendarLayout,
    year: i32,
    month: u32,
    start_weekday: u32,
    days: u32,
    theme: Theme,
) -> (items: Vec<TextItem>)
    requires
        l.wf(),
        year > i32::MIN,
        1 <= month <= 12,
        start_weekday < 7,
        28 <= days <= 31,
    ensures
        items.len() == 8 + days,
        title_item_ok(items[0], *l, year as int, month as int, theme),
        forall|i: int|
            0 <= i < 7 ==> weekday_item_ok(#[trigger] items[1 + i], *l, i, theme),
        forall|d: int|
            1 <= d <= days ==> day_item_ok(#[trigger] items[7 + d], *l, start_weekday as int, d, theme),
{
    proof {
        assert(l.cell_w <= 146 && l.cell_h <= 103 && l.padding <= 32);
        assert(l.weekday_font <= l.cell_h && l.day_font <= l.cell_h);
    }
    let mut items: Vec<TextItem> = Vec::new();
    items.push(
        TextItem {
            text: month_title(year, month),
            x: (l.rect_x + l.padding) as i64,
            y: (l.rect_y + l.padding) as i64,
            font_size: l.month_font as u32,
            box_w: (7 * l.cell_w) as u32,
            color: theme.primary,
        },
    );
    let header_y: usize = l.rect_y + l.padding + l.month_h + l.padding;
    let mut i: u32 = 0;
    while i < 7
        invariant
            l.wf(),
            i <= 7,
            items.len() == 1 + i,
            header_y == l.spec_header_y(),
            title_item_ok(items[0], *l, year as int, month as int, theme),
            forall|j: int|
                0 <= j < i ==> weekday_item_ok(#[trigger] items[1 + j], *l, j, theme),
        decreases 7 - i,
    {
        proof {
            assert(l.cell_w <= 146 && l.cell_h <= 103 && l.padding <= 32);
            assert(i as int * l.cell_w as int <= 6 * 146) by (nonlinear_arith)
                requires
                    i < 7,
                    l.cell_w <= 146,
            ;
        }
        items.push(
            TextItem {
                text: String::from_str(weekday_name(i)),
                x: (l.rect_x + l.padding + (i as usize) * l.cell_w) as i64,
                y: (header_y + (l.cell_h - l.weekday_font) / 2) as i64,
                font_size: l.weekday_font as u32,
                box_w: l.cell_w as u32,
                color: theme.secondary,
            },
        );
        i = i + 1;
    }
    let mut d: u32 = 1;
    while d <= days
        invariant
            l.wf(),
            start_weekday < 7,
            days <= 31,
            1 <= d <= days + 1,
            items.len() == 8 + d - 1,
            title_item_ok(items[0], *l, year as int, month as int, theme),
            forall|j: int|
                0 <= j < 7 ==> weekday_item_ok(#[trigger] items[1 + j], *l, j, theme),
            forall|e: int|
                1 <= e < d ==> day_item_ok(#[trigger] items[7 + e], *l, start_weekday as int, e, theme),
        decreases days + 1 - d,
    {
        let (col, row) = day_cell(start_weekday, d);
        let (cx, cy) = l.cell_origin(col, row);
        items.push(
            TextItem {
                text: u32_to_string(d),
                x: cx as i64,
                y: (cy + (l.cell_h - l.day_font) / 2) as i64,
                font_size: l.day_font as u32,
                box_w: l.cell_w as u32,
                color: theme.primary,
            },
        );
        d = d + 1;
    }
    items
}

impl Canvas {
    /// Renders the static calendar background: the frame rectangle, then
    /// the background inset by the frame thickness of two pixels. Pixels
    /// outside the frame stay untouched.
    pub fn draw_calendar_frame(&mut self, l: &CalendarLayout, theme: Theme)
        requires
            old(self).wf(),
            l.wf(),
            l.side == old(self).side,
        ensures
            final(self).wf(),
            final(self).side == old(self).side,
            final(self).pixel_data.len() == old(self).pixel_data.len(),
            forall|px: int, py: int|
                0 <= px < old(self).side && 0 <= py < old(self).side && in_rect(
                    l.rect_x + 2,
                    l.rect_y + 2,
                    l.total_w - 4,
                    l.total_h - 4,
                    px,
                    py,
                ) ==> pixel_is(
                    final(self).pixel_data@,
                    old(self).side as int,
                    px,
                    py,
                    theme.background,
                ),
            forall|px: int, py: int|
                0 <= px < old(self).side && 0 <= py < old(self).side && in_rect(
                    l.rect_x as int,
                    l.rect_y as int,
                    l.total_w as int,
                    l.total_h as int,
                    px,
                    py,
                ) && !in_rect(l.rect_x + 2, l.rect_y + 2, l.total_w - 4, l.total_h - 4, px, py)
                    ==> pixel_is(
                    final(self).pixel_data@,
                    old(self).side as int,
                    px,
                    py,
                    theme.frame,
                ),
            forall|px: int, py: int|
                0 <= px < old(self).side && 0 <= py < old(self).side && !in_rect(
                    l.rect_x as int,
                    l.rect_y as int,
                    l.total_w as int,
                    l.total_h as int,
                    px,
                    py,
                ) ==> pixel_same(
                    final(self).pixel_data@,
                    old(self).pixel_data@,
                    old(self).side as int,
                    px,
                    py,
                ),
    {
        proof {
            assert(l.total_w <= 1088 && l.total_h <= 1024 && l.rect_x <= 1024 && l.rect_y <= 1024);
        }
        let ghost s0 = self.pixel_data@;
        self.fill_rect(l.rect_x as i32, l.rect_y as i32, l.total_w as i32, l.total_h as i32, theme.frame);
        let ghost s1 = self.pixel_data@;
        self.fill_rect(
            l.rect_x as i32 + 2,
            l.rect_y as i32 + 2,
            l.total_w as i32 - 4,
            l.total_h as i32 - 4,
            theme.background,
        );
        proof {
            let side = old(self).side as int;
            assert forall|px: int, py: int|
                0 <= px < side && 0 <= py < side && in_rect(
                    l.rect_x as int,
                    l.rect_y as int,
                    l.total_w as int,
                    l.total_h as int,
                    px,
                    py,
                ) && !in_rect(
                    l.rect_x + 2,
                    l.rect_y + 2,
                    l.total_w - 4,
                    l.total_h - 4,
                    px,
                    py,
                ) implies pixel_is(self.pixel_data@, side, px, py, theme.frame) by {
                assert(pixel_is(s1, side, px, py, theme.frame));
                assert(pixel_same(self.pixel_data@, s1, side, px, py));
            }
            assert forall|px: int, py: int|
                0 <= px < side && 0 <= py < side && !in_rect(
                    l.rect_x as int,
                    l.rect_y as int,
                    l.total_w as int,
                    l.total_h as int,
                    px,
                    py,
                ) implies pixel_same(self.pixel_data@, old(self).pixel_data@, side, px, py) by {
                assert(pixel_same(s1, s0, side, px, py));
                assert(!in_rect(l.rect_x + 2, l.rect_y + 2, l.total_w - 4, l.total_h - 4, px, py));
                assert(pixel_same(self.pixel_data@, s1, side, px, py));
            }
        }
    }

    /// Fills the background of today's grid cell with the highlight
    /// color, inset four pixels from the cell's vertical edges; every
    /// pixel outside that rectangle stays unchanged.
    pub fn draw_today_highlight(
        &mut self,
        l: &CalendarLayout,
        start_weekday: u32,
        today: u32,
        color: Bgra,
    )
        requires
            old(self).wf(),
            l.wf(),
            l.side == old(self).side,
            start_weekday < 7,
            1 <= today <= 31,
        ensures
            final(self).wf(),
            final(self).side == old(self).side,
            final(self).pixel_data.len() == old(self).pixel_data.len(),
            forall|px: int, py: int|
                0 <= px < old(self).side && 0 <= py < old(self).side && in_rect(
                    l.spec_col_x(spec_day_col(start_weekday as int, today as int)) + 4,
                    l.spec_row_y(spec_day_row(start_weekday as int, today as int)),
                    l.cell_w - 8,
                    l.cell_h as int,
                    px,
                    py,
                ) ==> pixel_is(final(self).pixel_data@, old(self).side as int, px, py, color),
            forall|px: int, py: int|
                0 <= px < old(self).side && 0 <= py < old(self).side && !in_rect(
                    l.spec_col_x(spec_day_col(start_weekday as int, today as int)) + 4,
                    l.spec_row_y(spec_day_row(start_weekday as int, today as int)),
                    l.cell_w - 8,
                    l.cell_h as int,
                    px,
                    py,
                ) ==> pixel_same(
                    final(self).pixel_data@,
                    old(self).pixel_data@,
                    old(self).side as int,
                    px,
                    py,
                ),
    {
        let (col, row) = day_cell(start_weekday, today);
        let (cx, cy) = l.cell_origin(col, row);
        proof {
            assert(l.cell_w <= 146 && l.cell_h <= 103);
            assert(cx <= 4096 && cy <= 4096);
        }
        self.fill_rect(
            cx as i32 + 4,
            cy as i32,
            l.cell_w as i32 - 8,
            l.cell_h as i32,
            color,
        );
    }
}

} // verus!
