//! A desktop overlay widget library: a software rasterizer for an analog
//! clock face and a month-calendar grid, the lifecycle state machine that
//! decides when and what to rasterize, and the line-oriented command
//! protocol that drives state transitions.

use vstd::prelude::*;

mod calendar;
mod canvas;
mod hands;
mod state;
mod text;
mod theme;
mod time;
mod widget;

pub use calendar::calendar_text_items;
pub use calendar::day_cell;
pub use calendar::days_in_month;
pub use calendar::i32_to_string;
pub use calendar::is_leap_year;
pub use calendar::month_name;
pub use calendar::month_title;
pub use calendar::rows_needed;
pub use calendar::u32_to_string;
pub use calendar::weekday_name;
pub use calendar::CalendarLayout;
pub use canvas::Canvas;
pub use state::handle_request;
pub use state::step;
pub use state::str_eq;
pub use state::strip_line_end;
pub use state::Action;
pub use state::Command;
pub use state::Event;
pub use state::State;
pub use state::ViewKind;
pub use text::TextCell;
pub use text::TextItem;
pub use theme::Bgra;
pub use time::current_tick_delay;
pub use time::millis_to_next_second;
pub use time::month_start_weekday;
pub use time::now_parts;
pub use time::TimeParts;
pub use theme::Theme;
pub use widget::Sometime;

verus! {

/// Side length, in pixels, of the square overlay surface.
pub const SIDE: usize = 448;

} // verus!
