//! The widget engine: one canvas, one background cache per view, the
//! lifecycle state, and the staleness marks of the redraw scheduler. The
//! event loop around it performs I/O and hands events and clock readings
//! in; every decision and every pixel lives here.

use vstd::prelude::*;

use crate::calendar::calendar_text_items;
use crate::calendar::day_item_ok;
use crate::calendar::days_in_month;
use crate::calendar::spec_day_col;
use crate::calendar::spec_day_row;
use crate::calendar::title_item_ok;
use crate::calendar::weekday_item_ok;
use crate::calendar::CalendarLayout;
use crate::canvas::alpha_at;
use crate::canvas::in_rect;
use crate::canvas::face_bg_limit;
use crate::canvas::face_dist;
use crate::canvas::face_rim_limit;
use crate::canvas::pixel_is;
use crate::canvas::pixel_same;
use crate::canvas::Canvas;
use crate::hands::spec_radial_line;
use crate::state::Action;
use crate::state::Event;
use crate::state::State;
use crate::state::ViewKind;
use crate::text::TextItem;
use crate::theme::Theme;
use crate::time::month_start_weekday;
use crate::time::weekday_of_month_start;
use crate::time::TimeParts;

verus! {

/// Whether the unit relevant to the view (the second for the clock, the
/// day for the calendar) differs from the last unit drawn.
pub open spec fn spec_needs_redraw(v: ViewKind, t: TimeParts, last_second: u32, last_day: u32) -> bool {
    match v {
        ViewKind::Clock => t.second != last_second,
        ViewKind::Calendar => t.day != last_day,
    }
}

/// Once the staleness mark equals the current wall-clock unit, a second
/// run of the redraw path within the same unit requests no redraw, so the
/// buffer is left byte-identical.
pub proof fn lemma_redraw_idempotent(v: ViewKind, t: TimeParts, last_second: u32, last_day: u32)
    requires
        v is Clock ==> last_second == t.second,
        v is Calendar ==> last_day == t.day,
    ensures
        !spec_needs_redraw(v, t, last_second, last_day),
{
}

/// One finished clock frame: the cached dial with the hour, minute and
/// second hands composited on top, in that order. A pure function of the
/// cache and the clock reading: the previous frame never contributes, and
/// equal readings give byte-identical frames.
pub open spec fn spec_clock_frame(
    cache: Seq<u8>,
    side: int,
    hour: int,
    minute: int,
    second: int,
    theme: Theme,
) -> Seq<u8> {
    spec_radial_line(
        spec_radial_line(
            spec_radial_line(cache, side, 500, 60 * (hour % 12) + minute, 3, theme.primary),
            side,
            800,
            12 * minute,
            2,
            theme.primary,
        ),
        side,
        900,
        12 * second,
        1,
        theme.secondary,
    )
}

/// The whole widget: rasterizer state and lifecycle state.
pub struct Sometime {
    pub canvas: Canvas,
    /// Snapshot of the static clock dial, or empty while asleep.
    pub clock_cache: Vec<u8>,
    /// Snapshot of the static calendar frame, or empty while asleep.
    pub calendar_cache: Vec<u8>,
    pub theme: Theme,
    pub state: State,
    /// Set by the scheduler tick, consumed by the event loop.
    pub should_redraw: bool,
    /// The last second a clock frame was drawn for; a sentinel after
    /// waking so the first tick always draws.
    pub last_second: u32,
    /// The last day a calendar frame was drawn for; same sentinel.
    pub last_day: u32,
}

impl Sometime {
    /// The canvas is intact and each cache is empty or a full snapshot.
    pub open spec fn wf(self) -> bool {
        &&& self.canvas.wf()
        &&& 32 <= self.canvas.side
        &&& (self.clock_cache.len() == 0 || self.clock_cache.len() == self.canvas.pixel_data.len())
        &&& (self.calendar_cache.len() == 0 || self.calendar_cache.len()
            == self.canvas.pixel_data.len())
    }

    /// A fresh, sleeping widget with a transparent buffer, no caches, and
    /// out-of-range staleness marks.
    pub fn new(side: usize, theme: Theme) -> (s: Sometime)
        requires
            32 <= side <= 1024,
        ensures
            s.wf(),
            s.canvas.side == side,
            s.theme == theme,
            s.state == State::Sleep,
            !s.should_redraw,
            s.last_second == u32::MAX,
            s.last_day == u32::MAX,
            s.clock_cache.len() == 0,
            s.calendar_cache.len() == 0,
    {
        Sometime {
            canvas: Canvas::new(side),
            clock_cache: Vec::new(),
            calendar_cache: Vec::new(),
            theme,
            state: State::Sleep,
            should_redraw: false,
            last_second: u32::MAX,
            last_day: u32::MAX,
        }
    }

    /// Applies one event to the lifecycle state machine and returns the
    /// side effect the event loop must perform. Falling back to `Sleep`
    /// clears the buffer and drops both caches; waking resets the
    /// staleness marks so the first tick redraws.
    pub fn handle_event(&mut self, e: Event) -> (a: Action)
        requires
            old(self).wf(),
        ensures
            final(self).wf(),
            final(self).state == crate::state::spec_step(old(self).state, e).0,
            a == crate::state::spec_step(old(self).state, e).1,
            final(self).canvas.side == old(self).canvas.side,
            final(self).canvas.pixel_data.len() == old(self).canvas.pixel_data.len(),
            final(self).theme == old(self).theme,
            (a is DestroySurface || a is Cleanup) ==> final(self).clock_cache.len() == 0 && final(self).calendar_cache.len() == 0 && (forall|i: int|
                0 <= i < final(self).canvas.pixel_data.len() ==> final(self).canvas.pixel_data[i]
                    == 0u8),
            a is Wake ==> final(self).last_second == u32::MAX && final(self).last_day == u32::MAX
                && final(self).canvas == old(self).canvas && final(self).clock_cache == old(self).clock_cache && final(self).calendar_cache == old(self).calendar_cache,
            (a is NoOp || a is CreateSurface) ==> final(self).canvas == old(self).canvas && final(self).clock_cache == old(self).clock_cache && final(self).calendar_cache == old(self).calendar_cache && final(self).last_second == old(self).last_second && final(self).last_day == old(self).last_day,
    {
        let (next, action) = crate::state::step(self.state, e);
        self.state = next;
        match action {
            Action::DestroySurface | Action::Cleanup => {
                self.canvas.clear();
                self.clock_cache = Vec::new();
                self.calendar_cache = Vec::new();
            },
            Action::Wake => {
                self.last_second = u32::MAX;
                self.last_day = u32::MAX;
            },
            _ => {},
        }
        action
    }

    /// Builds the clock view's background cache: clears the buffer, draws
    /// the static dial, and snapshots it. The cache equals the live
    /// buffer bytes exactly, and the buffer shows exactly the dial: the
    /// center dot, the face, the rim, and transparent zero bytes outside
    /// the dial circle.
    pub fn build_clock_cache(&mut self)
        requires
            old(self).wf(),
        ensures
            final(self).wf(),
            final(self).canvas.side == old(self).canvas.side,
            final(self).canvas.pixel_data.len() == old(self).canvas.pixel_data.len(),
            final(self).clock_cache@ == final(self).canvas.pixel_data@,
            final(self).calendar_cache == old(self).calendar_cache,
            final(self).state == old(self).state,
            final(self).theme == old(self).theme,
            final(self).last_second == old(self).last_second,
            final(self).last_day == old(self).last_day,
            final(self).should_redraw == old(self).should_redraw,
            ({
                let side = old(self).canvas.side as int;
                let data = final(self).canvas.pixel_data@;
                let theme = old(self).theme;
                &&& forall|px: int, py: int|
                    0 <= px < side && 0 <= py < side && face_dist(side, px, py) < 16 ==> pixel_is(
                        data,
                        side,
                        px,
                        py,
                        theme.primary,
                    )
                &&& forall|px: int, py: int|
                    0 <= px < side && 0 <= py < side && 16 <= face_dist(side, px, py)
                        <= face_bg_limit(side) ==> pixel_is(data, side, px, py, theme.background)
                &&& forall|px: int, py: int|
                    0 <= px < side && 0 <= py < side && face_bg_limit(side) < face_dist(
                        side,
                        px,
                        py,
                    ) <= face_rim_limit(side) ==> pixel_is(data, side, px, py, theme.frame)
                &&& forall|px: int, py: int|
                    0 <= px < side && 0 <= py < side && face_dist(side, px, py) > face_rim_limit(
                        side,
                    ) ==> data[crate::canvas::idx_of(side, px, py)] == 0u8 && data[
                        crate::canvas::idx_of(side, px, py) + 1] == 0u8 && data[
                        crate::canvas::idx_of(side, px, py) + 2] == 0u8 && data[
                        crate::canvas::idx_of(side, px, py) + 3] == 0u8
            }),
    {
        self.canvas.clear();
        let ghost cleared = self.canvas.pixel_data@;
        let theme = self.theme;
        self.canvas.draw_face(theme);
        proof {
            let side = old(self).canvas.side as int;
            assert forall|px: int, py: int|
                0 <= px < side && 0 <= py < side && face_dist(side, px, py) > face_rim_limit(
                    side,
                ) implies self.canvas.pixel_data@[crate::canvas::idx_of(side, px, py)] == 0u8
                && self.canvas.pixel_data@[crate::canvas::idx_of(side, px, py) + 1] == 0u8
                && self.canvas.pixel_data@[crate::canvas::idx_of(side, px, py) + 2] == 0u8
                && self.canvas.pixel_data@[crate::canvas::idx_of(side, px, py) + 3] == 0u8 by {
                crate::canvas::lemma_idx_in_range(side, px, py);
                assert(pixel_same(self.canvas.pixel_data@, cleared, side, px, py));
            }
        }
        self.clock_cache = self.canvas.capture();
    }

    /// Begins the calendar view's background cache: clears the buffer and
    /// draws the static frame, so the buffer shows exactly the frame
    /// ring, the inset background, and transparent zero bytes outside.
    /// The event loop then calls `capture_calendar_cache`.
    pub fn begin_calendar_cache(&mut self) -> (l: CalendarLayout)
        requires
            old(self).wf(),
        ensures
            final(self).wf(),
            final(self).canvas.side == old(self).canvas.side,
            final(self).canvas.pixel_data.len() == old(self).canvas.pixel_data.len(),
            l.wf(),
            l.side == old(self).canvas.side,
            l == CalendarLayout::spec_layout(old(self).canvas.side as int),
            final(self).clock_cache == old(self).clock_cache,
            final(self).state == old(self).state,
            final(self).theme == old(self).theme,
            ({
                let side = old(self).canvas.side as int;
                let data = final(self).canvas.pixel_data@;
                let theme = old(self).theme;
                &&& forall|px: int, py: int|
                    0 <= px < side && 0 <= py < side && in_rect(
                        l.rect_x + 2,
                        l.rect_y + 2,
                        l.total_w - 4,
                        l.total_h - 4,
                        px,
                        py,
                    ) ==> pixel_is(data, side, px, py, theme.background)
                &&& forall|px: int, py: int|
                    0 <= px < side && 0 <= py < side && in_rect(
                        l.rect_x as int,
                        l.rect_y as int,
                        l.total_w as int,
                        l.total_h as int,
                        px,
                        py,
                    ) && !in_rect(l.rect_x + 2, l.rect_y + 2, l.total_w - 4, l.total_h - 4, px, py)
                        ==> pixel_is(data, side, px, py, theme.frame)
                &&& forall|px: int, py: int|
                    0 <= px < side && 0 <= py < side && !in_rect(
                        l.rect_x as int,
                        l.rect_y as int,
                        l.total_w as int,
                        l.total_h as int,
                        px,
                        py,
                    ) ==> data[crate::canvas::idx_of(side, px, py)] == 0u8 && data[
                        crate::canvas::idx_of(side, px, py) + 1] == 0u8 && data[
                        crate::canvas::idx_of(side, px, py) + 2] == 0u8 && data[
                        crate::canvas::idx_of(side, px, py) + 3] == 0u8
            }),
    {
        self.canvas.clear();
        let ghost cleared = self.canvas.pixel_data@;
        let l = CalendarLayout::layout_for(self.canvas.side);
        let theme = self.theme;
        self.canvas.draw_calendar_frame(&l, theme);
        proof {
            let side = old(self).canvas.side as int;
            assert forall|px: int, py: int|
                0 <= px < side && 0 <= py < side && !in_rect(
                    l.rect_x as int,
                    l.rect_y as int,
                    l.total_w as int,
                    l.total_h as int,
                    px,
                    py,
                ) implies self.canvas.pixel_data@[crate::canvas::idx_of(side, px, py)] == 0u8
                && self.canvas.pixel_data@[crate::canvas::idx_of(side, px, py) + 1] == 0u8
                && self.canvas.pixel_data@[crate::canvas::idx_of(side, px, py) + 2] == 0u8
                && self.canvas.pixel_data@[crate::canvas::idx_of(side, px, py) + 3] == 0u8 by {
                crate::canvas::lemma_idx_in_range(side, px, py);
                assert(pixel_same(self.canvas.pixel_data@, cleared, side, px, py));
            }
        }
        l
    }

    /// Snapshots the current buffer as the calendar background cache.
    pub fn capture_calendar_cache(&mut self)
        requires
            old(self).wf(),
        ensures
            final(self).wf(),
            final(self).canvas == old(self).canvas,
            final(self).calendar_cache@ == final(self).canvas.pixel_data@,
            final(self).clock_cache == old(self).clock_cache,
            final(self).state == old(self).state,
            final(self).theme == old(self).theme,
            final(self).last_second == old(self).last_second,
            final(self).last_day == old(self).last_day,
            final(self).should_redraw == old(self).should_redraw,
    {
        self.calendar_cache = self.canvas.capture();
    }

    /// One scheduler tick: marks a redraw as due exactly when the widget
    /// is awake and the view's wall-clock unit moved past the last drawn
    /// one. Nothing else changes.
    pub fn request_redraw(&mut self, t: TimeParts) -> (due: bool)
        requires
            old(self).wf(),
        ensures
            final(self).wf(),
            due == final(self).should_redraw,
            final(self).should_redraw == (old(self).state matches State::Awake(v)
                && spec_needs_redraw(v, t, old(self).last_second, old(self).last_day)),
            *final(self) == (Sometime { should_redraw: final(self).should_redraw, ..*old(self) }),
    {
        let due = match self.state {
            State::Awake(ViewKind::Clock) => t.second != self.last_second,
            State::Awake(ViewKind::Calendar) => t.day != self.last_day,
            _ => false,
        };
        self.should_redraw = due;
        due
    }

    /// Consumes the redraw flag, telling the event loop whether to draw.
    pub fn consume_redraw(&mut self) -> (due: bool)
        requires
            old(self).wf(),
        ensures
            final(self).wf(),
            due == old(self).should_redraw,
            *final(self) == (Sometime { should_redraw: false, ..*old(self) }),
    {
        let due = self.should_redraw;
        self.should_redraw = false;
        due
    }

    /// Redraws the clock view: restores the cached dial and composites
    /// the three hands onto it, so the presented frame is exactly a
    /// function of the cache and the clock reading — the previous frame
    /// never shows through, and redrawing for the same reading yields
    /// byte-identical output.
    pub fn redraw_clock(&mut self, t: TimeParts)
        requires
            old(self).wf(),
            t.valid(),
            old(self).clock_cache.len() == old(self).canvas.pixel_data.len(),
        ensures
            final(self).wf(),
            final(self).canvas.side == old(self).canvas.side,
            final(self).canvas.pixel_data.len() == old(self).canvas.pixel_data.len(),
            final(self).last_second == t.second,
            final(self).last_day == old(self).last_day,
            final(self).state == old(self).state,
            final(self).theme == old(self).theme,
            final(self).clock_cache == old(self).clock_cache,
            final(self).calendar_cache == old(self).calendar_cache,
            !final(self).should_redraw,
            final(self).canvas.pixel_data@ == spec_clock_frame(
                old(self).clock_cache@,
                old(self).canvas.side as int,
                t.hour as int,
                t.minute as int,
                t.second as int,
                old(self).theme,
            ),
            forall|qx: int, qy: int|
                0 <= qx < old(self).canvas.side && 0 <= qy < old(self).canvas.side ==> alpha_at(
                    final(self).canvas.pixel_data@,
                    old(self).canvas.side as int,
                    qx,
                    qy,
                ) == alpha_at(old(self).clock_cache@, old(self).canvas.side as int, qx, qy),
    {
        self.canvas.restore_from(&self.clock_cache);
        let theme = self.theme;
        self.canvas.draw_hour_hand(t.hour, t.minute, theme.primary);
        self.canvas.draw_minute_hand(t.minute, theme.primary);
        self.canvas.draw_second_hand(t.second, theme.secondary);
        self.last_second = t.second;
        self.should_redraw = false;
    }

    /// Redraws the calendar view's owned layers: restores the cached
    /// frame and fills today's emphasis cell on top of it, so the buffer
    /// equals the cache everywhere outside that one rectangle; marks the
    /// drawn day; and returns the text blocks (title, weekday header,
    /// day numbers) for the event loop to shape and composite on top.
    pub fn redraw_calendar(&mut self, t: TimeParts) -> (items: Vec<TextItem>)
        requires
            old(self).wf(),
            t.valid(),
            old(self).calendar_cache.len() == old(self).canvas.pixel_data.len(),
        ensures
            final(self).wf(),
            final(self).canvas.side == old(self).canvas.side,
            final(self).canvas.pixel_data.len() == old(self).canvas.pixel_data.len(),
            final(self).last_day == t.day,
            final(self).last_second == old(self).last_second,
            final(self).state == old(self).state,
            final(self).theme == old(self).theme,
            final(self).clock_cache == old(self).clock_cache,
            final(self).calendar_cache == old(self).calendar_cache,
            !final(self).should_redraw,
            ({
                let side = old(self).canvas.side as int;
                let cache = old(self).calendar_cache@;
                let l = CalendarLayout::spec_layout(side);
                let start = weekday_of_month_start(t.year as int, t.month as int);
                let days = crate::calendar::spec_days_in_month(t.year as int, t.month as int);
                let hx = l.spec_col_x(spec_day_col(start, t.day as int)) + 4;
                let hy = l.spec_row_y(spec_day_row(start, t.day as int));
                if t.day <= days {
                    &&& forall|px: int, py: int|
                        0 <= px < side && 0 <= py < side && in_rect(
                            hx,
                            hy,
                            l.cell_w - 8,
                            l.cell_h as int,
                            px,
                            py,
                        ) ==> pixel_is(
                            final(self).canvas.pixel_data@,
                            side,
                            px,
                            py,
                            old(self).theme.frame,
                        )
                    &&& forall|px: int, py: int|
                        0 <= px < side && 0 <= py < side && !in_rect(
                            hx,
                            hy,
                            l.cell_w - 8,
                            l.cell_h as int,
                            px,
                            py,
                        ) ==> pixel_same(final(self).canvas.pixel_data@, cache, side, px, py)
                } else {
                    final(self).canvas.pixel_data@ == cache
                }
            }),
            items.len() == 8 + crate::calendar::spec_days_in_month(t.year as int, t.month as int),
            title_item_ok(
                items[0],
                CalendarLayout::spec_layout(old(self).canvas.side as int),
                t.year as int,
                t.month as int,
                old(self).theme,
            ),
            forall|i: int|
                0 <= i < 7 ==> weekday_item_ok(
                    #[trigger] items[1 + i],
                    CalendarLayout::spec_layout(old(self).canvas.side as int),
                    i,
                    old(self).theme,
                ),
            forall|d: int|
                1 <= d <= crate::calendar::spec_days_in_month(t.year as int, t.month as int)
                    ==> day_item_ok(
                    #[trigger] items[7 + d],
                    CalendarLayout::spec_layout(old(self).canvas.side as int),
                    weekday_of_month_start(t.year as int, t.month as int),
                    d,
                    old(self).theme,
                ),
    {
        let start_weekday = month_start_weekday(t.year, t.month);
        let l = CalendarLayout::layout_for(self.canvas.side);
        self.canvas.restore_from(&self.calendar_cache);
        let days = days_in_month(t.year, t.month);
        let theme = self.theme;
        if t.day <= days {
            self.canvas.draw_today_highlight(&l, start_weekday, t.day, theme.frame);
        }
        let items = calendar_text_items(&l, t.year, t.month, start_weekday, days, theme);
        self.last_day = t.day;
        self.should_redraw = false;
        items
    }

    /// Restores the clock cache into the live buffer; with no dynamic
    /// content composited on top, the buffer then equals the cache bytes
    /// exactly.
    pub fn restore_clock_background(&mut self)
        requires
            old(self).wf(),
            old(self).clock_cache.len() == old(self).canvas.pixel_data.len(),
        ensures
            final(self).wf(),
            final(self).canvas.pixel_data@ == old(self).clock_cache@,
            final(self).clock_cache == old(self).clock_cache,
            final(self).calendar_cache == old(self).calendar_cache,
            final(self).canvas.side == old(self).canvas.side,
            final(self).state == old(self).state,
    {
        self.canvas.restore_from(&self.clock_cache);
    }
}

} // verus!
