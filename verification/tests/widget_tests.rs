use sometime::day_cell;
use sometime::days_in_month;
use sometime::current_tick_delay;
use sometime::millis_to_next_second;
use sometime::Bgra;
use sometime::CalendarLayout;
use sometime::Canvas;
use sometime::now_parts;
use sometime::Action;
use sometime::Command;
use sometime::Event;
use sometime::Sometime;
use sometime::State;
use sometime::Theme;
use sometime::TimeParts;
use sometime::ViewKind;
use sometime::SIDE;

fn ten_thirty(second: u32) -> TimeParts {
    TimeParts {
        year: 2024,
        month: 3,
        day: 15,
        hour: 10,
        minute: 30,
        second,
        millis: 500,
    }
}

fn wake(widget: &mut Sometime, cmd: Command) {
    let a = widget.handle_event(Event::Cmd(cmd));
    assert_eq!(a, Action::CreateSurface);
    let a = widget.handle_event(Event::ConfigureAck);
    assert_eq!(a, Action::Wake);
}

#[test]
fn default_side_is_448() {
    assert_eq!(SIDE, 448);
}

#[test]
fn timer_delay_reaches_the_next_second_boundary() {
    assert_eq!(millis_to_next_second(ten_thirty(45)), 500);
    let mut t = ten_thirty(45);
    t.millis = 0;
    assert_eq!(millis_to_next_second(t), 1000);
    t.millis = 999;
    assert_eq!(millis_to_next_second(t), 1);
    t.millis = 1500;
    assert_eq!(millis_to_next_second(t), 1);
}

#[test]
fn first_tick_after_waking_always_redraws() {
    let mut w = Sometime::new(64, Theme::default());
    wake(&mut w, Command::Clock);
    assert_eq!(w.state, State::Awake(ViewKind::Clock));
    w.build_clock_cache();
    let due = w.request_redraw(ten_thirty(45));
    assert!(due);
}

#[test]
fn redrawing_twice_in_one_second_leaves_the_buffer_identical() {
    let mut w = Sometime::new(64, Theme::default());
    wake(&mut w, Command::Clock);
    w.build_clock_cache();
    let t = ten_thirty(45);

    // First tick: stale, so the frame is drawn.
    assert!(w.request_redraw(t));
    assert!(w.consume_redraw());
    w.redraw_clock(t);
    let first_frame = w.canvas.get_data().to_vec();

    // Second tick within the same wall-clock second: no redraw happens,
    // so the presented bytes are identical.
    assert!(!w.request_redraw(t));
    let due = w.consume_redraw();
    assert!(!due);
    if due {
        w.redraw_clock(t);
    }
    assert_eq!(w.canvas.get_data(), &first_frame[..]);

    // The next second is stale again.
    assert!(w.request_redraw(ten_thirty(46)));
}

#[test]
fn restoring_the_cache_reproduces_its_bytes_exactly() {
    let mut w = Sometime::new(64, Theme::default());
    wake(&mut w, Command::Clock);
    w.build_clock_cache();
    let cache = w.clock_cache.clone();

    // Dirty the live buffer with a frame's dynamic content.
    w.redraw_clock(ten_thirty(45));
    assert_ne!(w.canvas.get_data(), &cache[..]);

    // Restore and composite zero dynamic content: byte-identical.
    w.restore_clock_background();
    assert_eq!(w.canvas.get_data(), &cache[..]);
}

#[test]
fn calendar_redraw_yields_one_text_block_per_day_plus_headers() {
    let mut w = Sometime::new(SIDE, Theme::default());
    wake(&mut w, Command::Calendar);
    let _layout = w.begin_calendar_cache();
    w.capture_calendar_cache();

    let t = ten_thirty(45);
    let items = w.redraw_calendar(t);
    assert_eq!(days_in_month(2024, 3), 31);
    assert_eq!(items.len(), 8 + 31);
    assert_eq!(items[0].text, "March 2024");
    assert_eq!(items[1].text, "Sun");
    assert_eq!(items[7].text, "Sat");
    assert_eq!(items[8].text, "1");
    assert_eq!(items[39 - 1].text, "31");
    assert_eq!(w.last_day, 15);

    // Within the same day nothing is stale.
    assert!(!w.request_redraw(t));
}

#[test]
fn sleeping_clears_the_buffer_and_caches() {
    let mut w = Sometime::new(64, Theme::default());
    wake(&mut w, Command::Clock);
    w.build_clock_cache();
    w.redraw_clock(ten_thirty(45));
    assert!(w.canvas.get_data().iter().any(|v| *v != 0));

    let a = w.handle_event(Event::Cmd(Command::Clock));
    assert_eq!(a, Action::DestroySurface);
    assert_eq!(w.state, State::Sleep);
    assert!(w.canvas.get_data().iter().all(|v| *v == 0));
    assert!(w.clock_cache.is_empty());
    assert!(w.calendar_cache.is_empty());
}

#[test]
fn ignored_command_corrupts_nothing() {
    let mut w = Sometime::new(64, Theme::default());
    wake(&mut w, Command::Clock);
    w.build_clock_cache();
    w.redraw_clock(ten_thirty(45));
    let frame = w.canvas.get_data().to_vec();

    let a = w.handle_event(Event::Cmd(Command::Calendar));
    assert_eq!(a, Action::NoOp);
    assert_eq!(w.state, State::Awake(ViewKind::Clock));
    assert_eq!(w.canvas.get_data(), &frame[..]);
}

#[test]
fn surface_closed_while_awake_sleeps_and_cleans() {
    let mut w = Sometime::new(64, Theme::default());
    wake(&mut w, Command::Calendar);
    let a = w.handle_event(Event::SurfaceClosed);
    assert_eq!(a, Action::Cleanup);
    assert_eq!(w.state, State::Sleep);
    assert!(w.canvas.get_data().iter().all(|v| *v == 0));
}

#[test]
fn calendar_frame_and_today_highlight_geometry() {
    let l = CalendarLayout::layout_for(448);
    let mut c = Canvas::new(448);
    let theme = Theme::default();
    c.draw_calendar_frame(&l, theme);

    let at = |c: &Canvas, x: usize, y: usize| -> [u8; 4] {
        let d = c.get_data();
        let i = (y * 448 + x) * 4;
        [d[i], d[i + 1], d[i + 2], d[i + 3]]
    };
    let f = theme.frame;
    let b = theme.background;
    // The frame ring, the inner background, and the untouched outside.
    assert_eq!(at(&c, l.rect_x, l.rect_y), [f.blue, f.green, f.red, f.alpha]);
    assert_eq!(
        at(&c, l.rect_x + 2, l.rect_y + 2),
        [b.blue, b.green, b.red, b.alpha]
    );
    assert_eq!(at(&c, l.rect_x, l.rect_y - 1), [0, 0, 0, 0]);

    // Today's cell is emphasized four pixels in from its vertical edges.
    let h = Bgra::from_rgba(200, 10, 20, 255);
    let (col, row) = day_cell(3, 15);
    let (cx, cy) = l.cell_origin(col, row);
    c.draw_today_highlight(&l, 3, 15, h);
    assert_eq!(at(&c, cx + 4, cy), [h.blue, h.green, h.red, h.alpha]);
    assert_eq!(
        at(&c, cx + 4 + l.cell_w - 8 - 1, cy + l.cell_h - 1),
        [h.blue, h.green, h.red, h.alpha]
    );
    assert_ne!(at(&c, cx + 3, cy), [h.blue, h.green, h.red, h.alpha]);
    assert_ne!(
        at(&c, cx + 4 + l.cell_w - 8, cy),
        [h.blue, h.green, h.red, h.alpha]
    );
}

#[test]
fn clock_readings_stay_in_range() {
    let t = now_parts();
    assert!((1..=12).contains(&t.month));
    assert!((1..=31).contains(&t.day));
    assert!(t.hour < 24);
    assert!(t.minute < 60);
    assert!(t.second < 60);
    assert!(t.millis < 2000);
    assert!(t.year >= 2020);
    let delay = current_tick_delay();
    assert!((1..=1000).contains(&delay));
}

#[test]
fn redrawing_for_the_same_reading_is_deterministic() {
    let mut w = Sometime::new(64, Theme::default());
    wake(&mut w, Command::Clock);
    w.build_clock_cache();
    let t = ten_thirty(45);

    w.redraw_clock(t);
    let first = w.canvas.get_data().to_vec();

    // The frame is a pure function of the cache and the clock reading:
    // drawing again for the same reading reproduces it byte for byte.
    w.redraw_clock(t);
    assert_eq!(w.canvas.get_data(), &first[..]);
}

#[test]
fn hands_spare_the_center_dot() {
    let mut w = Sometime::new(64, Theme::default());
    wake(&mut w, Command::Clock);
    w.build_clock_cache();
    w.redraw_clock(ten_thirty(45));

    // The skipped steps nearest the pivot keep the dial's center dot.
    let theme = Theme::default();
    let d = w.canvas.get_data();
    let i = (32 * 64 + 32) * 4;
    assert_eq!(
        [d[i], d[i + 1], d[i + 2], d[i + 3]],
        [
            theme.primary.blue,
            theme.primary.green,
            theme.primary.red,
            theme.primary.alpha
        ]
    );
}
