use sometime::Bgra;
use sometime::Canvas;
use sometime::TextCell;
use sometime::Theme;

fn idx(side: usize, x: usize, y: usize) -> usize {
    (y * side + x) * 4
}

fn pixel(c: &Canvas, side: usize, x: usize, y: usize) -> [u8; 4] {
    let d = c.get_data();
    let i = idx(side, x, y);
    [d[i], d[i + 1], d[i + 2], d[i + 3]]
}

#[test]
fn new_canvas_is_transparent() {
    let c = Canvas::new(32);
    assert_eq!(c.get_data().len(), 32 * 32 * 4);
    assert!(c.get_data().iter().all(|b| *b == 0));
}

#[test]
fn fill_rect_writes_packed_bytes() {
    let mut c = Canvas::new(32);
    let color = Bgra::from_rgba(10, 20, 30, 40);
    c.fill_rect(2, 3, 4, 5, color);
    // Packed order is blue, green, red, alpha.
    assert_eq!(pixel(&c, 32, 2, 3), [30, 20, 10, 40]);
    assert_eq!(pixel(&c, 32, 5, 7), [30, 20, 10, 40]);
    assert_eq!(pixel(&c, 32, 6, 7), [0, 0, 0, 0]);
    assert_eq!(pixel(&c, 32, 1, 3), [0, 0, 0, 0]);
}

#[test]
fn fill_rect_clips_negative_origin() {
    let mut c = Canvas::new(32);
    let color = Bgra::from_rgba(1, 2, 3, 4);
    c.fill_rect(-5, -5, 10, 10, color);
    assert_eq!(pixel(&c, 32, 0, 0), [3, 2, 1, 4]);
    assert_eq!(pixel(&c, 32, 4, 4), [3, 2, 1, 4]);
    assert_eq!(pixel(&c, 32, 5, 5), [0, 0, 0, 0]);
    assert_eq!(c.get_data().len(), 32 * 32 * 4);
}

#[test]
fn fill_rect_never_writes_outside_the_buffer() {
    let mut c = Canvas::new(16);
    let color = Bgra::from_rgba(9, 9, 9, 9);
    c.fill_rect(i32::MIN, i32::MIN, i32::MAX, i32::MAX, color);
    c.fill_rect(1000, 1000, 50, 50, color);
    assert_eq!(c.get_data().len(), 16 * 16 * 4);
}

#[test]
fn blend_full_alpha_yields_source() {
    let mut c = Canvas::new(16);
    let dst = Bgra::from_rgba(100, 110, 120, 130);
    let src = Bgra::from_rgba(10, 20, 30, 40);
    c.set_pixel(1, 1, dst);
    let i = idx(16, 1, 1);
    c.blend_pixel(i, src, 255);
    // Color channels become the source; the alpha byte is untouched.
    assert_eq!(pixel(&c, 16, 1, 1), [30, 20, 10, 130]);
}

#[test]
fn blend_zero_alpha_yields_destination() {
    let mut c = Canvas::new(16);
    let dst = Bgra::from_rgba(100, 110, 120, 130);
    let src = Bgra::from_rgba(10, 20, 30, 40);
    c.set_pixel(1, 1, dst);
    let i = idx(16, 1, 1);
    c.blend_pixel(i, src, 0);
    assert_eq!(pixel(&c, 16, 1, 1), [120, 110, 100, 130]);
}

#[test]
fn blend_out_of_range_is_a_no_op() {
    let mut c = Canvas::new(16);
    let src = Bgra::from_rgba(10, 20, 30, 40);
    let before = c.get_data().to_vec();
    c.blend_pixel(16 * 16 * 4, src, 255);
    c.blend_pixel(usize::MAX, src, 255);
    c.blend_pixel(16 * 16 * 4 - 2, src, 255);
    assert_eq!(c.get_data(), &before[..]);
}

#[test]
fn circle_band_colors_by_squared_distance() {
    let mut c = Canvas::new(32);
    let color = Bgra::from_rgba(7, 8, 9, 10);
    c.fill_circle_band(16, 16, 0, 16, color);
    assert_eq!(pixel(&c, 32, 16, 16), [9, 8, 7, 10]);
    assert_eq!(pixel(&c, 32, 16, 19), [9, 8, 7, 10]);
    assert_eq!(pixel(&c, 32, 16, 20), [0, 0, 0, 0]);
}

#[test]
fn face_bands_in_priority_order() {
    let mut c = Canvas::new(64);
    let theme = Theme::default();
    c.draw_face(theme);
    let p = theme.primary;
    let b = theme.background;
    let f = theme.frame;
    // Center dot.
    assert_eq!(pixel(&c, 64, 32, 32), [p.blue, p.green, p.red, p.alpha]);
    // Dial face.
    assert_eq!(pixel(&c, 64, 32, 16), [b.blue, b.green, b.red, b.alpha]);
    // Outer rim: squared distance 31*31 = 961 is past (32-2)^2 = 900.
    assert_eq!(pixel(&c, 64, 32, 1), [f.blue, f.green, f.red, f.alpha]);
    // Outside the dial circle.
    assert_eq!(pixel(&c, 64, 0, 0), [0, 0, 0, 0]);
}

#[test]
fn second_hand_paints_the_upward_axis() {
    let mut c = Canvas::new(64);
    let color = Bgra::from_rgba(200, 100, 50, 255);
    c.draw_second_hand(0, color);
    assert_eq!(c.get_data().len(), 64 * 64 * 4);
    // At zero seconds the hand points straight up from the center.
    assert_eq!(pixel(&c, 64, 32, 11), [50, 100, 200, 0]);
    assert!(c.get_data().iter().any(|v| *v != 0));
}

#[test]
fn hands_never_resize_the_buffer() {
    let mut c = Canvas::new(48);
    let color = Bgra::from_rgba(1, 2, 3, 4);
    for h in 0..24 {
        c.draw_hour_hand(h, 59, color);
    }
    for m in 0..60 {
        c.draw_minute_hand(m, color);
        c.draw_second_hand(m, color);
    }
    assert_eq!(c.get_data().len(), 48 * 48 * 4);
}

#[test]
fn text_cells_blend_with_coverage() {
    let mut c = Canvas::new(32);
    let color = Bgra::from_rgba(80, 90, 100, 255);
    let cells = vec![
        TextCell { dx: 0, dy: 0, coverage: 255 },
        TextCell { dx: 1, dy: 0, coverage: 0 },
        TextCell { dx: -100, dy: -100, coverage: 255 },
    ];
    c.composite_text_cells(5, 6, &cells, color);
    assert_eq!(pixel(&c, 32, 5, 6), [100, 90, 80, 0]);
    assert_eq!(pixel(&c, 32, 6, 6), [0, 0, 0, 0]);
}

#[test]
fn compositing_nothing_changes_nothing() {
    let mut c = Canvas::new(32);
    c.fill_rect(0, 0, 32, 32, Bgra::from_rgba(5, 6, 7, 8));
    let before = c.get_data().to_vec();
    let cells: Vec<TextCell> = Vec::new();
    c.composite_text_cells(0, 0, &cells, Bgra::from_rgba(1, 1, 1, 1));
    assert_eq!(c.get_data(), &before[..]);
}

#[test]
fn capture_and_restore_round_trip() {
    let mut c = Canvas::new(32);
    c.fill_rect(3, 3, 9, 9, Bgra::from_rgba(11, 22, 33, 44));
    let snapshot = c.capture();
    c.fill_rect(0, 0, 32, 32, Bgra::from_rgba(1, 1, 1, 1));
    c.restore_from(&snapshot);
    assert_eq!(c.get_data(), &snapshot[..]);
}

#[test]
fn color_accessors_and_default_theme() {
    let c = Bgra::from_rgba(1, 2, 3, 4);
    assert_eq!(c.r(), 1);
    assert_eq!(c.g(), 2);
    assert_eq!(c.b(), 3);
    assert_eq!(c.a(), 4);
    let t = Theme::default();
    assert_eq!(t.background.b(), 37);
    assert_eq!(t.background.r(), 24);
    assert_eq!(t.primary.r(), 235);
    assert_eq!(t.secondary.g(), 194);
    assert_eq!(t.highlight.a(), 242);
    assert_eq!(t.frame.a(), 42);
}
