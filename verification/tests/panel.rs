use reticula::framebuffer::Framebuffer;
use reticula::panel::TdeckScreen;
use reticula::theme::Color;

fn red() -> Color {
    Color::new(31, 0, 0)
}

fn blue() -> Color {
    Color::new(0, 0, 31)
}

fn black() -> Color {
    Color::new(0, 0, 0)
}

#[test]
fn fill_solid_clips_to_frame() {
    let mut fb = Framebuffer::new(4, 3);
    fb.fill_solid(-1, 1, 3, 5, red());
    for y in 0..3u32 {
        for x in 0..4u32 {
            let inside = x < 2 && y >= 1;
            let want = if inside { red() } else { black() };
            assert_eq!(fb.pixel(x, y), want, "pixel {},{}", x, y);
        }
    }
}

#[test]
fn fill_solid_empty_rect_changes_nothing() {
    let mut fb = Framebuffer::new(4, 3);
    fb.fill_solid(1, 1, 0, 2, red());
    fb.fill_solid(5, 0, 2, 2, red());
    assert!(fb.same_pixels(&vec![black(); 12]));
}

#[test]
fn fill_contiguous_wraps_rows() {
    let mut fb = Framebuffer::new(4, 3);
    // Two-pixel-wide run starting at (1, 0): colours land at
    // (1,0) (2,0) (1,1) (2,1) (1,2).
    let colors = vec![red(), blue(), blue(), red(), red()];
    fb.fill_contiguous(1, 0, 2, &colors);
    assert_eq!(fb.pixel(1, 0), red());
    assert_eq!(fb.pixel(2, 0), blue());
    assert_eq!(fb.pixel(1, 1), blue());
    assert_eq!(fb.pixel(2, 1), red());
    assert_eq!(fb.pixel(1, 2), red());
    assert_eq!(fb.pixel(2, 2), black());
    assert_eq!(fb.pixel(0, 0), black());
    assert_eq!(fb.pixel(3, 1), black());
}

#[test]
fn fill_contiguous_skips_outside_and_clamps_origin() {
    let mut fb = Framebuffer::new(3, 2);
    // Negative origin is clamped to 0; a run three wide starting at column 2
    // only lands its first column inside the frame.
    fb.fill_contiguous(-5, -5, 1, &[red(), blue()]);
    assert_eq!(fb.pixel(0, 0), red());
    assert_eq!(fb.pixel(0, 1), blue());
    let mut fb2 = Framebuffer::new(3, 2);
    fb2.fill_contiguous(2, 0, 3, &[red(), blue(), blue(), red()]);
    assert_eq!(fb2.pixel(2, 0), red());
    assert_eq!(fb2.pixel(2, 1), red());
    assert_eq!(fb2.pixel(1, 0), black());
    // Width 0 runs one pixel wide.
    let mut fb3 = Framebuffer::new(3, 2);
    fb3.fill_contiguous(1, 0, 0, &[blue(), red()]);
    assert_eq!(fb3.pixel(1, 0), blue());
    assert_eq!(fb3.pixel(1, 1), red());
}

#[test]
fn screen_flushes_only_changed_frames() {
    let mut s = TdeckScreen::new(8, 4);
    assert_eq!(s.size(), (8, 4));
    assert!(!s.needs_flush());
    s.clear(blue());
    assert!(s.needs_flush());
    s.mark_flushed();
    assert!(!s.needs_flush());
    // Redrawing the same static screen gives the same frame: no flush.
    s.clear(blue());
    s.fill_solid(0, 0, 8, 4, blue());
    assert!(!s.needs_flush());
    s.fill_solid(2, 1, 1, 1, red());
    assert!(s.needs_flush());
    s.mark_flushed();
    s.fill_solid(2, 1, 1, 1, red());
    assert!(!s.needs_flush());
    assert_eq!(s.frame().pixel(2, 1), red());
}

#[test]
fn screen_draw_iter_puts_in_order_and_skips_outside() {
    let mut s = TdeckScreen::new(4, 4);
    s.draw_iter(&[(1, 1, red()), (1, 1, blue()), (-1, 0, red()), (4, 0, red()), (3, 3, red())]);
    assert_eq!(s.frame().pixel(1, 1), blue());
    assert_eq!(s.frame().pixel(3, 3), red());
    assert_eq!(s.frame().pixel(0, 0), black());
    assert!(s.needs_flush());
    s.fill_contiguous(0, 0, 4, &[red(); 16]);
    s.mark_flushed();
    assert!(s.frame().same_pixels(&vec![red(); 16]));
    assert!(!s.needs_flush());
}
