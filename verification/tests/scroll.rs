use llm_tui::scroll::{clamp, scroll, scroll_to_bottom};

#[test]
fn content_that_fits_forces_the_offset_to_zero() {
    for offset in [0u16, 1, 5, 10, 20, 1000, u16::MAX] {
        assert_eq!(clamp(10, 20, offset), 0);
    }
    assert_eq!(clamp(20, 20, 7), 0);
    assert_eq!(clamp(0, 0, 7), 0);
}

#[test]
fn content_that_overhangs_clamps_the_offset() {
    assert_eq!(clamp(30, 20, 10), 10);
    assert_eq!(clamp(30, 20, 11), 10);
    assert_eq!(clamp(30, 20, u16::MAX), 10);
    assert_eq!(clamp(30, 20, 9), 9);
    assert_eq!(clamp(30, 20, 0), 0);
}

#[test]
fn scrolling_to_the_bottom_shows_the_last_line() {
    assert_eq!(scroll_to_bottom(30, 20), 10);
    assert_eq!(scroll_to_bottom(10, 20), 0);
    assert_eq!(scroll_to_bottom(u16::MAX, 0), u16::MAX);
}

#[test]
fn scrolling_by_a_line_stops_at_the_ends() {
    assert_eq!(scroll(5, true), 4);
    assert_eq!(scroll(5, false), 6);
    assert_eq!(scroll(0, true), 0);
    assert_eq!(scroll(u16::MAX, false), u16::MAX);
}
