use termgrid::model::SCAN_HEIGHT;
use termgrid::paint::{DrawOp, Rgb};
use termgrid::Screen;

fn draw_call_count(ops: &[DrawOp]) -> usize {
    ops.len()
}

#[test]
fn paint_twice_second_pass_is_empty() {
    let mut screen = Screen::new();
    screen.print("hello");
    let first = screen.model.update_display();
    assert!(draw_call_count(&first) > 0);
    let second = screen.model.update_display();
    assert_eq!(draw_call_count(&second), 0);
}

#[test]
fn untouched_screen_after_full_paint_stays_quiet() {
    let mut screen = Screen::new();
    let _ = screen.model.update_display();
    let again = screen.model.update_display();
    assert!(again.is_empty());
}

#[test]
fn full_repaint_starts_with_surface_clear_and_resets_offset() {
    let mut screen = Screen::new();
    assert!(screen.model.full_repaint);
    let ops = screen.model.update_display();
    assert!(matches!(
        ops[0],
        DrawOp::ClearAll { color: Rgb { r: 0, g: 0, b: 0 } }
    ));
    assert!(!screen.model.full_repaint);
    assert_eq!(screen.model.pixel_offset_first_line, 0);
    // The plan ends with the scroll-offset update.
    assert!(matches!(ops.last(), Some(DrawOp::SetScrollOffset { offset: 0 })));
}

#[test]
fn incremental_paint_touches_only_dirty_rows() {
    let mut screen = Screen::new();
    let _ = screen.model.update_display();
    screen.print("Q");
    let ops = screen.model.update_display();
    // One dirty row: its clusters, the blank row below the bottom, and the
    // scroll-offset update; every fill sits at a row-0 or below-bottom
    // band, none elsewhere.
    assert!(!ops.is_empty());
    let ch = 12u16; // cell height of the startup font
    let expected_rows = [0u16, screen.model.height as u16 * ch];
    for op in &ops {
        if let DrawOp::FillRect { y, .. } = op {
            assert!(expected_rows.contains(y), "unexpected fill row {y}");
        }
    }
    // Painting cleared the dirty flag.
    assert!(!screen.model.line_log(0).needs_paint);
}

#[test]
fn dirty_row_paints_text_with_resolved_colors() {
    let mut screen = Screen::new();
    let _ = screen.model.update_display();
    screen.print("\x1b[31;42mAB");
    let ops = screen.model.update_display();
    // Find the text op for the two red-on-green cells.
    let mut found = false;
    for op in &ops {
        if let DrawOp::DrawText { text, fg, bg, x, .. } = op {
            if text == b"AB" {
                found = true;
                assert_eq!(*x, 0);
                assert_eq!(*fg, Rgb { r: 0xcc, g: 0x55, b: 0x55 });
                assert_eq!(*bg, Rgb { r: 0x55, g: 0xcc, b: 0x55 });
            }
        }
    }
    assert!(found);
}

#[test]
fn bold_and_half_bright_override_foreground() {
    let mut screen = Screen::new();
    let _ = screen.model.update_display();
    screen.print("\x1b[1;34mB");
    let ops = screen.model.update_display();
    let mut found = false;
    for op in &ops {
        if let DrawOp::DrawText { text, fg, .. } = op {
            if text == b"B" {
                found = true;
                // Bold forces the salmon foreground regardless of the blue.
                assert_eq!(*fg, Rgb { r: 0xfa, g: 0x80, b: 0x72 });
            }
        }
    }
    assert!(found);
}

#[test]
fn reverse_swaps_foreground_and_background() {
    let mut screen = Screen::new();
    let _ = screen.model.update_display();
    screen.print("\x1b[7mR");
    let ops = screen.model.update_display();
    let mut found = false;
    for op in &ops {
        if let DrawOp::DrawText { text, fg, bg, .. } = op {
            if text == b"R" {
                found = true;
                assert_eq!(*fg, Rgb { r: 0, g: 0, b: 0 });
                assert_eq!(*bg, Rgb { r: 0, g: 0xff, b: 0 });
            }
        }
    }
    assert!(found);
}

#[test]
fn scroll_advances_hardware_offset_by_cell_height() {
    let mut screen = Screen::new();
    let _ = screen.model.update_display();
    let height = screen.model.height;
    for _ in 0..height {
        screen.parse_bytes(b"x\r\n");
    }
    // One row scrolled: the offset advances by one cell height (12 px for
    // the startup font).
    assert_eq!(screen.model.pixel_offset_first_line, 12);
    let ops = screen.model.update_display();
    assert!(matches!(
        ops.last(),
        Some(DrawOp::SetScrollOffset { offset: 12 })
    ));
}

#[test]
fn wrapped_band_is_drawn_twice_near_scan_boundary() {
    // Font index 1 has an 11-pixel cell: 480 is not a multiple, so a row
    // crossing the boundary is drawn at its offset and again shifted.
    let mut screen = Screen::new();
    screen.model.decrease_font();
    assert_eq!(screen.model.font, 1);
    let _ = screen.model.update_display();
    // Scroll until some visible row's band reaches the 473-pixel boundary
    // of the 11-pixel cells.
    for _ in 0..60 {
        screen.parse_bytes(b"y\r\n");
    }
    let ops = screen.model.update_display();
    let mut wrapped = false;
    for op in &ops {
        if let DrawOp::FillRect { height, .. } = op {
            if *height == 480 - 473 {
                wrapped = true;
            }
        }
    }
    assert!(wrapped);
    for op in &ops {
        if let DrawOp::FillRect { y, .. } = op {
            assert!(*y < SCAN_HEIGHT);
        }
    }
}
