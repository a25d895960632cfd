use termgrid::action::TermAction;
use termgrid::line::MAX_COLS;
use termgrid::Screen;

fn row_text(screen: &Screen, row: u8, len: usize) -> String {
    let line = screen.model.line_log(row);
    line.ascii[..len].iter().map(|&b| b as char).collect()
}

#[test]
fn fresh_screen_geometry() {
    let screen = Screen::new();
    assert_eq!(screen.model.width, 45);
    assert_eq!(screen.model.height, 26);
    assert_eq!(screen.model.cursor_x, 0);
    assert_eq!(screen.model.cursor_y, 0);
    assert!(screen.model.full_repaint);
}

#[test]
fn ab_cr_lf_cd_scenario() {
    let mut screen = Screen::new();
    screen.parse_bytes(b"AB\r\nCD");
    assert_eq!(row_text(&screen, 0, 2), "AB");
    assert_eq!(row_text(&screen, 1, 2), "CD");
    // The rest of both rows stays blank.
    for col in 2..MAX_COLS {
        assert_eq!(screen.model.line_log(0).ascii[col], 0x20);
        assert_eq!(screen.model.line_log(1).ascii[col], 0x20);
    }
    assert_eq!(screen.model.cursor_x, 2);
    assert_eq!(screen.model.cursor_y, 1);
}

#[test]
fn cursor_stays_in_bounds_under_printing() {
    let mut screen = Screen::new();
    for i in 0..5000u32 {
        let b = b'a' + (i % 26) as u8;
        screen.model.print_char(b);
        assert!(screen.model.cursor_x < screen.model.width);
        assert!(screen.model.cursor_y < screen.model.height);
    }
}

#[test]
fn full_row_of_prints_wraps_and_dirties_one_more_row() {
    let mut screen = Screen::new();
    // Settle the dirty flags first.
    let _ = screen.model.update_display();
    let width = screen.model.width as usize;
    for _ in 0..width {
        screen.model.print_char(b'x');
    }
    assert_eq!(screen.model.cursor_x, 0);
    assert_eq!(screen.model.cursor_y, 1);
    assert!(screen.model.line_log(0).needs_paint);
    assert!(screen.model.line_log(1).needs_paint);
    for r in 2..screen.model.height {
        assert!(!screen.model.line_log(r).needs_paint);
    }
}

#[test]
fn scrolling_preserves_order_and_clears_new_rows() {
    let mut screen = Screen::new();
    let height = screen.model.height;
    // Fill exactly the visible height with numbered lines.
    for i in 0..height {
        if i > 0 {
            screen.parse_bytes(b"\r\n");
        }
        screen.print(&format!("R{i:02}"));
    }
    assert_eq!(screen.model.cursor_y, height - 1);
    // Scroll three rows past the bottom.
    screen.parse_bytes(b"\r\n\r\n\r\n");
    assert_eq!(screen.model.cursor_y, height - 1);
    for r in 0..height - 3 {
        assert_eq!(row_text(&screen, r, 3), format!("R{:02}", r + 3));
    }
    // Exactly the newly visible bottom rows are blank.
    for r in height - 3..height {
        for col in 0..MAX_COLS {
            assert_eq!(screen.model.line_log(r).ascii[col], 0x20);
        }
    }
    // The scrolled-off rows stay addressable behind the window.
    assert_eq!(
        row_text(&screen, termgrid::model::MAX_LINES as u8 - 3, 3),
        "R00"
    );
}

#[test]
fn one_line_past_height_returns_second_line_at_row_zero() {
    let mut screen = Screen::new();
    let height = screen.model.height;
    // One more line than the visible height.
    for i in 0..=height {
        if i > 0 {
            screen.parse_bytes(b"\r\n");
        }
        screen.print(&format!("L{i:02}"));
    }
    assert_eq!(row_text(&screen, 0, 3), "L01");
}

#[test]
fn multi_row_overflow_clears_every_newly_visible_row() {
    // Shrinking the font leaves the cursor row below the new visible
    // height; the next line feed must scroll several rows in one pass and
    // blank each row that enters at the bottom, not just the last one.
    let mut screen = Screen::new();
    let old_height = screen.model.height; // 26
    for i in 0..old_height {
        if i > 0 {
            screen.parse_bytes(b"\r\n");
        }
        screen.print(&format!("R{i:02}"));
    }
    assert_eq!(screen.model.cursor_y, old_height - 1);
    screen.model.increase_font();
    let height = screen.model.height; // 21
    assert!(screen.model.cursor_y >= height);
    screen.parse_bytes(b"\r\n");
    assert_eq!(screen.model.cursor_y, height - 1);
    // The font change advanced the window start by the height delta (5)
    // and the scroll check advanced it six rows more: the remaining
    // visible rows show the text from eleven rows below.
    let scrolled = old_height - height + 1; // 6
    let shift = (old_height - height) + scrolled; // 11
    for r in 0..height - scrolled {
        assert_eq!(row_text(&screen, r, 3), format!("R{:02}", r + shift));
    }
    // Every newly visible row is blank, with no stale scrollback content.
    for r in height - scrolled..height {
        for col in 0..MAX_COLS {
            assert_eq!(screen.model.line_log(r).ascii[col], 0x20);
        }
    }
}

#[test]
fn backspace_wraps_to_previous_row_and_stops_at_origin() {
    let mut screen = Screen::new();
    screen.parse_bytes(b"AB\r\nC");
    assert_eq!((screen.model.cursor_x, screen.model.cursor_y), (1, 1));
    screen.parse_bytes(&[0x08]);
    assert_eq!((screen.model.cursor_x, screen.model.cursor_y), (0, 1));
    // At column 0 the cursor wraps to column `width` of the row above.
    screen.parse_bytes(&[0x08]);
    assert_eq!(screen.model.cursor_x, screen.model.width);
    assert_eq!(screen.model.cursor_y, 0);
    // At the origin the cursor stays on row 0.
    let mut screen2 = Screen::new();
    screen2.parse_bytes(&[0x08]);
    assert_eq!(screen2.model.cursor_y, 0);
    assert_eq!(screen2.model.cursor_x, screen2.model.width);
}

#[test]
fn erase_then_rewrite_reproduces_row_exactly() {
    let mut screen = Screen::new();
    screen.print("hello world");
    screen.parse_bytes(b"\r");
    let before: (Vec<u8>, Vec<u8>) = {
        let mut s2 = Screen::new();
        s2.print("hello world");
        s2.parse_bytes(b"\r");
        // Erase to end of line, then re-print the same text from column 0.
        s2.parse_bytes(b"\x1b[K");
        s2.print("hello world");
        let l = s2.model.line_log(0);
        (l.ascii.clone(), l.colors.clone())
    };
    screen.parse_bytes(b"\x1b[K");
    screen.print("hello world");
    let l = screen.model.line_log(0);
    assert_eq!(l.ascii, before.0);
    assert_eq!(l.colors, before.1);
    assert_eq!(row_text(&screen, 0, 11), "hello world");
}

#[test]
fn erase_display_blanks_every_visible_row() {
    let mut screen = Screen::new();
    screen.print("one\r\ntwo\r\nthree");
    screen.parse_bytes(b"\x1b[2J");
    for r in 0..screen.model.height {
        for col in 0..MAX_COLS {
            assert_eq!(screen.model.line_log(r).ascii[col], 0x20);
        }
    }
    // Erase display does not move the cursor.
    assert_eq!(screen.model.cursor_y, 2);
}

#[test]
fn clear_resets_everything() {
    let mut screen = Screen::new();
    screen.print("\x1b[1;31mtext");
    screen.model.clear();
    assert_eq!(screen.model.cursor_x, 0);
    assert_eq!(screen.model.cursor_y, 0);
    assert_eq!(screen.model.current_color, 0);
    assert!(!screen.model.current_attributes.bold);
    assert!(screen.model.full_repaint);
    for col in 0..MAX_COLS {
        assert_eq!(screen.model.line_log(0).ascii[col], 0x20);
    }
}

#[test]
fn print_char_replaces_non_ascii_with_space() {
    let mut screen = Screen::new();
    screen.model.print_char(0xe9);
    screen.model.print_char(b'z');
    let line = screen.model.line_log(0);
    assert_eq!(line.ascii[0], 0x20);
    assert_eq!(line.ascii[1], b'z');
}

#[test]
fn apply_action_print_writes_pen_cell() {
    let mut screen = Screen::new();
    screen.model.apply_action(TermAction::SgrForeground(1));
    screen.model.apply_action(TermAction::Print(b'Z'));
    let line = screen.model.line_log(0);
    assert_eq!(line.ascii[0], b'Z');
    assert_eq!(line.colors[0], 2);
    assert_eq!(screen.model.cursor_x, 1);
}

#[test]
fn font_change_recomputes_geometry_and_forces_repaint() {
    let mut screen = Screen::new();
    let _ = screen.model.update_display();
    assert!(!screen.model.full_repaint);
    screen.model.increase_font();
    assert_eq!(screen.model.font, 3);
    assert_eq!(screen.model.width, 40);
    assert_eq!(screen.model.height, 21);
    assert!(screen.model.full_repaint);
    screen.model.decrease_font();
    assert_eq!(screen.model.font, 2);
    assert_eq!(screen.model.width, 45);
    assert_eq!(screen.model.height, 26);
    // At the smallest font, stepping down stays there.
    let mut small = Screen::new();
    small.model.decrease_font();
    small.model.decrease_font();
    small.model.decrease_font();
    assert_eq!(small.model.font, 0);
    small.model.decrease_font();
    assert_eq!(small.model.font, 0);
    assert_eq!(small.model.width, 64);
    assert_eq!(small.model.height, 32);
}
