use termgrid::Screen;

#[test]
fn sgr_reset_restores_default_pen() {
    let mut screen = Screen::new();
    screen.parse_bytes(b"\x1b[1;4;7;9;31;42m");
    assert!(screen.model.current_attributes.bold);
    assert!(screen.model.current_attributes.underline);
    assert!(screen.model.current_attributes.reverse);
    assert!(screen.model.current_attributes.strike_through);
    assert_eq!(screen.model.current_color, 0x32);
    screen.parse_bytes(b"\x1b[0m");
    assert_eq!(
        screen.model.current_attributes,
        termgrid::Attributes::none()
    );
    assert_eq!(screen.model.current_color, 0);
}

#[test]
fn sgr_empty_parameter_means_reset() {
    let mut screen = Screen::new();
    screen.parse_bytes(b"\x1b[7m\x1b[m");
    assert_eq!(
        screen.model.current_attributes,
        termgrid::Attributes::none()
    );
}

#[test]
fn palette_nybbles_store_one_based_indices() {
    let mut screen = Screen::new();
    // Foreground red (index 1) stores 2 in the low nybble.
    screen.parse_bytes(b"\x1b[31m");
    assert_eq!(screen.model.current_color & 0x0f, 2);
    // Background green (index 2) stores 3 in the high nybble.
    screen.parse_bytes(b"\x1b[42m");
    assert_eq!(screen.model.current_color, 0x32);
    // Bright foreground white cannot be encoded and is ignored.
    screen.parse_bytes(b"\x1b[97m");
    assert_eq!(screen.model.current_color, 0x32);
    // Bright foreground red (index 9) stores 10.
    screen.parse_bytes(b"\x1b[91m");
    assert_eq!(screen.model.current_color, 0x3a);
    // Defaults clear one nybble each.
    screen.parse_bytes(b"\x1b[39m");
    assert_eq!(screen.model.current_color, 0x30);
    screen.parse_bytes(b"\x1b[49m");
    assert_eq!(screen.model.current_color, 0);
}

#[test]
fn intensity_forms_are_mutually_exclusive() {
    let mut screen = Screen::new();
    screen.parse_bytes(b"\x1b[1m");
    assert!(screen.model.current_attributes.bold);
    assert!(!screen.model.current_attributes.half_bright);
    screen.parse_bytes(b"\x1b[2m");
    assert!(!screen.model.current_attributes.bold);
    assert!(screen.model.current_attributes.half_bright);
    screen.parse_bytes(b"\x1b[22m");
    assert!(!screen.model.current_attributes.bold);
    assert!(!screen.model.current_attributes.half_bright);
}

#[test]
fn underline_variants_set_none_clears() {
    let mut screen = Screen::new();
    screen.parse_bytes(b"\x1b[4m");
    assert!(screen.model.current_attributes.underline);
    screen.parse_bytes(b"\x1b[24m");
    assert!(!screen.model.current_attributes.underline);
    // Double underline counts as underlined.
    screen.parse_bytes(b"\x1b[21m");
    assert!(screen.model.current_attributes.underline);
}

#[test]
fn extended_palette_form_selects_the_entry() {
    let mut screen = Screen::new();
    // 38;5;2 selects palette entry 2 for the foreground; the 5 and 2 must
    // not be misread as blink and half-bright.
    screen.parse_bytes(b"\x1b[38;5;2m");
    assert_eq!(screen.model.current_color, 3);
    assert!(!screen.model.current_attributes.half_bright);
    // The background form, and parameters continuing after the extended
    // form.
    screen.parse_bytes(b"\x1b[48;5;1;4m");
    assert_eq!(screen.model.current_color, 0x23);
    assert!(screen.model.current_attributes.underline);
    // An entry past the nybble encoding is consumed without effect.
    screen.parse_bytes(b"\x1b[38;5;100m");
    assert_eq!(screen.model.current_color, 0x23);
}

#[test]
fn direct_color_form_is_consumed_without_effect() {
    let mut screen = Screen::new();
    // 38;2;r;g;b names a direct color the cell encoding cannot hold: its
    // three arguments are consumed, and dispatch continues after them.
    screen.parse_bytes(b"\x1b[38;2;10;20;30;7m");
    assert_eq!(screen.model.current_color, 0);
    assert!(screen.model.current_attributes.reverse);
}

#[test]
fn malformed_extended_form_ends_the_dispatch() {
    let mut screen = Screen::new();
    // 38 followed by neither palette nor direct-color arguments discards
    // the rest of the sequence.
    screen.parse_bytes(b"\x1b[38;7m");
    assert_eq!(screen.model.current_color, 0);
    assert!(!screen.model.current_attributes.reverse);
}

#[test]
fn unrecognized_sequences_leave_grid_untouched() {
    let mut screen = Screen::new();
    screen.print("AB");
    let (x, y) = (screen.model.cursor_x, screen.model.cursor_y);
    // Unknown CSI, OSC with both terminators, a device-control string,
    // and an unknown escape: all absorbed.
    screen.parse_bytes(b"\x1b[5;7H");
    screen.parse_bytes(b"\x1b]0;title\x07");
    screen.parse_bytes(b"\x1b]0;other\x1b\\");
    screen.parse_bytes(b"\x1bPdata\x1b\\");
    screen.parse_bytes(b"\x1b=");
    assert_eq!((screen.model.cursor_x, screen.model.cursor_y), (x, y));
    assert_eq!(screen.model.line_log(0).ascii[0], b'A');
    assert_eq!(screen.model.line_log(0).ascii[1], b'B');
    assert_eq!(screen.model.line_log(0).ascii[2], 0x20);
}

#[test]
fn sequences_split_across_buffers_are_joined() {
    let mut screen = Screen::new();
    screen.parse_bytes(b"\x1b[3");
    screen.parse_bytes(b"1m");
    assert_eq!(screen.model.current_color & 0x0f, 2);
}

#[test]
fn erase_to_eol_stamps_current_pen() {
    let mut screen = Screen::new();
    screen.print("abcdef\r");
    screen.parse_bytes(b"\x1b[42m");
    screen.print("ab");
    screen.parse_bytes(b"\x1b[K");
    let line = screen.model.line_log(0);
    assert_eq!(line.ascii[0], b'a');
    assert_eq!(line.ascii[1], b'b');
    // Blanked cells carry the current pen color, not their prior one.
    for col in 2..termgrid::line::MAX_COLS {
        assert_eq!(line.ascii[col], 0x20);
        assert_eq!(line.colors[col], 0x30);
    }
    // The re-printed cells carry the pen color too.
    assert_eq!(line.colors[0], 0x30);
}

#[test]
fn non_ascii_input_prints_as_space() {
    let mut screen = Screen::new();
    // One two-byte character between two ASCII letters.
    screen.parse_bytes(b"a\xc3\xa9b");
    let line = screen.model.line_log(0);
    assert_eq!(line.ascii[0], b'a');
    assert_eq!(line.ascii[1], 0x20);
    assert_eq!(line.ascii[2], b'b');
    assert_eq!(screen.model.cursor_x, 3);
}

#[test]
fn print_str_feeds_utf8_bytes() {
    let mut screen = Screen::new();
    screen.print("hi\r\nthere");
    assert_eq!(screen.model.cursor_y, 1);
    assert_eq!(screen.model.cursor_x, 5);
    assert_eq!(screen.model.line_log(0).ascii[0], b'h');
    assert_eq!(screen.model.line_log(1).ascii[4], b'e');
}
