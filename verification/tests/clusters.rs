use termgrid::line::MAX_COLS;
use termgrid::Screen;

#[test]
fn clusters_concatenate_to_the_whole_row() {
    let mut screen = Screen::new();
    screen.print("red:\x1b[31mRR\x1b[0m plain \x1b[7minv");
    let line = screen.model.line_log(0);
    let clusters = line.clusters(None);
    let mut rebuilt: Vec<u8> = Vec::new();
    let mut next_col = 0usize;
    for c in &clusters {
        // No gaps, no overlaps, in column order.
        assert_eq!(c.start_col, next_col);
        assert_eq!(c.text.len(), c.end_col - c.start_col);
        next_col = c.end_col;
        rebuilt.extend_from_slice(&c.text);
    }
    assert_eq!(next_col, MAX_COLS);
    assert_eq!(rebuilt, line.ascii);
}

#[test]
fn clusters_split_exactly_at_style_changes() {
    let mut screen = Screen::new();
    screen.print("aa\x1b[31mbb\x1b[0mcc");
    let line = screen.model.line_log(0);
    let clusters = line.clusters(None);
    // Runs: "aa" plain, "bb" red, then "cc" merging into the blank tail
    // (same plain style).
    assert_eq!(clusters.len(), 3);
    assert_eq!(&clusters[0].text, b"aa");
    assert_eq!(clusters[0].color, 0);
    assert_eq!(&clusters[1].text, b"bb");
    assert_eq!(clusters[1].color, 2);
    assert_eq!(clusters[2].start_col, 4);
    assert_eq!(clusters[2].end_col, MAX_COLS);
    assert_eq!(&clusters[2].text[..2], b"cc");
}

#[test]
fn cursor_cluster_has_reverse_toggled() {
    let mut screen = Screen::new();
    screen.print("abcd");
    let line = screen.model.line_log(0);
    let cursor_col = 2u8;
    let clusters = line.clusters(Some(cursor_col));
    let covering: Vec<_> = clusters
        .iter()
        .filter(|c| c.start_col <= cursor_col as usize && (cursor_col as usize) < c.end_col)
        .collect();
    assert_eq!(covering.len(), 1);
    let cursor_cluster = covering[0];
    // The underlying cell is not reversed; the cursor cluster is.
    assert!(!line.attributes[cursor_col as usize].reverse);
    assert!(cursor_cluster.attributes.reverse);
    // The splice forces a break exactly at the cursor column.
    assert_eq!(cursor_cluster.start_col, cursor_col as usize);
    // Every other cluster carries its cells' own attributes.
    for c in &clusters {
        if c.start_col != cursor_col as usize {
            for col in c.start_col..c.end_col {
                if col != cursor_col as usize {
                    assert_eq!(c.attributes, line.attributes[col]);
                }
            }
        }
    }
}

#[test]
fn cursor_on_reversed_cell_shows_unreversed() {
    let mut screen = Screen::new();
    screen.print("\x1b[7mXY");
    let line = screen.model.line_log(0);
    let clusters = line.clusters(Some(0));
    assert!(line.attributes[0].reverse);
    assert!(!clusters[0].attributes.reverse);
}

#[test]
fn cluster_iterator_walks_in_order() {
    let mut screen = Screen::new();
    screen.print("x\x1b[31my");
    let line = screen.model.line_log(0);
    let expected = line.clusters(None);
    let mut it = line.cluster(None);
    let mut k = 0;
    while let Some(c) = it.next() {
        assert_eq!(c.start_col, expected[k].start_col);
        assert_eq!(c.end_col, expected[k].end_col);
        assert_eq!(c.text, expected[k].text);
        assert_eq!(c.color, expected[k].color);
        k += 1;
    }
    assert_eq!(k, expected.len());
}

#[test]
fn cursor_cluster_can_extend_over_matching_cells() {
    // If the cell after the cursor already shows the toggled style, it
    // joins the cursor cluster rather than opening a new one.
    let mut screen = Screen::new();
    screen.print("a\x1b[7mb");
    // Row: col0 plain 'a', col1 reversed 'b', blanks plain after.
    let line = screen.model.line_log(0);
    let clusters = line.clusters(Some(0));
    // Cursor at col 0 shows reversed, and col 1 is genuinely reversed with
    // the same color, so both share one cluster.
    assert_eq!(clusters[0].start_col, 0);
    assert_eq!(clusters[0].end_col, 2);
    assert!(clusters[0].attributes.reverse);
}
