//! Laws of the grid, stated and proved over the mathematical model: the
//! cursor stays in bounds under printing, scrolling preserves the order of
//! what was printed and clears exactly what becomes newly visible, erase
//! and rewrite reproduce a row exactly, pen reset restores the defaults,
//! and a paint pass leaves nothing for an immediate second pass to draw.

use vstd::prelude::*;

use crate::action::TermAction;
use crate::cell::{Attributes, Style};
use crate::line::{LineView, BLANK_CHAR, MAX_COLS};
use crate::model::{lemma_geometry, ModelView, MAX_LINES};
use crate::paint::{paint_needed, rows_ops, spec_paint, visible_cleaned, DrawOpV};

verus! {

/// One scroll step keeps the grid structurally well formed and moves the
/// cursor row up by one; only the ring bookkeeping and the reused row
/// change.
pub proof fn lemma_scroll_once(v: ModelView)
    requires
        v.wf_core(),
        v.cursor_y > 0,
    ensures
        v.scroll_once().wf_core(),
        v.scroll_once().cursor_y == v.cursor_y - 1,
        v.scroll_once().height == v.height,
        v.scroll_once().width == v.width,
        v.scroll_once().font == v.font,
        v.scroll_once().cursor_x == v.cursor_x,
        v.scroll_once().attrs == v.attrs,
        v.scroll_once().color == v.color,
        v.scroll_once().full_repaint == v.full_repaint,
{
    let w = v.scroll_once();
    assert(LineView::blank().wf());
    assert forall|q: int| 0 <= q < MAX_LINES implies (#[trigger] w.lines[q]).wf() by {
        if q != v.log_to_phys(v.height) {
            assert(w.lines[q] == v.lines[q]);
        }
    }
}

/// Scrolling until the cursor row is visible again ends with the cursor
/// row strictly inside the visible height, the grid structurally well
/// formed, and the geometry, pen and cursor column untouched.
pub proof fn lemma_scroll_steps(v: ModelView)
    requires
        v.wf_core(),
        v.height > 0,
    ensures
        v.scroll_steps().wf_core(),
        0 <= v.scroll_steps().cursor_y < v.height,
        v.scroll_steps().cursor_y <= v.cursor_y,
        v.cursor_y >= v.height ==> v.scroll_steps().cursor_y == v.height - 1,
        v.scroll_steps().height == v.height,
        v.scroll_steps().width == v.width,
        v.scroll_steps().font == v.font,
        v.scroll_steps().cursor_x == v.cursor_x,
        v.scroll_steps().attrs == v.attrs,
        v.scroll_steps().color == v.color,
        v.scroll_steps().full_repaint == v.full_repaint,
    decreases v.cursor_y,
{
    if v.cursor_y >= v.height && v.cursor_y > 0 {
        lemma_scroll_once(v);
        lemma_scroll_steps(v.scroll_once());
    }
}

/// The scroll check keeps the grid well formed at rest and leaves the
/// cursor inside the visible area.
pub proof fn lemma_check_scrolled(v: ModelView)
    requires
        v.wf_core(),
        v.height > 0,
    ensures
        v.check_scrolled().wf(),
        0 <= v.check_scrolled().cursor_y < v.height,
        v.check_scrolled().height == v.height,
        v.check_scrolled().width == v.width,
        v.check_scrolled().cursor_x == v.cursor_x,
        v.check_scrolled().attrs == v.attrs,
        v.check_scrolled().color == v.color,
{
    lemma_scroll_steps(v);
    let w = v.scroll_steps();
    crate::model::lemma_with_line_log_wf(w, w.cursor_y, w.line_log(w.cursor_y).with_dirty(true));
    lemma_geometry(v.font);
}

/// For every sequence of prints, the cursor stays within the visible grid:
/// after any print from a state whose cursor is in bounds, the cursor
/// column lies in `[0, width)` and the cursor row in `[0, height)`.
pub proof fn lemma_print_cursor_in_bounds(v: ModelView, b: u8)
    requires
        v.wf(),
        v.cursor_y < v.height,
    ensures
        v.print_char(b).wf(),
        0 <= v.print_char(b).cursor_x < v.width,
        0 <= v.print_char(b).cursor_y < v.height,
        v.print_char(b).height == v.height,
        v.print_char(b).width == v.width,
{
    lemma_geometry(v.font);
    let pen = v.pen();
    let bw = crate::model::printable_byte(b);
    let written = v.with_line_log(
        v.cursor_y,
        v.line_log(v.cursor_y).with_cell(v.cursor_x, bw, pen),
    );
    crate::model::lemma_with_line_log_wf(
        v,
        v.cursor_y,
        v.line_log(v.cursor_y).with_cell(v.cursor_x, bw, pen),
    );
    if v.cursor_x + 1 >= v.width {
        let wrapped = ModelView { cursor_x: 0, cursor_y: v.cursor_y + 1, ..written };
        let marked = wrapped.mark_row_dirty(wrapped.cursor_y);
        crate::model::lemma_with_line_log_wf(
            wrapped,
            wrapped.cursor_y,
            wrapped.line_log(wrapped.cursor_y).with_dirty(true),
        );
        lemma_check_scrolled(marked);
    }
}

/// Pen reset: after the reset action — whatever combination of bold,
/// half-bright, underline, strike-through, reverse and palette colors the
/// pen holds — the pen returns to the default attribute set and to color
/// byte 0 (default foreground and background).
pub proof fn lemma_sgr_reset_restores_defaults(v: ModelView)
    ensures
        v.applied(TermAction::SgrReset).attrs == Attributes::none(),
        v.applied(TermAction::SgrReset).color == 0,
        v.applied(TermAction::SgrReset).lines == v.lines,
        v.applied(TermAction::SgrReset).cursor_x == v.cursor_x,
        v.applied(TermAction::SgrReset).cursor_y == v.cursor_y,
{
}

/// The rows of a grid with no dirty visible row and no pending full
/// repaint produce no drawing operations.
proof fn lemma_rows_ops_clean(v: ModelView, r: int, row_y: int)
    requires
        forall|q: int| 0 <= q < v.height ==> !(#[trigger] v.line_log(q)).dirty,
    ensures
        rows_ops(v, false, r, row_y) == Seq::<DrawOpV>::empty(),
    decreases v.height - r,
{
    if 0 <= r < v.height {
        lemma_rows_ops_clean(v, r + 1, crate::paint::wrap_scan(row_y + crate::font::spec_font_height(v.font)));
        assert(rows_ops(v, false, r, row_y) =~= Seq::<DrawOpV>::empty());
    }
}

/// Painter idempotence: a paint pass consumes everything there was to
/// draw. The pass issues drawing operations exactly when a full repaint
/// was pending or some visible row was dirty — and a second pass
/// immediately after, with no intervening mutation, issues none at all.
pub proof fn lemma_paint_idempotent(v: ModelView)
    requires
        v.wf(),
    ensures
        paint_needed(
            if v.full_repaint {
                ModelView { full_repaint: false, pixel_offset: 0, ..v }
            } else {
                v
            },
            v.full_repaint,
        ) ==> spec_paint(v).1.len() > 0,
        spec_paint(spec_paint(v).0).1 == Seq::<DrawOpV>::empty(),
{
    let full = v.full_repaint;
    let v1 = if full {
        ModelView { full_repaint: false, pixel_offset: 0, ..v }
    } else {
        v
    };
    let v2 = spec_paint(v).0;
    assert(v2 == visible_cleaned(v1));
    assert(!v2.full_repaint);

    // Every visible row of the painted grid is clean.
    assert forall|q: int| 0 <= q < v2.height implies !(#[trigger] v2.line_log(q)).dirty by {
        lemma_geometry(v.font);
        let p = v2.log_to_phys(q);
        assert(v2.phys_to_log(p) == q);
        assert(v2.lines[p] == v1.lines[p].with_dirty(false));
    }
    assert(!paint_needed(v2, false));
    lemma_rows_ops_clean(v2, 0, v2.pixel_offset);
    assert(spec_paint(v2).1 =~= Seq::<DrawOpV>::empty());
}

/// The grid after printing a sequence of characters, first to last.
pub open spec fn print_seq(v: ModelView, bs: Seq<u8>) -> ModelView
    decreases bs.len(),
{
    if bs.len() == 0 {
        v
    } else {
        print_seq(v.print_char(bs[0]), bs.subrange(1, bs.len() as int))
    }
}

/// For all sequences of prints, the logical cursor stays within
/// `[0, height) x [0, width)` after every call: from any state with the
/// cursor in bounds, any nonempty print sequence ends (and, by the same
/// induction, passes through every intermediate state) with the cursor in
/// bounds.
pub proof fn lemma_print_seq_cursor_in_bounds(v: ModelView, bs: Seq<u8>)
    requires
        v.wf(),
        v.cursor_y < v.height,
        bs.len() > 0,
    ensures
        print_seq(v, bs).wf(),
        0 <= print_seq(v, bs).cursor_x < v.width,
        0 <= print_seq(v, bs).cursor_y < v.height,
        print_seq(v, bs).width == v.width,
        print_seq(v, bs).height == v.height,
    decreases bs.len(),
{
    lemma_print_cursor_in_bounds(v, bs[0]);
    assert(print_seq(v, bs) == print_seq(v.print_char(bs[0]), bs.subrange(1, bs.len() as int)));
    if bs.len() > 1 {
        lemma_print_seq_cursor_in_bounds(v.print_char(bs[0]), bs.subrange(1, bs.len() as int));
    } else {
        assert(bs.subrange(1, 1) =~= Seq::<u8>::empty());
        assert(print_seq(v.print_char(bs[0]), Seq::<u8>::empty()) == v.print_char(bs[0]));
    }
}

/// Printing a sequence that stays strictly inside the cursor row writes
/// exactly those cells with the pen style, marks only that row dirty, and
/// advances the cursor column by the sequence's length; nothing else
/// changes.
pub proof fn lemma_print_seq_in_row(v: ModelView, bs: Seq<u8>)
    requires
        v.wf(),
        v.cursor_y < v.height,
        v.cursor_x + bs.len() < v.width,
        forall|i: int| 0 <= i < bs.len() ==> bs[i] < 0x80,
    ensures
        ({
            let w = print_seq(v, bs);
            &&& w.wf()
            &&& w.cursor_x == v.cursor_x + bs.len()
            &&& w.cursor_y == v.cursor_y
            &&& w.first_line == v.first_line
            &&& w.height == v.height
            &&& w.width == v.width
            &&& w.font == v.font
            &&& w.attrs == v.attrs
            &&& w.color == v.color
            &&& w.pixel_offset == v.pixel_offset
            &&& w.full_repaint == v.full_repaint
            &&& w.lines.len() == MAX_LINES
            &&& forall|p: int|
                0 <= p < MAX_LINES && p != v.log_to_phys(v.cursor_y) ==> #[trigger] w.lines[p]
                    == v.lines[p]
            &&& (bs.len() == 0 ==> w == v)
            &&& (bs.len() > 0 ==> {
                let row = w.line_log(v.cursor_y);
                let old_row = v.line_log(v.cursor_y);
                &&& row.dirty
                &&& forall|i: int|
                    0 <= i < MAX_COLS ==> #[trigger] row.ascii[i] == if v.cursor_x <= i
                        < v.cursor_x + bs.len() {
                        bs[i - v.cursor_x]
                    } else {
                        old_row.ascii[i]
                    }
                &&& forall|i: int|
                    0 <= i < MAX_COLS ==> #[trigger] row.attrs[i] == if v.cursor_x <= i
                        < v.cursor_x + bs.len() {
                        v.attrs
                    } else {
                        old_row.attrs[i]
                    }
                &&& forall|i: int|
                    0 <= i < MAX_COLS ==> #[trigger] row.colors[i] == if v.cursor_x <= i
                        < v.cursor_x + bs.len() {
                        v.color
                    } else {
                        old_row.colors[i]
                    }
            })
        }),
    decreases bs.len(),
{
    lemma_geometry(v.font);
    if bs.len() > 0 {
        assert(crate::model::printable_byte(bs[0]) == bs[0]);
        let newline = v.line_log(v.cursor_y).with_cell(v.cursor_x, bs[0], v.pen());
        let v1 = v.print_char(bs[0]);
        crate::model::lemma_with_line_log_wf(v, v.cursor_y, newline);
        assert(v1 == ModelView { cursor_x: v.cursor_x + 1, ..v.with_line_log(v.cursor_y, newline) });
        lemma_print_seq_in_row(v1, bs.subrange(1, bs.len() as int));
        let w = print_seq(v, bs);
        assert(w == print_seq(v1, bs.subrange(1, bs.len() as int)));
        assert(v1.log_to_phys(v1.cursor_y) == v.log_to_phys(v.cursor_y));
        assert(w.line_log(v.cursor_y) == w.lines[v.log_to_phys(v.cursor_y)]);
        if bs.len() == 1 {
            assert(w == v1);
        }
    }
}

/// Printing a row's full width of characters, with no control code, from
/// column 0 of a row above the bottom, leaves the cursor at column 0 of
/// the next row and marks exactly the printed row and that next row dirty
/// beyond what was dirty before; every other row is untouched.
pub proof fn lemma_print_full_row(v: ModelView, bs: Seq<u8>)
    requires
        v.wf(),
        v.cursor_x == 0,
        v.cursor_y + 1 < v.height,
        bs.len() == v.width,
        forall|i: int| 0 <= i < bs.len() ==> bs[i] < 0x80,
    ensures
        ({
            let w = print_seq(v, bs);
            &&& w.wf()
            &&& w.cursor_x == 0
            &&& w.cursor_y == v.cursor_y + 1
            &&& w.first_line == v.first_line
            &&& forall|r: int|
                0 <= r < MAX_LINES ==> (#[trigger] w.line_log(r)).dirty == (v.line_log(r).dirty
                    || r == v.cursor_y || r == v.cursor_y + 1)
        }),
{
    lemma_geometry(v.font);
    let head = bs.subrange(0, bs.len() - 1);
    let last = bs[bs.len() - 1];
    lemma_print_seq_snoc(v, head, last);
    assert(head.push(last) =~= bs);
    lemma_print_seq_in_row(v, head);
    let u = print_seq(v, head);
    let w = u.print_char(last);
    assert(print_seq(v, bs) == w);

    // The final print wraps: the cursor reaches the width, moves to column
    // 0 of the next row, and the scroll check finds the cursor already
    // visible.
    assert(crate::model::printable_byte(last) == last);
    let newline = u.line_log(u.cursor_y).with_cell(u.cursor_x, last, u.pen());
    crate::model::lemma_with_line_log_wf(u, u.cursor_y, newline);
    let written = u.with_line_log(u.cursor_y, newline);
    let wrapped = ModelView { cursor_x: 0, cursor_y: u.cursor_y + 1, ..written };
    let marked = wrapped.mark_row_dirty(wrapped.cursor_y);
    crate::model::lemma_with_line_log_wf(
        wrapped,
        wrapped.cursor_y,
        wrapped.line_log(wrapped.cursor_y).with_dirty(true),
    );
    assert(marked.scroll_steps() == marked);
    assert(w == marked.mark_row_dirty(marked.cursor_y));
    crate::model::lemma_with_line_log_wf(
        marked,
        marked.cursor_y,
        marked.line_log(marked.cursor_y).with_dirty(true),
    );

    assert forall|r: int| 0 <= r < MAX_LINES implies (#[trigger] w.line_log(r)).dirty == (
    v.line_log(r).dirty || r == v.cursor_y || r == v.cursor_y + 1) by {
        assert(v.log_to_phys(r) == w.log_to_phys(r));
        if r != v.cursor_y && r != v.cursor_y + 1 {
            assert(v.log_to_phys(r) != v.log_to_phys(v.cursor_y));
            assert(v.log_to_phys(r) != v.log_to_phys(v.cursor_y + 1));
            assert(w.lines[v.log_to_phys(r)] == v.lines[v.log_to_phys(r)]);
        } else if r == v.cursor_y {
            assert(v.log_to_phys(r) != v.log_to_phys(v.cursor_y + 1));
            assert(w.line_log(r).dirty);
        } else {
            assert(w.line_log(r).dirty);
        }
    }
}

/// Printing one more character after a sequence is the same as printing
/// the extended sequence.
pub proof fn lemma_print_seq_snoc(v: ModelView, bs: Seq<u8>, b: u8)
    ensures
        print_seq(v, bs.push(b)) == print_seq(v, bs).print_char(b),
    decreases bs.len(),
{
    if bs.len() == 0 {
        assert(bs.push(b)[0] == b);
        assert(bs.push(b).subrange(1, 1) =~= Seq::<u8>::empty());
        assert(print_seq(v, bs.push(b)) == print_seq(v.print_char(b), Seq::<u8>::empty()));
        assert(print_seq(v.print_char(b), Seq::<u8>::empty()) == v.print_char(b));
        assert(print_seq(v, bs) == v);
    } else {
        assert(bs.push(b)[0] == bs[0]);
        assert(bs.push(b).subrange(1, bs.len() as int + 1) =~= bs.subrange(
            1,
            bs.len() as int,
        ).push(b));
        lemma_print_seq_snoc(v.print_char(bs[0]), bs.subrange(1, bs.len() as int), b);
        assert(print_seq(v, bs.push(b)) == print_seq(
            v.print_char(bs[0]),
            bs.subrange(1, bs.len() as int).push(b),
        ));
        assert(print_seq(v, bs) == print_seq(v.print_char(bs[0]), bs.subrange(1, bs.len() as int)));
    }
}

/// The row produced by printing `bs` from column 0 over a row of blanks
/// stamped with pen `pen`: the text in columns 0 to `bs.len()`, blanks
/// after it, every cell carrying the pen style.
pub open spec fn row_of(bs: Seq<u8>, pen: Style) -> LineView {
    LineView {
        ascii: Seq::new(MAX_COLS as nat, |i: int| if i < bs.len() { bs[i] } else { BLANK_CHAR }),
        attrs: Seq::new(MAX_COLS as nat, |i: int| pen.attrs),
        colors: Seq::new(MAX_COLS as nat, |i: int| pen.color),
        dirty: true,
    }
}

/// Erase to end of line followed by re-printing text from column 0 yields
/// exactly the row determined by that text and the pen — independent of
/// what the row held before. In particular, erasing and re-printing the
/// very text a row already shows reproduces the row bit for bit.
pub proof fn lemma_erase_rewrite_row(v: ModelView, bs: Seq<u8>)
    requires
        v.wf(),
        v.cursor_y < v.height,
        v.cursor_x == 0,
        bs.len() < v.width,
        forall|i: int| 0 <= i < bs.len() ==> bs[i] < 0x80,
    ensures
        print_seq(v.erased_to_eol(), bs).line_log(v.cursor_y) == row_of(bs, v.pen()),
{
    lemma_geometry(v.font);
    let erased_line = v.line_log(v.cursor_y).erased_from(v.cursor_x, v.pen());
    let e = v.erased_to_eol();
    crate::model::lemma_with_line_log_wf(v, v.cursor_y, erased_line);
    lemma_print_seq_in_row(e, bs);
    let w = print_seq(e, bs);
    assert(e.log_to_phys(e.cursor_y) == v.log_to_phys(v.cursor_y));
    assert(e.line_log(e.cursor_y) == erased_line);
    if bs.len() == 0 {
        assert(w.line_log(v.cursor_y) =~= row_of(bs, v.pen()));
    } else {
        assert(w.line_log(v.cursor_y).ascii =~= row_of(bs, v.pen()).ascii);
        assert(w.line_log(v.cursor_y).attrs =~= row_of(bs, v.pen()).attrs);
        assert(w.line_log(v.cursor_y).colors =~= row_of(bs, v.pen()).colors);
        assert(w.line_log(v.cursor_y) =~= row_of(bs, v.pen()));
    }
}

/// Two rows showing the same cells (the dirty flag aside).
pub open spec fn cells_eq(a: LineView, b: LineView) -> bool {
    a.ascii == b.ascii && a.attrs == b.attrs && a.colors == b.colors
}

/// One line feed at the bottom row scrolls by one: every row's cells move
/// up one logical position (scrollback included), the row that becomes
/// newly visible at the bottom is cleared to blanks, and the rotation
/// offset advances — no cell data is copied anywhere else.
pub proof fn lemma_scroll_shifts_rows(v: ModelView)
    requires
        v.wf(),
        v.cursor_y == v.height - 1,
    ensures
        ({
            let w = v.line_fed();
            &&& w.wf()
            &&& w.cursor_y == v.height - 1
            &&& w.cursor_x == v.cursor_x
            &&& w.height == v.height
            &&& w.width == v.width
            &&& w.first_line == (if v.first_line + 1 < MAX_LINES {
                v.first_line + 1
            } else {
                0
            })
            &&& forall|r: int|
                0 <= r < MAX_LINES - 1 && r != v.height - 1 ==> cells_eq(
                    #[trigger] w.line_log(r),
                    v.line_log(r + 1),
                )
            &&& cells_eq(w.line_log(v.height - 1), LineView::blank())
            &&& w.line_log(v.height - 1).dirty
        }),
{
    lemma_geometry(v.font);
    let w = v.line_fed();
    let v2 = v.mark_row_dirty(v.cursor_y);
    crate::model::lemma_with_line_log_wf(v, v.cursor_y, v.line_log(v.cursor_y).with_dirty(true));
    let v3 = ModelView { cursor_y: v.cursor_y + 1, ..v2 };
    assert(v3.cursor_y == v.height);
    let s1 = v3.scroll_once();
    lemma_scroll_once(v3);
    assert(s1.cursor_y == v.height - 1);
    assert(v3.scroll_steps() == s1.scroll_steps());
    assert(s1.scroll_steps() == s1);
    let w2 = s1.mark_row_dirty(s1.cursor_y);
    crate::model::lemma_with_line_log_wf(s1, s1.cursor_y, s1.line_log(s1.cursor_y).with_dirty(true));
    assert(w == w2);

    // The two physical rows that change: the old cursor row (marked dirty)
    // and the reused row (cleared, then marked dirty as the new bottom).
    let q0 = v.log_to_phys(v.cursor_y);
    let q1 = v3.log_to_phys(v3.height);
    assert(w.line_log(v.height - 1) == w.lines[w.log_to_phys(v.height - 1)]);
    assert(w.log_to_phys(v.height - 1) == q1);
    assert(cells_eq(w.line_log(v.height - 1), LineView::blank()));

    assert forall|r: int| 0 <= r < MAX_LINES - 1 && r != v.height - 1 implies cells_eq(
        #[trigger] w.line_log(r),
        v.line_log(r + 1),
    ) by {
        let p = w.log_to_phys(r);
        assert(p == v.log_to_phys(r + 1));
        if p != q0 && p != q1 {
            assert(w.lines[p] == v.lines[p]);
        } else if p == q0 {
            assert(w.lines[p] == v.lines[p].with_dirty(true));
        } else {
            assert(v.log_to_phys(r + 1) == v.log_to_phys(v.height));
            assert(r == v.height - 1);
        }
    }
}

/// The grid after `n` line feeds, first to last.
pub open spec fn line_fed_n(v: ModelView, n: int) -> ModelView
    decreases n,
{
    if n <= 0 {
        v
    } else {
        line_fed_n(v.line_fed(), n - 1)
    }
}

/// Scrolling `n` rows past the bottom preserves the relative order of
/// everything printed: each remaining row shows what stood `n` logical
/// rows below it before, and exactly the `n` rows that became newly
/// visible at the bottom are cleared to blanks.
pub proof fn lemma_scroll_n_preserves_order(v: ModelView, n: int)
    requires
        v.wf(),
        v.cursor_y == v.height - 1,
        0 <= n,
    ensures
        ({
            let w = line_fed_n(v, n);
            &&& w.wf()
            &&& w.cursor_y == v.height - 1
            &&& w.height == v.height
            &&& w.width == v.width
            &&& forall|r: int|
                0 <= r && r + n < MAX_LINES && (r < v.height - n || r > v.height - 1)
                    ==> cells_eq(#[trigger] w.line_log(r), v.line_log(r + n))
            &&& forall|r: int|
                0 <= r && v.height - n <= r < v.height ==> cells_eq(
                    #[trigger] w.line_log(r),
                    LineView::blank(),
                )
        }),
    decreases n,
{
    lemma_geometry(v.font);
    if n > 0 {
        lemma_scroll_shifts_rows(v);
        let v1 = v.line_fed();
        lemma_scroll_n_preserves_order(v1, n - 1);
        let w = line_fed_n(v, n);
        assert(w == line_fed_n(v1, n - 1));
        assert forall|r: int|
            0 <= r && r + n < MAX_LINES && (r < v.height - n || r > v.height - 1) implies cells_eq(
            #[trigger] w.line_log(r),
            v.line_log(r + n),
        ) by {
            assert(cells_eq(w.line_log(r), v1.line_log(r + n - 1)));
            assert(cells_eq(v1.line_log(r + n - 1), v.line_log(r + n)));
        }
        assert forall|r: int| 0 <= r && v.height - n <= r < v.height implies cells_eq(
            #[trigger] w.line_log(r),
            LineView::blank(),
        ) by {
            if r == v.height - n {
                assert(cells_eq(w.line_log(r), v1.line_log(r + n - 1)));
                assert(cells_eq(v1.line_log(v.height - 1), LineView::blank()));
            }
        }
    }
}

/// Rows of the ring after scrolling until the cursor is visible again,
/// from a cursor `n` rows past the bottom: every row that enters the
/// window at the bottom (the last `n` visible rows) is blank, and every
/// other row is exactly what stood `n` logical rows below it before.
proof fn lemma_scroll_steps_rows(v: ModelView)
    requires
        v.wf_core(),
        v.height > 0,
        v.cursor_y >= v.height,
    ensures
        ({
            let w = v.scroll_steps();
            let n = v.cursor_y - v.height + 1;
            &&& forall|r: int|
                0 <= r && v.height - n <= r < v.height ==> #[trigger] w.line_log(r)
                    == LineView::blank()
            &&& forall|r: int|
                0 <= r && r + n < MAX_LINES && r < v.height - n ==> #[trigger] w.line_log(r)
                    == v.line_log(r + n)
        }),
    decreases v.cursor_y,
{
    let v1 = v.scroll_once();
    lemma_scroll_once(v);
    let w = v.scroll_steps();
    let n = v.cursor_y - v.height + 1;
    assert(w == v1.scroll_steps());

    // One step: every logical row shifts up by one, and the row entering
    // at the bottom (logical `height - 1` afterwards) is the freshly
    // cleared reused row.
    assert forall|r: int| 0 <= r && r + 1 < MAX_LINES implies #[trigger] v1.line_log(r) == (
    if r == v.height - 1 {
        LineView::blank()
    } else {
        v.line_log(r + 1)
    }) by {
        assert(v1.log_to_phys(r) == v.log_to_phys(r + 1));
        if r != v.height - 1 {
            assert(v.log_to_phys(r + 1) != v.log_to_phys(v.height));
            assert(v1.lines[v1.log_to_phys(r)] == v.lines[v.log_to_phys(r + 1)]);
        }
    }

    if v1.cursor_y >= v1.height {
        lemma_scroll_steps_rows(v1);
        assert forall|r: int| 0 <= r && v.height - n <= r < v.height implies #[trigger] w.line_log(
            r,
        ) == LineView::blank() by {
            if r >= v.height - (n - 1) {
                // Covered by the rows the remaining steps blank.
                assert(w.line_log(r) == LineView::blank());
            } else {
                // The row this step blanked, shifted up by the remaining
                // steps.
                assert(r == v.height - n);
                assert(w.line_log(r) == v1.line_log(r + n - 1));
                assert(v1.line_log(v.height - 1) == LineView::blank());
            }
        }
        assert forall|r: int|
            0 <= r && r + n < MAX_LINES && r < v.height - n implies #[trigger] w.line_log(r)
            == v.line_log(r + n) by {
            assert(w.line_log(r) == v1.line_log(r + n - 1));
            assert(v1.line_log(r + n - 1) == v.line_log(r + n));
        }
    } else {
        assert(w == v1);
        assert(n == 1);
    }
}

/// Multi-row overflow is handled in one scroll check: with the cursor `n`
/// rows past the bottom, the check blanks exactly the `n` rows that become
/// newly visible at the bottom — each pass clears the physical row about
/// to be reused — and every other row shows what stood `n` logical rows
/// below it before, scrollback included.
pub proof fn lemma_check_scroll_clears_new_rows(v: ModelView)
    requires
        v.wf_core(),
        v.height > 0,
        v.cursor_y >= v.height,
    ensures
        ({
            let w = v.check_scrolled();
            let n = v.cursor_y - v.height + 1;
            &&& w.cursor_y == v.height - 1
            &&& forall|r: int|
                0 <= r && v.height - n <= r < v.height ==> cells_eq(
                    #[trigger] w.line_log(r),
                    LineView::blank(),
                )
            &&& forall|r: int|
                0 <= r && r + n < MAX_LINES && r < v.height - n ==> cells_eq(
                    #[trigger] w.line_log(r),
                    v.line_log(r + n),
                )
        }),
{
    lemma_scroll_steps(v);
    lemma_scroll_steps_rows(v);
    let s = v.scroll_steps();
    let w = v.check_scrolled();
    let n = v.cursor_y - v.height + 1;
    // The final dirty mark touches only the cursor row's flag, never any
    // cells.
    assert forall|r: int| 0 <= r < MAX_LINES implies cells_eq(
        #[trigger] w.line_log(r),
        s.line_log(r),
    ) by {
        if s.log_to_phys(r) != s.log_to_phys(s.cursor_y) {
            assert(w.lines[s.log_to_phys(r)] == s.lines[s.log_to_phys(r)]);
        }
    }
    assert forall|r: int| 0 <= r && v.height - n <= r < v.height implies cells_eq(
        #[trigger] w.line_log(r),
        LineView::blank(),
    ) by {
        assert(s.line_log(r) == LineView::blank());
        assert(cells_eq(w.line_log(r), s.line_log(r)));
    }
    assert forall|r: int| 0 <= r && r + n < MAX_LINES && r < v.height - n implies cells_eq(
        #[trigger] w.line_log(r),
        v.line_log(r + n),
    ) by {
        assert(s.line_log(r) == v.line_log(r + n));
        assert(cells_eq(w.line_log(r), s.line_log(r)));
    }
}

} // verus!
