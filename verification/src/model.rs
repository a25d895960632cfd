//! The character grid: a fixed ring of rows addressed through a rotating
//! offset, the cursor, the current pen state, and the active font
//! geometry. Scrolling never copies cell data; it only advances the
//! rotation offset, clears the row being reused, and advances the pixel
//! offset that drives the hardware scroll register.

use vstd::prelude::*;

use crate::cell::{Attributes, Style};
use crate::font::{
    font_advance, font_height, spec_font_advance, spec_font_height, FONT_COUNT,
};
use crate::line::{Line, LineView};

verus! {

/// Row capacity of the ring; it exceeds every selectable font's visible
/// row count, so rows scrolled off the top stay addressable.
pub const MAX_LINES: usize = 60;

/// Visible surface width, in pixels.
pub const SCREEN_WIDTH: u16 = 320;

/// Visible surface height, in pixels.
pub const SCREEN_HEIGHT: u16 = 320;

/// Height of the physical scan buffer that the hardware scroll window
/// rotates through, in pixels. It is not a multiple of every glyph cell
/// height, which is what forces the painter's wraparound compensation.
pub const SCAN_HEIGHT: u16 = 480;

/// Columns visible under font `f`: the fixed pixel width divided by the
/// font's cell advance.
pub open spec fn spec_grid_width(f: int) -> int {
    SCREEN_WIDTH as int / spec_font_advance(f) as int
}

/// Rows visible under font `f`: the fixed pixel height divided by the
/// font's cell height.
pub open spec fn spec_grid_height(f: int) -> int {
    SCREEN_HEIGHT as int / spec_font_height(f) as int
}

/// Mathematical model of the whole grid.
#[verifier::ext_equal]
pub struct ModelView {
    /// The physical rows, in storage order.
    pub lines: Seq<LineView>,
    /// Cursor column, logical.
    pub cursor_x: int,
    /// Cursor row, logical.
    pub cursor_y: int,
    /// Pen attributes stamped on new output.
    pub attrs: Attributes,
    /// Pen color byte stamped on new output.
    pub color: u8,
    /// Visible columns under the active font.
    pub width: int,
    /// Visible rows under the active font.
    pub height: int,
    /// Index of the active font.
    pub font: int,
    /// Whether the next paint must redraw every visible row.
    pub full_repaint: bool,
    /// Physical row that logical row 0 maps to.
    pub first_line: int,
    /// Pixel row of the scan buffer corresponding to logical row 0.
    pub pixel_offset: int,
}

impl ModelView {
    /// Structural well-formedness: full ring of well-formed rows, a valid
    /// font with matching geometry, and cursor, rotation and pixel offsets
    /// in range. The cursor row bound here is loose enough for the moment
    /// between a wrap and the scroll check that follows it.
    pub open spec fn wf_core(self) -> bool {
        &&& self.lines.len() == MAX_LINES
        &&& forall|p: int| 0 <= p < MAX_LINES ==> (#[trigger] self.lines[p]).wf()
        &&& 0 <= self.font < FONT_COUNT
        &&& self.width == spec_grid_width(self.font)
        &&& self.height == spec_grid_height(self.font)
        &&& 0 <= self.cursor_x <= spec_grid_width(0)
        &&& 0 <= self.cursor_y <= MAX_LINES
        &&& 0 <= self.first_line < MAX_LINES
        &&& 0 <= self.pixel_offset < SCAN_HEIGHT
    }

    /// Well-formedness at rest: structurally well formed, with the cursor
    /// row never past the largest selectable font's visible row count.
    /// (After a font shrink the cursor row may transiently sit below the
    /// new visible height; the next scroll check pulls it back.)
    pub open spec fn wf(self) -> bool {
        &&& self.wf_core()
        &&& self.cursor_y <= spec_grid_height(0)
    }

    /// The pen style stamped on new output.
    pub open spec fn pen(self) -> Style {
        Style { attrs: self.attrs, color: self.color }
    }

    /// Physical row that logical row `r` maps to: the rotation offset plus
    /// `r`, wrapped at the ring size. This mapping is the only way the
    /// scrollback ever shifts.
    pub open spec fn log_to_phys(self, r: int) -> int {
        if self.first_line + r < MAX_LINES {
            self.first_line + r
        } else {
            self.first_line + r - MAX_LINES
        }
    }

    /// Logical row that physical row `p` holds.
    pub open spec fn phys_to_log(self, p: int) -> int {
        if p >= self.first_line {
            p - self.first_line
        } else {
            p + MAX_LINES - self.first_line
        }
    }

    /// The row at logical position `r`.
    pub open spec fn line_log(self, r: int) -> LineView {
        self.lines[self.log_to_phys(r)]
    }

    /// The grid with logical row `r` replaced.
    pub open spec fn with_line_log(self, r: int, l: LineView) -> ModelView {
        ModelView { lines: self.lines.update(self.log_to_phys(r), l), ..self }
    }

    /// The grid with logical row `r` marked dirty.
    pub open spec fn mark_row_dirty(self, r: int) -> ModelView {
        self.with_line_log(r, self.line_log(r).with_dirty(true))
    }

    /// One scroll step: the physical row about to be reused — the one
    /// that becomes the new bottom once the rotation advances, logical row
    /// `height` under the current origin — is cleared, the rotation offset
    /// advances by one row, the pixel offset advances by one cell height
    /// (wrapping at the scan height), and the logical cursor row moves up
    /// by one. Clearing the reused row on every step is what keeps stale
    /// scrollback content from entering the window when the cursor sits
    /// more than one row past the bottom (as after a font shrink).
    pub open spec fn scroll_once(self) -> ModelView {
        let cleared = self.with_line_log(self.height, LineView::blank());
        let first = if self.first_line + 1 < MAX_LINES {
            self.first_line + 1
        } else {
            0
        };
        let pixel = if self.pixel_offset + spec_font_height(self.font) < SCAN_HEIGHT {
            self.pixel_offset + spec_font_height(self.font)
        } else {
            self.pixel_offset + spec_font_height(self.font) - SCAN_HEIGHT
        };
        ModelView {
            first_line: first,
            pixel_offset: pixel,
            cursor_y: self.cursor_y - 1,
            ..cleared
        }
    }

    /// Scroll steps repeated until the cursor row is visible again.
    pub open spec fn scroll_steps(self) -> ModelView
        decreases self.cursor_y,
    {
        if self.cursor_y >= self.height && self.cursor_y > 0 {
            self.scroll_once().scroll_steps()
        } else {
            self
        }
    }

    /// The scroll check: scroll while the cursor row lies past the bottom,
    /// then mark the cursor row dirty.
    pub open spec fn check_scrolled(self) -> ModelView {
        let v = self.scroll_steps();
        v.mark_row_dirty(v.cursor_y)
    }

    /// Printing one character: stamp the pen-styled cell at the cursor and
    /// advance; at the right edge, wrap to column 0 of the next row and
    /// run the scroll check. A non-ASCII code is replaced with a space.
    pub open spec fn print_char(self, b: u8) -> ModelView {
        let written = self.with_line_log(
            self.cursor_y,
            self.line_log(self.cursor_y).with_cell(self.cursor_x, printable_byte(b), self.pen()),
        );
        if self.cursor_x + 1 >= self.width {
            let wrapped = ModelView { cursor_x: 0, cursor_y: self.cursor_y + 1, ..written };
            wrapped.mark_row_dirty(wrapped.cursor_y).check_scrolled()
        } else {
            ModelView { cursor_x: self.cursor_x + 1, ..written }
        }
    }

    /// The cleared grid: every row blank, cursor home, default pen, no
    /// rotation, and a full repaint pending.
    pub open spec fn cleared(self) -> ModelView {
        ModelView {
            lines: Seq::new(MAX_LINES as nat, |p: int| LineView::blank()),
            cursor_x: 0,
            cursor_y: 0,
            attrs: Attributes::none(),
            color: 0,
            full_repaint: true,
            first_line: 0,
            pixel_offset: 0,
            ..self
        }
    }
}

/// The character grid with its ring of rows, cursor, pen state and font
/// geometry.
pub struct ScreenModel {
    pub lines: Vec<Line>,
    pub cursor_x: u8,
    pub cursor_y: u8,
    pub current_attributes: Attributes,
    pub current_color: u8,
    pub width: u8,
    pub height: u8,
    pub font: usize,
    pub full_repaint: bool,
    pub first_line_idx: u8,
    pub pixel_offset_first_line: u16,
}

impl View for ScreenModel {
    type V = ModelView;

    open spec fn view(&self) -> ModelView {
        ModelView {
            lines: Seq::new(self.lines@.len(), |p: int| self.lines@[p]@),
            cursor_x: self.cursor_x as int,
            cursor_y: self.cursor_y as int,
            attrs: self.current_attributes,
            color: self.current_color,
            width: self.width as int,
            height: self.height as int,
            font: self.font as int,
            full_repaint: self.full_repaint,
            first_line: self.first_line_idx as int,
            pixel_offset: self.pixel_offset_first_line as int,
        }
    }
}

/// Index of the font selected at startup.
pub const DEFAULT_FONT: usize = 2;

impl ScreenModel {
    /// Well-formedness of the concrete grid, stated over its model.
    pub open spec fn wf(&self) -> bool {
        self@.wf()
    }

    /// A fresh grid: all rows blank, cursor home, default pen, the startup
    /// font, and a full repaint pending.
    pub fn new() -> (r: ScreenModel)
        ensures
            r.wf(),
            r@ =~= initial_model(),
    {
        let mut lines: Vec<Line> = Vec::new();
        let mut i: usize = 0;
        while i < MAX_LINES
            invariant
                i <= MAX_LINES,
                lines@.len() == i,
                forall|p: int| 0 <= p < i ==> (#[trigger] lines@[p])@ =~= LineView::blank(),
            decreases MAX_LINES - i,
        {
            lines.push(Line::new());
            i = i + 1;
        }
        let width = (SCREEN_WIDTH / font_advance(DEFAULT_FONT)) as u8;
        let height = (SCREEN_HEIGHT / font_height(DEFAULT_FONT)) as u8;
        ScreenModel {
            lines,
            cursor_x: 0,
            cursor_y: 0,
            current_attributes: Attributes::none(),
            current_color: 0,
            width,
            height,
            font: DEFAULT_FONT,
            full_repaint: true,
            first_line_idx: 0,
            pixel_offset_first_line: 0,
        }
    }

    /// Physical row index that logical row `r` currently maps to.
    pub fn log_to_phys(&self, r: u8) -> (p: usize)
        requires
            self@.wf_core(),
            r as int <= MAX_LINES,
        ensures
            p == self@.log_to_phys(r as int),
            p < MAX_LINES,
    {
        let s = self.first_line_idx as usize + r as usize;
        if s < MAX_LINES {
            s
        } else {
            s - MAX_LINES
        }
    }

    /// The row at logical position `r`.
    pub fn line_log(&self, r: u8) -> (l: &Line)
        requires
            self@.wf_core(),
            r as int <= MAX_LINES,
        ensures
            l@ == self@.line_log(r as int),
    {
        let p = self.log_to_phys(r);
        &self.lines[p]
    }

    /// Clears the whole grid: every row blank, cursor home, default pen,
    /// rotation and pixel offset reset, full repaint forced.
    pub fn clear(&mut self)
        requires
            old(self).wf(),
        ensures
            final(self).wf(),
            final(self)@ =~= old(self)@.cleared(),
    {
        let mut i: usize = 0;
        while i < MAX_LINES
            invariant
                old(self).wf(),
                i <= MAX_LINES,
                self.lines@.len() == MAX_LINES,
                forall|p: int| 0 <= p < i ==> (#[trigger] self.lines@[p])@ =~= LineView::blank(),
                forall|p: int|
                    i <= p < MAX_LINES ==> (#[trigger] self.lines@[p])@ == old(self)@.lines[p],
                self.cursor_x == old(self).cursor_x,
                self.cursor_y == old(self).cursor_y,
                self.current_attributes == old(self).current_attributes,
                self.current_color == old(self).current_color,
                self.width == old(self).width,
                self.height == old(self).height,
                self.font == old(self).font,
                self.full_repaint == old(self).full_repaint,
                self.first_line_idx == old(self).first_line_idx,
                self.pixel_offset_first_line == old(self).pixel_offset_first_line,
            decreases MAX_LINES - i,
        {
            proof {
                assert((self.lines@[i as int])@.wf());
            }
            self.lines[i].clear();
            i = i + 1;
        }
        self.cursor_x = 0;
        self.cursor_y = 0;
        self.current_attributes = Attributes::none();
        self.current_color = 0;
        self.first_line_idx = 0;
        self.full_repaint = true;
        self.pixel_offset_first_line = 0;
    }

    /// Scrolls while the cursor row lies past the visible bottom, clearing
    /// each row about to be reused, then marks the cursor row dirty.
    pub(crate) fn check_scroll(&mut self)
        requires
            old(self)@.wf_core(),
            old(self)@.cursor_y <= spec_grid_height(0) + 1,
        ensures
            final(self).wf(),
            final(self)@ == old(self)@.check_scrolled(),
            final(self)@.cursor_y < final(self)@.height,
    {
        let ghost v0 = self@;
        proof {
            lemma_geometry(v0.font);
        }
        while self.cursor_y as usize >= self.height as usize
            invariant
                self@.wf_core(),
                v0.scroll_steps() == self@.scroll_steps(),
                self@.height == v0.height,
            decreases self.cursor_y,
        {
            let ghost prev = self@;
            proof {
                lemma_geometry(prev.font);
            }
            let p = self.log_to_phys(self.height);
            proof {
                assert(self@.lines[p as int].wf());
                assert(self@.lines[p as int] == self.lines@[p as int]@);
            }
            self.lines[p].clear();
            if self.first_line_idx as usize + 1 < MAX_LINES {
                self.first_line_idx = self.first_line_idx + 1;
            } else {
                self.first_line_idx = 0;
            }
            let ch = font_height(self.font);
            if self.pixel_offset_first_line + ch < SCAN_HEIGHT {
                self.pixel_offset_first_line = self.pixel_offset_first_line + ch;
            } else {
                self.pixel_offset_first_line = self.pixel_offset_first_line + ch - SCAN_HEIGHT;
            }
            self.cursor_y = self.cursor_y - 1;
            proof {
                assert(self@ =~= prev.scroll_once());
                assert(prev.scroll_steps() == prev.scroll_once().scroll_steps());
            }
        }
        proof {
            assert(self@.scroll_steps() == self@);
            lemma_geometry(self@.font);
        }
        let p = self.log_to_phys(self.cursor_y);
        proof {
            assert(self@.lines[p as int].wf());
            assert(self@.lines[p as int] == self.lines@[p as int]@);
        }
        self.lines[p].mark_dirty();
        proof {
            assert(self@ =~= v0.check_scrolled());
        }
    }

    /// Prints one character: stamps the pen-styled cell at the cursor
    /// (non-ASCII codes print as a space), advances the cursor, and wraps
    /// and scrolls at the right edge.
    pub fn print_char(&mut self, b: u8)
        requires
            old(self).wf(),
        ensures
            final(self).wf(),
            final(self)@ == old(self)@.print_char(b),
    {
        let ghost v0 = self@;
        let b = if b < 0x80 {
            b
        } else {
            0x20
        };
        let col = self.cursor_x as usize;
        let attrs = self.current_attributes;
        let color = self.current_color;
        let p = self.log_to_phys(self.cursor_y);
        proof {
            lemma_geometry(v0.font);
            assert(self@.lines[p as int].wf());
            assert(self@.lines[p as int] == self.lines@[p as int]@);
        }
        self.lines[p].set_cell(col, b, attrs, color);
        proof {
            let w1 = v0.with_line_log(
                v0.cursor_y,
                v0.line_log(v0.cursor_y).with_cell(v0.cursor_x, b, v0.pen()),
            );
            assert(self@ =~= w1);
            lemma_with_line_log_wf(
                v0,
                v0.cursor_y,
                v0.line_log(v0.cursor_y).with_cell(v0.cursor_x, b, v0.pen()),
            );
        }
        self.cursor_x = self.cursor_x + 1;
        if self.cursor_x >= self.width {
            self.cursor_x = 0;
            self.cursor_y = self.cursor_y + 1;
            proof {
                lemma_geometry(v0.font);
                assert(self@.wf_core());
            }
            let p2 = self.log_to_phys(self.cursor_y);
            proof {
                assert(self@.lines[p2 as int].wf());
                assert(self@.lines[p2 as int] == self.lines@[p2 as int]@);
            }
            self.lines[p2].mark_dirty();
            proof {
                let wrapped = ModelView {
                    cursor_x: 0,
                    cursor_y: v0.cursor_y + 1,
                    ..v0.with_line_log(
                        v0.cursor_y,
                        v0.line_log(v0.cursor_y).with_cell(v0.cursor_x, b, v0.pen()),
                    )
                };
                assert(self@ =~= wrapped.mark_row_dirty(wrapped.cursor_y));
                lemma_with_line_log_wf(
                    wrapped,
                    wrapped.cursor_y,
                    wrapped.line_log(wrapped.cursor_y).with_dirty(true),
                );
            }
            self.check_scroll();
        }
    }
}

/// Bounds of the visible geometry over the font table: every selectable
/// font fits at least 20 columns and 11 rows, and at most 64 columns and
/// 32 rows, all within the row and column capacity of the grid.
pub proof fn lemma_geometry(f: int)
    requires
        0 <= f < FONT_COUNT,
    ensures
        20 <= spec_grid_width(f) <= 64,
        11 <= spec_grid_height(f) <= 32,
{
    if f == 0 {
        assert(spec_grid_width(f) == 64 && spec_grid_height(f) == 32);
    } else if f == 1 {
        assert(spec_grid_width(f) == 53 && spec_grid_height(f) == 29);
    } else if f == 2 {
        assert(spec_grid_width(f) == 45 && spec_grid_height(f) == 26);
    } else if f == 3 {
        assert(spec_grid_width(f) == 40 && spec_grid_height(f) == 21);
    } else if f == 4 {
        assert(spec_grid_width(f) == 32 && spec_grid_height(f) == 18);
    } else if f == 5 {
        assert(spec_grid_width(f) == 26 && spec_grid_height(f) == 14);
    } else {
        assert(spec_grid_width(f) == 20 && spec_grid_height(f) == 11);
    }
}

/// Replacing a well-formed row keeps the grid well formed; no other field
/// changes.
pub proof fn lemma_with_line_log_wf(v: ModelView, r: int, l: LineView)
    requires
        v.wf_core(),
        l.wf(),
        0 <= r <= MAX_LINES,
    ensures
        v.with_line_log(r, l).wf_core(),
        v.cursor_y <= spec_grid_height(0) ==> v.with_line_log(r, l).wf(),
{
    let w = v.with_line_log(r, l);
    assert forall|q: int| 0 <= q < MAX_LINES implies (#[trigger] w.lines[q]).wf() by {
        if q != v.log_to_phys(r) {
            assert(w.lines[q] == v.lines[q]);
        }
    }
}

/// The character code a print stores: the byte itself when it is ASCII,
/// the blank replacement otherwise.
pub open spec fn printable_byte(b: u8) -> u8 {
    if b < 0x80 {
        b
    } else {
        0x20
    }
}

/// The grid state at startup.
pub open spec fn initial_model() -> ModelView {
    ModelView {
        lines: Seq::new(MAX_LINES as nat, |p: int| LineView::blank()),
        cursor_x: 0,
        cursor_y: 0,
        attrs: Attributes::none(),
        color: 0,
        width: spec_grid_width(DEFAULT_FONT as int),
        height: spec_grid_height(DEFAULT_FONT as int),
        font: DEFAULT_FONT as int,
        full_repaint: true,
        first_line: 0,
        pixel_offset: 0,
    }
}

impl ModelView {
    /// A font change: new geometry from the font table, a full repaint
    /// forced, and the window start adjusted to keep the bottom of the
    /// on-screen content anchored: moved earlier (saturating at zero) when
    /// the new height is larger, advanced by the height delta when it is
    /// smaller. Exact line reflow across a font change is not attempted.
    pub open spec fn font_changed(self, f: int) -> ModelView {
        let w = spec_grid_width(f);
        let h = spec_grid_height(f);
        let first = if h > self.height {
            if self.first_line >= h - self.height {
                self.first_line - (h - self.height)
            } else {
                0
            }
        } else {
            if self.first_line + (self.height - h) < MAX_LINES {
                self.first_line + (self.height - h)
            } else {
                self.first_line + (self.height - h) - MAX_LINES
            }
        };
        ModelView {
            font: f,
            width: w,
            height: h,
            full_repaint: true,
            first_line: first,
            ..self
        }
    }

    /// Stepping to the next larger font, if there is one.
    pub open spec fn font_increased(self) -> ModelView {
        if self.font + 1 < FONT_COUNT {
            self.font_changed(self.font + 1)
        } else {
            self
        }
    }

    /// Stepping to the next smaller font (staying at the smallest, though
    /// still forcing the geometry recomputation and full repaint).
    pub open spec fn font_decreased(self) -> ModelView {
        if self.font > 0 {
            self.font_changed(self.font - 1)
        } else {
            self.font_changed(0)
        }
    }
}

impl ScreenModel {
    /// Switches the active font: recomputes the visible geometry from the
    /// fixed pixel dimensions, forces a full repaint, and adjusts the
    /// window start to keep the bottom of the content anchored.
    pub(crate) fn change_font(&mut self, f: usize)
        requires
            old(self).wf(),
            f < FONT_COUNT,
        ensures
            final(self).wf(),
            final(self)@ == old(self)@.font_changed(f as int),
    {
        let ghost v0 = self@;
        proof {
            lemma_geometry(v0.font);
            lemma_geometry(f as int);
        }
        let old_height = self.height;
        self.font = f;
        self.full_repaint = true;
        let adv = font_advance(f);
        let ch = font_height(f);
        self.width = (SCREEN_WIDTH / adv) as u8;
        self.height = (SCREEN_HEIGHT / ch) as u8;
        if self.height > old_height {
            let delta = self.height - old_height;
            if self.first_line_idx >= delta {
                self.first_line_idx = self.first_line_idx - delta;
            } else {
                self.first_line_idx = 0;
            }
        } else {
            let s = self.first_line_idx + (old_height - self.height);
            if s < MAX_LINES as u8 {
                self.first_line_idx = s;
            } else {
                self.first_line_idx = s - MAX_LINES as u8;
            }
        }
        proof {
            assert(self@ =~= v0.font_changed(f as int));
        }
    }

    /// Steps to the next larger font in the table, if any; recomputes the
    /// geometry and forces a full repaint.
    pub fn increase_font(&mut self)
        requires
            old(self).wf(),
        ensures
            final(self).wf(),
            final(self)@ == old(self)@.font_increased(),
    {
        if self.font + 1 < FONT_COUNT {
            let f = self.font + 1;
            self.change_font(f);
        }
    }

    /// Steps to the next smaller font in the table, staying at the
    /// smallest; recomputes the geometry and forces a full repaint.
    pub fn decrease_font(&mut self)
        requires
            old(self).wf(),
        ensures
            final(self).wf(),
            final(self)@ == old(self)@.font_decreased(),
    {
        if self.font > 0 {
            let f = self.font - 1;
            self.change_font(f);
        } else {
            self.change_font(0);
        }
    }
}

impl Default for ScreenModel {
    /// A fresh grid, as `new` builds it.
    fn default() -> (r: ScreenModel)
        ensures
            r.wf(),
            r@ =~= initial_model(),
    {
        ScreenModel::new()
    }
}

} // verus!
