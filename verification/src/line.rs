//! One row of the character grid: a fixed-length run of cells, each a
//! character code with an attribute set and a packed color byte, plus a
//! dirty flag that tells the painter the row's pixels are stale.

use vstd::prelude::*;

use crate::cell::{Attributes, Style};

verus! {

/// Column capacity of a row; it exceeds the widest selectable font's
/// visible column count, so every font's columns fit.
pub const MAX_COLS: usize = 80;

/// Character code written into every cell by a clear: the ASCII space.
pub const BLANK_CHAR: u8 = 0x20;

/// Mathematical model of a row: three parallel sequences of cell data and
/// the dirty flag.
#[verifier::ext_equal]
pub struct LineView {
    pub ascii: Seq<u8>,
    pub attrs: Seq<Attributes>,
    pub colors: Seq<u8>,
    pub dirty: bool,
}

impl LineView {
    /// A row is well formed when all three cell sequences have the full
    /// column capacity.
    pub open spec fn wf(self) -> bool {
        &&& self.ascii.len() == MAX_COLS
        &&& self.attrs.len() == MAX_COLS
        &&& self.colors.len() == MAX_COLS
    }

    /// The style of the cell in column `i`.
    pub open spec fn style_at(self, i: int) -> Style {
        Style { attrs: self.attrs[i], color: self.colors[i] }
    }

    /// The row whose every cell is a blank with the given style, with the
    /// dirty flag set.
    pub open spec fn filled(style: Style) -> LineView {
        LineView {
            ascii: Seq::new(MAX_COLS as nat, |i: int| BLANK_CHAR),
            attrs: Seq::new(MAX_COLS as nat, |i: int| style.attrs),
            colors: Seq::new(MAX_COLS as nat, |i: int| style.color),
            dirty: true,
        }
    }

    /// A cleared row: every cell blank with default attributes and color.
    pub open spec fn blank() -> LineView {
        LineView::filled(Style { attrs: Attributes::none(), color: 0 })
    }

    /// The row with the cell in column `i` replaced.
    pub open spec fn with_cell(self, i: int, ch: u8, style: Style) -> LineView {
        LineView {
            ascii: self.ascii.update(i, ch),
            attrs: self.attrs.update(i, style.attrs),
            colors: self.colors.update(i, style.color),
            dirty: true,
        }
    }

    /// The row with all cells from column `from` on replaced by blanks
    /// carrying the given style (the erase-to-end-of-line result).
    pub open spec fn erased_from(self, from: int, style: Style) -> LineView {
        LineView {
            ascii: Seq::new(MAX_COLS as nat, |i: int| if i < from { self.ascii[i] } else { BLANK_CHAR }),
            attrs: Seq::new(MAX_COLS as nat, |i: int| if i < from { self.attrs[i] } else { style.attrs }),
            colors: Seq::new(MAX_COLS as nat, |i: int| if i < from { self.colors[i] } else { style.color }),
            dirty: true,
        }
    }

    /// The same row with the dirty flag forced to the given value.
    pub open spec fn with_dirty(self, dirty: bool) -> LineView {
        LineView { dirty, ..self }
    }
}

/// One row of cells. The parallel vectors always hold exactly `MAX_COLS`
/// entries; `needs_paint` is set whenever any cell changes.
pub struct Line {
    pub ascii: Vec<u8>,
    pub attributes: Vec<Attributes>,
    pub colors: Vec<u8>,
    pub needs_paint: bool,
}

impl View for Line {
    type V = LineView;

    open spec fn view(&self) -> LineView {
        LineView {
            ascii: self.ascii@,
            attrs: self.attributes@,
            colors: self.colors@,
            dirty: self.needs_paint,
        }
    }
}

impl Line {
    /// A fresh row: all cells blank with default style, marked dirty so the
    /// first paint draws it.
    pub fn new() -> (r: Line)
        ensures
            r@ =~= LineView::blank(),
            r@.wf(),
    {
        let mut ascii: Vec<u8> = Vec::new();
        let mut attributes: Vec<Attributes> = Vec::new();
        let mut colors: Vec<u8> = Vec::new();
        let mut i: usize = 0;
        while i < MAX_COLS
            invariant
                i <= MAX_COLS,
                ascii@ =~= Seq::new(i as nat, |k: int| BLANK_CHAR),
                attributes@ =~= Seq::new(i as nat, |k: int| Attributes::none()),
                colors@ =~= Seq::new(i as nat, |k: int| 0u8),
            decreases MAX_COLS - i,
        {
            ascii.push(BLANK_CHAR);
            attributes.push(Attributes::none());
            colors.push(0);
            i = i + 1;
        }
        Line { ascii, attributes, colors, needs_paint: true }
    }

    /// Resets every cell to a blank with the default style and marks the
    /// row dirty.
    pub fn clear(&mut self)
        requires
            old(self)@.wf(),
        ensures
            final(self)@ =~= LineView::blank(),
            final(self)@.wf(),
    {
        self.fill(BLANK_CHAR, Attributes::none(), 0);
    }

    /// Overwrites every cell with the given character and style and marks
    /// the row dirty.
    pub fn fill(&mut self, ch: u8, attrs: Attributes, color: u8)
        requires
            old(self)@.wf(),
        ensures
            final(self)@.ascii =~= Seq::new(MAX_COLS as nat, |i: int| ch),
            final(self)@.attrs =~= Seq::new(MAX_COLS as nat, |i: int| attrs),
            final(self)@.colors =~= Seq::new(MAX_COLS as nat, |i: int| color),
            final(self)@.dirty,
            final(self)@.wf(),
    {
        let mut i: usize = 0;
        while i < MAX_COLS
            invariant
                i <= MAX_COLS,
                self@.wf(),
                forall|k: int| 0 <= k < i ==> self@.ascii[k] == ch,
                forall|k: int| 0 <= k < i ==> self@.attrs[k] == attrs,
                forall|k: int| 0 <= k < i ==> self@.colors[k] == color,
            decreases MAX_COLS - i,
        {
            self.ascii.set(i, ch);
            self.attributes.set(i, attrs);
            self.colors.set(i, color);
            i = i + 1;
        }
        self.needs_paint = true;
    }

    /// Writes one cell: character, attributes and color, and marks the row
    /// dirty.
    pub fn set_cell(&mut self, col: usize, ch: u8, attrs: Attributes, color: u8)
        requires
            old(self)@.wf(),
            col < MAX_COLS,
        ensures
            final(self)@ =~= old(self)@.with_cell(col as int, ch, Style { attrs, color }),
            final(self)@.wf(),
    {
        self.ascii.set(col, ch);
        self.attributes.set(col, attrs);
        self.colors.set(col, color);
        self.needs_paint = true;
    }

    /// Blanks every cell from `from` to the end of the row, stamping the
    /// given style, and marks the row dirty. Columns before `from` keep
    /// their contents.
    pub fn erase_from(&mut self, from: usize, attrs: Attributes, color: u8)
        requires
            old(self)@.wf(),
        ensures
            final(self)@ =~= old(self)@.erased_from(from as int, Style { attrs, color }),
            final(self)@.wf(),
    {
        let ghost orig = old(self)@;
        let mut i: usize = from;
        while i < MAX_COLS
            invariant
                from <= i,
                self@.wf(),
                forall|k: int| 0 <= k < from && k < MAX_COLS ==> self@.ascii[k] == orig.ascii[k],
                forall|k: int| 0 <= k < from && k < MAX_COLS ==> self@.attrs[k] == orig.attrs[k],
                forall|k: int| 0 <= k < from && k < MAX_COLS ==> self@.colors[k] == orig.colors[k],
                forall|k: int| from <= k < i && k < MAX_COLS ==> self@.ascii[k] == BLANK_CHAR,
                forall|k: int| from <= k < i && k < MAX_COLS ==> self@.attrs[k] == attrs,
                forall|k: int| from <= k < i && k < MAX_COLS ==> self@.colors[k] == color,
            decreases MAX_COLS - i,
        {
            self.ascii.set(i, BLANK_CHAR);
            self.attributes.set(i, attrs);
            self.colors.set(i, color);
            i = i + 1;
        }
        self.needs_paint = true;
    }

    /// Records that the row's pixels are up to date.
    pub fn clear_dirty(&mut self)
        requires
            old(self)@.wf(),
        ensures
            final(self)@ == old(self)@.with_dirty(false),
            final(self)@.wf(),
    {
        self.needs_paint = false;
    }

    /// Marks the row as needing paint.
    pub fn mark_dirty(&mut self)
        requires
            old(self)@.wf(),
        ensures
            final(self)@ == old(self)@.with_dirty(true),
            final(self)@.wf(),
    {
        self.needs_paint = true;
    }
}

impl Default for Line {
    /// A fresh blank row, as `new` builds it.
    fn default() -> (r: Line)
        ensures
            r@ =~= LineView::blank(),
            r@.wf(),
    {
        Line::new()
    }
}

} // verus!
