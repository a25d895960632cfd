//! The incremental painter: walks the visible logical rows, skips rows
//! whose dirty flag is clear unless a full repaint is pending, resolves
//! each dirty row into clusters, and produces the redraw plan — fills,
//! text draws and the hardware scroll-offset update — for a display sink
//! to execute. Because the physical scan height is not a multiple of every
//! glyph cell height, a row whose pixel band crosses the scan boundary is
//! drawn twice: once at its computed offset, once shifted to cover the
//! wrapped remainder.

use vstd::prelude::*;

use crate::cell::{spec_bg_nybble, spec_fg_nybble, Attributes};
use crate::cluster::{clusters_of, cursor_col, Cluster, ClusterV};
use crate::font::{
    font_advance, font_baseline, font_height, spec_font_advance, spec_font_baseline,
    spec_font_height, FONT_COUNT,
};
use crate::line::{Line, LineView, MAX_COLS};
use crate::model::{
    lemma_geometry, ModelView, ScreenModel, MAX_LINES, SCAN_HEIGHT,
};

verus! {

/// One color as red, green and blue components.
#[derive(Clone, Copy, Debug, PartialEq, Eq, Structural)]
pub struct Rgb {
    pub r: u8,
    pub g: u8,
    pub b: u8,
}

/// The fixed 16-entry palette, in standard ANSI order: black, maroon,
/// green, olive, navy, purple, teal, silver, then the bright variants.
pub open spec fn spec_palette(n: int) -> Rgb {
    if n == 0 {
        Rgb { r: 0x00, g: 0x00, b: 0x00 }
    } else if n == 1 {
        Rgb { r: 0xcc, g: 0x55, b: 0x55 }
    } else if n == 2 {
        Rgb { r: 0x55, g: 0xcc, b: 0x55 }
    } else if n == 3 {
        Rgb { r: 0xcd, g: 0xcd, b: 0x55 }
    } else if n == 4 {
        Rgb { r: 0x54, g: 0x55, b: 0xcb }
    } else if n == 5 {
        Rgb { r: 0xcc, g: 0x55, b: 0xcc }
    } else if n == 6 {
        Rgb { r: 0x7a, g: 0xca, b: 0xca }
    } else if n == 7 {
        Rgb { r: 0xcc, g: 0xcc, b: 0xcc }
    } else if n == 8 {
        Rgb { r: 0x55, g: 0x55, b: 0x55 }
    } else if n == 9 {
        Rgb { r: 0xff, g: 0x55, b: 0x55 }
    } else if n == 10 {
        Rgb { r: 0x55, g: 0xff, b: 0x55 }
    } else if n == 11 {
        Rgb { r: 0xff, g: 0xff, b: 0x55 }
    } else if n == 12 {
        Rgb { r: 0x55, g: 0x55, b: 0xff }
    } else if n == 13 {
        Rgb { r: 0xff, g: 0x55, b: 0xff }
    } else if n == 14 {
        Rgb { r: 0x55, g: 0xff, b: 0xff }
    } else {
        Rgb { r: 0xff, g: 0xff, b: 0xff }
    }
}

/// The default foreground: green.
pub open spec fn default_fg() -> Rgb {
    Rgb { r: 0x00, g: 0xff, b: 0x00 }
}

/// The default background: black.
pub open spec fn default_bg() -> Rgb {
    Rgb { r: 0x00, g: 0x00, b: 0x00 }
}

/// The foreground that half-bright text forces: dark green.
pub open spec fn half_bright_fg() -> Rgb {
    Rgb { r: 0x00, g: 0x64, b: 0x00 }
}

/// The foreground that bold text forces: salmon.
pub open spec fn bold_fg() -> Rgb {
    Rgb { r: 0xfa, g: 0x80, b: 0x72 }
}

/// The color a nybble selects: the default for 0, else the palette entry
/// the 1-based nybble names.
pub open spec fn spec_color_nybble(nybble: u8, default_value: Rgb) -> Rgb {
    if nybble == 0 {
        default_value
    } else {
        spec_palette(nybble - 1)
    }
}

/// Resolves a color nybble against its default.
pub fn color_nybble(nybble: u8, default_value: Rgb) -> (r: Rgb)
    requires
        nybble < 16,
    ensures
        r == spec_color_nybble(nybble, default_value),
{
    if nybble == 0 {
        return default_value;
    }
    let idx = nybble - 1;
    if idx == 0 {
        Rgb { r: 0x00, g: 0x00, b: 0x00 }
    } else if idx == 1 {
        Rgb { r: 0xcc, g: 0x55, b: 0x55 }
    } else if idx == 2 {
        Rgb { r: 0x55, g: 0xcc, b: 0x55 }
    } else if idx == 3 {
        Rgb { r: 0xcd, g: 0xcd, b: 0x55 }
    } else if idx == 4 {
        Rgb { r: 0x54, g: 0x55, b: 0xcb }
    } else if idx == 5 {
        Rgb { r: 0xcc, g: 0x55, b: 0xcc }
    } else if idx == 6 {
        Rgb { r: 0x7a, g: 0xca, b: 0xca }
    } else if idx == 7 {
        Rgb { r: 0xcc, g: 0xcc, b: 0xcc }
    } else if idx == 8 {
        Rgb { r: 0x55, g: 0x55, b: 0x55 }
    } else if idx == 9 {
        Rgb { r: 0xff, g: 0x55, b: 0x55 }
    } else if idx == 10 {
        Rgb { r: 0x55, g: 0xff, b: 0x55 }
    } else if idx == 11 {
        Rgb { r: 0xff, g: 0xff, b: 0x55 }
    } else if idx == 12 {
        Rgb { r: 0x55, g: 0x55, b: 0xff }
    } else if idx == 13 {
        Rgb { r: 0xff, g: 0x55, b: 0xff }
    } else if idx == 14 {
        Rgb { r: 0x55, g: 0xff, b: 0xff }
    } else {
        Rgb { r: 0xff, g: 0xff, b: 0xff }
    }
}

/// The two display colors of a cluster: half-bright and bold override the
/// foreground unconditionally; otherwise the foreground nybble selects it;
/// the background nybble selects the background; reverse video swaps the
/// pair.
pub open spec fn spec_cluster_colors(attrs: Attributes, color: u8) -> (Rgb, Rgb) {
    let fg = if attrs.half_bright {
        half_bright_fg()
    } else if attrs.bold {
        bold_fg()
    } else {
        spec_color_nybble(spec_fg_nybble(color), default_fg())
    };
    let bg = spec_color_nybble(spec_bg_nybble(color), default_bg());
    if attrs.reverse {
        (bg, fg)
    } else {
        (fg, bg)
    }
}

/// Resolves a cluster's foreground and background colors.
pub fn cluster_colors(attrs: Attributes, color: u8) -> (r: (Rgb, Rgb))
    ensures
        r == spec_cluster_colors(attrs, color),
{
    let fg = if attrs.half_bright {
        Rgb { r: 0x00, g: 0x64, b: 0x00 }
    } else if attrs.bold {
        Rgb { r: 0xfa, g: 0x80, b: 0x72 }
    } else {
        color_nybble(crate::cell::fg_nybble(color), Rgb { r: 0x00, g: 0xff, b: 0x00 })
    };
    let bg = color_nybble(crate::cell::bg_nybble(color), Rgb { r: 0x00, g: 0x00, b: 0x00 });
    if attrs.reverse {
        (bg, fg)
    } else {
        (fg, bg)
    }
}

/// One drawing operation of a redraw plan, for a display sink to execute.
#[derive(Debug)]
pub enum DrawOp {
    /// Clear the whole physical surface to one color.
    ClearAll { color: Rgb },
    /// Fill an axis-aligned rectangle (pixel coordinates of the scan
    /// buffer).
    FillRect { x: u16, y: u16, width: u16, height: u16, color: Rgb },
    /// Draw text at a pixel origin whose `y` is the text baseline row,
    /// using the numbered font.
    DrawText { x: u16, y: u16, text: Vec<u8>, fg: Rgb, bg: Rgb, font: u8 },
    /// Set the hardware vertical scroll offset: the scan row that becomes
    /// the top of the visible window.
    SetScrollOffset { offset: u16 },
}

/// Mathematical model of one drawing operation.
#[verifier::ext_equal]
pub enum DrawOpV {
    ClearAll { color: Rgb },
    FillRect { x: int, y: int, width: int, height: int, color: Rgb },
    DrawText { x: int, y: int, text: Seq<u8>, fg: Rgb, bg: Rgb, font: int },
    SetScrollOffset { offset: int },
}

impl View for DrawOp {
    type V = DrawOpV;

    open spec fn view(&self) -> DrawOpV {
        match self {
            DrawOp::ClearAll { color } => DrawOpV::ClearAll { color: *color },
            DrawOp::FillRect { x, y, width, height, color } => DrawOpV::FillRect {
                x: *x as int,
                y: *y as int,
                width: *width as int,
                height: *height as int,
                color: *color,
            },
            DrawOp::DrawText { x, y, text, fg, bg, font } => DrawOpV::DrawText {
                x: *x as int,
                y: *y as int,
                text: text@,
                fg: *fg,
                bg: *bg,
                font: *font as int,
            },
            DrawOp::SetScrollOffset { offset } => DrawOpV::SetScrollOffset {
                offset: *offset as int,
            },
        }
    }
}

/// The views of a plan's operations.
pub open spec fn views_of_ops(ops: Seq<DrawOp>) -> Seq<DrawOpV> {
    Seq::new(ops.len(), |k: int| ops[k]@)
}

/// A scan-buffer pixel row reduced into `[0, SCAN_HEIGHT)`; defined for
/// values below twice the scan height.
pub open spec fn wrap_scan(y: int) -> int {
    if y < SCAN_HEIGHT {
        y
    } else {
        y - SCAN_HEIGHT
    }
}

/// The scan row where the last whole glyph band of font `f` ends; the
/// remainder below it is where a drawn row wraps around.
pub open spec fn spec_boundary_y(f: int) -> int {
    (SCAN_HEIGHT as int / spec_font_height(f) as int) * spec_font_height(f) as int
}

/// The drawing operations of one cluster drawn with its top at scan row
/// `row_y`: a background fill and a text draw, doubled onto the wrapped
/// remainder when the band crosses the scan boundary.
pub open spec fn cluster_ops(cl: ClusterV, f: int, row_y: int) -> Seq<DrawOpV> {
    let adv = spec_font_advance(f) as int;
    let ch = spec_font_height(f) as int;
    let base = spec_font_baseline(f) as int;
    let b_y = spec_boundary_y(f);
    let bh = SCAN_HEIGHT - b_y;
    let rr = wrap_scan(row_y);
    let colors = spec_cluster_colors(cl.attributes, cl.color);
    let start_x = cl.start_col * adv;
    let pw = (cl.end_col - cl.start_col) * adv;
    let fill = DrawOpV::FillRect { x: start_x, y: rr, width: pw, height: ch, color: colors.1 };
    let text = DrawOpV::DrawText {
        x: start_x,
        y: wrap_scan(rr + base),
        text: cl.text,
        fg: colors.0,
        bg: colors.1,
        font: f,
    };
    if rr >= b_y || rr + ch - 1 >= b_y {
        let off = ch - bh;
        let fill2 = DrawOpV::FillRect {
            x: start_x,
            y: wrap_scan(rr + off),
            width: pw,
            height: bh,
            color: colors.1,
        };
        let text2 = DrawOpV::DrawText {
            x: start_x,
            y: wrap_scan(rr + base + off),
            text: cl.text,
            fg: colors.0,
            bg: colors.1,
            font: f,
        };
        seq![fill, text, fill2, text2]
    } else {
        seq![fill, text]
    }
}

/// The operations of a sequence of clusters, all with their tops at the
/// same scan row.
pub open spec fn ops_of_clusters(cs: Seq<ClusterV>, f: int, row_y: int) -> Seq<DrawOpV>
    decreases cs.len(),
{
    if cs.len() == 0 {
        Seq::empty()
    } else {
        cluster_ops(cs[0], f, row_y) + ops_of_clusters(cs.subrange(1, cs.len() as int), f, row_y)
    }
}

/// The operations that repaint one row: its clusters, with the cursor
/// spliced in when the row holds it.
pub open spec fn row_ops(l: LineView, cursor: Option<int>, f: int, row_y: int) -> Seq<DrawOpV> {
    ops_of_clusters(clusters_of(l, cursor), f, row_y)
}

/// The scan row reached after advancing `n` rows of font `f` from `y`.
pub open spec fn advance_rows(f: int, n: int, y: int) -> int
    decreases n,
{
    if n <= 0 {
        y
    } else {
        wrap_scan(advance_rows(f, n - 1, y) + spec_font_height(f))
    }
}

/// The operations of the visible rows from `r` down, with row `r` drawn at
/// scan row `row_y`: dirty rows (or all rows, on a full repaint) resolve
/// to their clusters; clean rows are skipped.
pub open spec fn rows_ops(v: ModelView, full: bool, r: int, row_y: int) -> Seq<DrawOpV>
    decreases v.height - r,
{
    if r < 0 || r >= v.height {
        Seq::empty()
    } else {
        let line = v.line_log(r);
        let cursor: Option<int> = if r == v.cursor_y {
            Some(v.cursor_x)
        } else {
            None
        };
        let here: Seq<DrawOpV> = if line.dirty || full {
            row_ops(line, cursor, v.font, row_y)
        } else {
            Seq::empty()
        };
        here + rows_ops(v, full, r + 1, wrap_scan(row_y + spec_font_height(v.font)))
    }
}

/// The blank full-width cluster drawn below the last visible row to erase
/// the row that scrolling is about to expose.
pub open spec fn blank_cluster() -> ClusterV {
    ClusterV {
        text: Seq::empty(),
        attributes: Attributes::none(),
        color: 0,
        start_col: 0,
        end_col: MAX_COLS as int,
    }
}

/// Whether a paint pass has anything to draw: a pending full repaint, or
/// some dirty visible row.
pub open spec fn paint_needed(v: ModelView, full: bool) -> bool {
    full || exists|r: int| 0 <= r < v.height && (#[trigger] v.line_log(r)).dirty
}

/// The grid with every visible row's dirty flag cleared.
pub open spec fn visible_cleaned(v: ModelView) -> ModelView {
    ModelView {
        lines: Seq::new(
            MAX_LINES as nat,
            |p: int|
                if v.phys_to_log(p) < v.height {
                    v.lines[p].with_dirty(false)
                } else {
                    v.lines[p]
                },
        ),
        ..v
    }
}

/// One paint pass over the grid: the grid afterwards (full repaint
/// consumed, pixel offset reset on a full repaint, visible dirty flags
/// cleared) and the redraw plan. When nothing needs painting the plan is
/// empty: no hardware traffic at all. Otherwise the plan is the full-
/// surface clear if a full repaint was pending, the dirty rows' cluster
/// operations in row order, one blank row below the bottom (doubled at the
/// wrap point when the scan boundary remainder is nonzero), and finally
/// the hardware scroll-offset update.
pub open spec fn spec_paint(v: ModelView) -> (ModelView, Seq<DrawOpV>) {
    let full = v.full_repaint;
    let v1 = if full {
        ModelView { full_repaint: false, pixel_offset: 0, ..v }
    } else {
        v
    };
    let head: Seq<DrawOpV> = if full {
        seq![DrawOpV::ClearAll { color: default_bg() }]
    } else {
        Seq::empty()
    };
    let rops = rows_ops(v1, full, 0, v1.pixel_offset);
    let endy = advance_rows(v1.font, v1.height, v1.pixel_offset);
    let ch = spec_font_height(v1.font) as int;
    let bh = SCAN_HEIGHT - spec_boundary_y(v1.font);
    let tail: Seq<DrawOpV> = if paint_needed(v1, full) {
        cluster_ops(blank_cluster(), v1.font, endy) + (if bh > 0 {
            cluster_ops(blank_cluster(), v1.font, endy + ch)
        } else {
            Seq::empty()
        }) + seq![DrawOpV::SetScrollOffset { offset: v1.pixel_offset }]
    } else {
        Seq::empty()
    };
    (visible_cleaned(v1), head + rops + tail)
}

/// The scan boundary of every selectable font lies within the last glyph
/// band of the scan buffer: the remainder below it is smaller than the
/// font's cell height.
pub proof fn lemma_boundary(f: int)
    requires
        0 <= f < FONT_COUNT,
    ensures
        0 < spec_boundary_y(f) <= SCAN_HEIGHT,
        SCAN_HEIGHT - spec_boundary_y(f) < spec_font_height(f),
{
    if f == 0 {
        assert(spec_boundary_y(f) == 480);
    } else if f == 1 {
        assert(spec_boundary_y(f) == 473);
    } else if f == 2 {
        assert(spec_boundary_y(f) == 480);
    } else if f == 3 {
        assert(spec_boundary_y(f) == 480);
    } else if f == 4 {
        assert(spec_boundary_y(f) == 476);
    } else if f == 5 {
        assert(spec_boundary_y(f) == 462);
    } else {
        assert(spec_boundary_y(f) == 464);
    }
}

/// Copies a byte vector.
fn copy_bytes(src: &Vec<u8>) -> (r: Vec<u8>)
    ensures
        r@ == src@,
{
    let mut r: Vec<u8> = Vec::new();
    let mut i: usize = 0;
    while i < src.len()
        invariant
            i <= src@.len(),
            r@ =~= src@.subrange(0, i as int),
        decreases src@.len() - i,
    {
        r.push(src[i]);
        i = i + 1;
    }
    proof {
        assert(src@.subrange(0, src@.len() as int) =~= src@);
    }
    r
}

/// Appends one cluster's drawing operations to the plan.
fn push_cluster_ops(ops: &mut Vec<DrawOp>, cl: &Cluster, f: usize, row_y: u16)
    requires
        f < FONT_COUNT,
        row_y < 2 * SCAN_HEIGHT,
        cl@.start_col <= cl@.end_col <= MAX_COLS,
    ensures
        views_of_ops(final(ops)@) == views_of_ops(old(ops)@) + cluster_ops(
            cl@,
            f as int,
            row_y as int,
        ),
{
    let ghost before = ops@;
    proof {
        lemma_boundary(f as int);
    }
    let adv = font_advance(f);
    let ch = font_height(f);
    let base = font_baseline(f);
    let b_y = (SCAN_HEIGHT / ch) * ch;
    let bh = SCAN_HEIGHT - b_y;
    let rr = if row_y < SCAN_HEIGHT {
        row_y
    } else {
        row_y - SCAN_HEIGHT
    };
    let colors = cluster_colors(cl.attributes, cl.color);
    let fg = colors.0;
    let bg = colors.1;
    let sc = cl.start_col as u16;
    let span = (cl.end_col - cl.start_col) as u16;
    proof {
        assert(sc as int * adv as int <= 1280) by (nonlinear_arith)
            requires
                sc as int <= 80,
                adv as int <= 16,
        ;
        assert(span as int * adv as int <= 1280) by (nonlinear_arith)
            requires
                span as int <= 80,
                adv as int <= 16,
        ;
    }
    let start_x = sc * adv;
    let pw = span * adv;
    ops.push(DrawOp::FillRect { x: start_x, y: rr, width: pw, height: ch, color: bg });
    let t1 = copy_bytes(&cl.text);
    let ty = if rr + base < SCAN_HEIGHT {
        rr + base
    } else {
        rr + base - SCAN_HEIGHT
    };
    ops.push(DrawOp::DrawText { x: start_x, y: ty, text: t1, fg, bg, font: f as u8 });
    if rr >= b_y || rr + ch - 1 >= b_y {
        let off = ch - bh;
        let y2 = if rr + off < SCAN_HEIGHT {
            rr + off
        } else {
            rr + off - SCAN_HEIGHT
        };
        ops.push(DrawOp::FillRect { x: start_x, y: y2, width: pw, height: bh, color: bg });
        let t2 = copy_bytes(&cl.text);
        let ty2 = if rr + base + off < SCAN_HEIGHT {
            rr + base + off
        } else {
            rr + base + off - SCAN_HEIGHT
        };
        ops.push(DrawOp::DrawText { x: start_x, y: ty2, text: t2, fg, bg, font: f as u8 });
        proof {
            assert(views_of_ops(ops@) =~= views_of_ops(before) + cluster_ops(
                cl@,
                f as int,
                row_y as int,
            ));
        }
    } else {
        proof {
            assert(views_of_ops(ops@) =~= views_of_ops(before) + cluster_ops(
                cl@,
                f as int,
                row_y as int,
            ));
        }
    }
}

/// Appends one row's repaint operations to the plan: the row's clusters,
/// with the cursor spliced in when given.
fn paint_row(ops: &mut Vec<DrawOp>, line: &Line, cursor: Option<u8>, f: usize, row_y: u16)
    requires
        line@.wf(),
        f < FONT_COUNT,
        row_y < SCAN_HEIGHT,
    ensures
        views_of_ops(final(ops)@) == views_of_ops(old(ops)@) + row_ops(
            line@,
            cursor_col(cursor),
            f as int,
            row_y as int,
        ),
{
    let ghost before = ops@;
    let ghost cv = cursor_col(cursor);
    let ghost target = ops_of_clusters(clusters_of(line@, cv), f as int, row_y as int);
    let cs = line.clusters(cursor);
    proof {
        crate::cluster::lemma_partition_from(line@, cv, 0);
        assert(crate::cluster::views_of(cs@).subrange(0, cs@.len() as int) =~= crate::cluster::views_of(
            cs@,
        ));
        assert(views_of_ops(before) + ops_of_clusters(
            crate::cluster::views_of(cs@).subrange(0, cs@.len() as int),
            f as int,
            row_y as int,
        ) =~= views_of_ops(before) + target);
    }
    let mut k: usize = 0;
    while k < cs.len()
        invariant
            f < FONT_COUNT,
            row_y < SCAN_HEIGHT,
            k <= cs@.len(),
            crate::cluster::views_of(cs@) == clusters_of(line@, cv),
            forall|j: int|
                0 <= j < cs@.len() ==> {
                    let c = #[trigger] clusters_of(line@, cv)[j];
                    0 <= c.start_col < c.end_col <= MAX_COLS
                },
            forall|j: int| 0 <= j < cs@.len() ==> (#[trigger] cs@[j])@ == clusters_of(line@, cv)[j],
            views_of_ops(before) + target == views_of_ops(ops@) + ops_of_clusters(
                crate::cluster::views_of(cs@).subrange(k as int, cs@.len() as int),
                f as int,
                row_y as int,
            ),
        decreases cs@.len() - k,
    {
        let ghost suffix = crate::cluster::views_of(cs@).subrange(k as int, cs@.len() as int);
        proof {
            assert(suffix[0] == cs@[k as int]@);
            assert(suffix.subrange(1, suffix.len() as int) =~= crate::cluster::views_of(
                cs@,
            ).subrange(k as int + 1, cs@.len() as int));
        }
        let ghost mid = ops@;
        push_cluster_ops(ops, &cs[k], f, row_y);
        proof {
            assert(views_of_ops(ops@) =~= views_of_ops(mid) + cluster_ops(
                cs@[k as int]@,
                f as int,
                row_y as int,
            ));
            assert((views_of_ops(mid) + cluster_ops(cs@[k as int]@, f as int, row_y as int))
                + ops_of_clusters(
                crate::cluster::views_of(cs@).subrange(k as int + 1, cs@.len() as int),
                f as int,
                row_y as int,
            ) =~= views_of_ops(mid) + (cluster_ops(cs@[k as int]@, f as int, row_y as int)
                + ops_of_clusters(
                crate::cluster::views_of(cs@).subrange(k as int + 1, cs@.len() as int),
                f as int,
                row_y as int,
            )));
        }
        k = k + 1;
    }
    proof {
        assert(crate::cluster::views_of(cs@).subrange(cs@.len() as int, cs@.len() as int)
            =~= Seq::<ClusterV>::empty());
        assert(views_of_ops(before) + target =~= views_of_ops(ops@));
    }
}

impl ScreenModel {
    /// One display refresh: consumes a pending full repaint (clearing the
    /// whole surface and resetting the pixel offset), repaints every dirty
    /// visible row — all rows on a full repaint — clearing their dirty
    /// flags, draws one blank row below the bottom (doubled at the wrap
    /// point when the scan boundary remainder is nonzero) to erase the row
    /// scrolling is about to expose, and ends with the hardware scroll-
    /// offset update. Returns the redraw plan; when no row changed the
    /// plan is empty and no hardware update is issued.
    pub fn update_display(&mut self) -> (ops: Vec<DrawOp>)
        requires
            old(self).wf(),
        ensures
            final(self).wf(),
            final(self)@ == spec_paint(old(self)@).0,
            views_of_ops(ops@) == spec_paint(old(self)@).1,
    {
        let ghost v_orig = self@;
        let ghost full = self@.full_repaint;
        proof {
            lemma_geometry(v_orig.font);
            lemma_boundary(v_orig.font);
        }
        let mut ops: Vec<DrawOp> = Vec::new();
        let is_full = self.full_repaint;
        if is_full {
            ops.push(DrawOp::ClearAll { color: Rgb { r: 0, g: 0, b: 0 } });
            self.full_repaint = false;
            self.pixel_offset_first_line = 0;
        }
        let ghost v1 = self@;
        let ghost head: Seq<DrawOpV> = if full {
            seq![DrawOpV::ClearAll { color: default_bg() }]
        } else {
            Seq::empty()
        };
        proof {
            assert(v1 =~= (if full {
                ModelView { full_repaint: false, pixel_offset: 0, ..v_orig }
            } else {
                v_orig
            }));
            assert(views_of_ops(ops@) =~= head);
        }
        let f = self.font;
        let ch = font_height(f);
        let h = self.height;
        let start_y = self.pixel_offset_first_line;
        let mut row_y: u16 = start_y;
        let mut num_changed: u16 = 0;
        let mut idx: u8 = 0;
        proof {
            assert(head + rows_ops(v1, full, 0, start_y as int) =~= views_of_ops(ops@)
                + rows_ops(v1, full, 0, row_y as int));
            assert(self@ =~= (ModelView {
                lines: Seq::new(
                    MAX_LINES as nat,
                    |p: int|
                        if v1.phys_to_log(p) < 0 {
                            v1.lines[p].with_dirty(false)
                        } else {
                            v1.lines[p]
                        },
                ),
                ..v1
            }));
        }
        while idx < h
            invariant
                v1.wf(),
                full == v_orig.full_repaint,
                is_full == full,
                f == v1.font,
                ch as int == spec_font_height(f as int),
                h as int == v1.height,
                start_y as int == v1.pixel_offset,
                idx <= h,
                self@ == (ModelView {
                    lines: Seq::new(
                        MAX_LINES as nat,
                        |p: int|
                            if v1.phys_to_log(p) < idx as int {
                                v1.lines[p].with_dirty(false)
                            } else {
                                v1.lines[p]
                            },
                    ),
                    ..v1
                }),
                row_y as int == advance_rows(f as int, idx as int, start_y as int),
                row_y < SCAN_HEIGHT,
                head + rows_ops(v1, full, 0, start_y as int) == views_of_ops(ops@) + rows_ops(
                    v1,
                    full,
                    idx as int,
                    row_y as int,
                ),
                num_changed > 0 <==> (full && idx > 0) || exists|r: int|
                    0 <= r < idx as int && (#[trigger] v1.line_log(r)).dirty,
                num_changed <= idx as u16,
            decreases h - idx,
        {
            proof {
                lemma_geometry(v1.font);
                lemma_boundary(v1.font);
                assert forall|q: int| 0 <= q < MAX_LINES implies (#[trigger] self@.lines[q]).wf()
                by {
                    assert(v1.lines[q].wf());
                }
                assert(self@.wf_core());
            }
            let p = self.log_to_phys(idx);
            proof {
                assert(v1.phys_to_log(p as int) == idx as int);
                assert(self@.lines[p as int] == v1.lines[p as int]);
                assert((self.lines@[p as int])@ == v1.lines[p as int]);
            }
            let dirty = self.lines[p].needs_paint;
            let ghost ops_before = ops@;
            let ghost rows_rest = rows_ops(
                v1,
                full,
                idx as int + 1,
                wrap_scan(row_y as int + ch as int),
            );
            if dirty || is_full {
                let cursor: Option<u8> = if self.cursor_y == idx {
                    Some(self.cursor_x)
                } else {
                    None
                };
                let ghost speccursor: Option<int> = if idx as int == v1.cursor_y {
                    Some(v1.cursor_x)
                } else {
                    None
                };
                proof {
                    assert(cursor_col(cursor) == speccursor);
                }
                paint_row(&mut ops, &self.lines[p], cursor, f, row_y);
                let ghost prev = self@;
                self.lines[p].clear_dirty();
                num_changed = num_changed + 1;
                proof {
                    let here = row_ops(v1.line_log(idx as int), speccursor, f as int, row_y as int);
                    assert(rows_ops(v1, full, idx as int, row_y as int) == here + rows_rest);
                    assert(views_of_ops(ops@) =~= views_of_ops(ops_before) + here);
                    assert((views_of_ops(ops_before) + here) + rows_rest =~= views_of_ops(
                        ops_before,
                    ) + (here + rows_rest));
                    assert(head + rows_ops(v1, full, 0, start_y as int) == views_of_ops(ops@)
                        + rows_rest);
                    assert forall|q: int| 0 <= q < MAX_LINES implies #[trigger] self@.lines[q]
                        =~= (if v1.phys_to_log(q) < idx as int + 1 {
                        v1.lines[q].with_dirty(false)
                    } else {
                        v1.lines[q]
                    }) by {
                        if q == p as int {
                            assert(self@.lines[q] == prev.lines[q].with_dirty(false));
                            assert(prev.lines[q] == v1.lines[q]);
                        } else {
                            assert(self@.lines[q] == prev.lines[q]);
                            if v1.phys_to_log(q) == idx as int {
                                assert(v1.log_to_phys(idx as int) == q);
                                assert(false);
                            }
                        }
                    }
                    assert(self@.lines =~~= Seq::new(
                        MAX_LINES as nat,
                        |q: int|
                            if v1.phys_to_log(q) < idx as int + 1 {
                                v1.lines[q].with_dirty(false)
                            } else {
                                v1.lines[q]
                            },
                    ));
                    assert(self@ =~= (ModelView {
                        lines: Seq::new(
                            MAX_LINES as nat,
                            |q: int|
                                if v1.phys_to_log(q) < idx as int + 1 {
                                    v1.lines[q].with_dirty(false)
                                } else {
                                    v1.lines[q]
                                },
                        ),
                        ..v1
                    }));
                }
            } else {
                proof {
                    assert(!v1.line_log(idx as int).dirty);
                    assert(rows_ops(v1, full, idx as int, row_y as int)
                        =~= Seq::<DrawOpV>::empty() + rows_rest);
                    assert(Seq::<DrawOpV>::empty() + rows_rest =~= rows_rest);
                    assert(v1.lines[p as int].with_dirty(false) =~= v1.lines[p as int]);
                    assert(self@ =~= (ModelView {
                        lines: Seq::new(
                            MAX_LINES as nat,
                            |q: int|
                                if v1.phys_to_log(q) < idx as int + 1 {
                                    v1.lines[q].with_dirty(false)
                                } else {
                                    v1.lines[q]
                                },
                        ),
                        ..v1
                    }));
                }
            }
            let row_y2 = if row_y + ch < SCAN_HEIGHT {
                row_y + ch
            } else {
                row_y + ch - SCAN_HEIGHT
            };
            proof {
                assert(row_y2 as int == wrap_scan(row_y as int + ch as int));
                assert(advance_rows(f as int, idx as int + 1, start_y as int) == wrap_scan(
                    advance_rows(f as int, idx as int, start_y as int) + spec_font_height(f as int),
                ));
            }
            row_y = row_y2;
            idx = idx + 1;
        }
        proof {
            assert(rows_ops(v1, full, h as int, row_y as int) =~= Seq::<DrawOpV>::empty());
            assert(views_of_ops(ops@) + Seq::<DrawOpV>::empty() =~= views_of_ops(ops@));
            assert(views_of_ops(ops@) =~= head + rows_ops(v1, full, 0, start_y as int));
        }
        let ghost rops = rows_ops(v1, full, 0, v1.pixel_offset);
        if num_changed > 0 {
            let ghost ops_a = ops@;
            let ghost endy = advance_rows(v1.font, v1.height, v1.pixel_offset);
            proof {
                assert(row_y as int == endy);
                assert(paint_needed(v1, full)) by {
                    if !full {
                        let r = choose|r: int|
                            0 <= r < h as int && (#[trigger] v1.line_log(r)).dirty;
                        assert(v1.line_log(r).dirty);
                    }
                }
            }
            let blank = Cluster {
                text: Vec::new(),
                attributes: Attributes::none(),
                color: 0,
                start_col: 0,
                end_col: MAX_COLS,
            };
            proof {
                assert(blank@ =~= blank_cluster());
            }
            proof {
                assert(blank@ == blank_cluster());
            }
            push_cluster_ops(&mut ops, &blank, f, row_y);
            let ghost ops_b = ops@;
            let ghost chs = spec_font_height(v1.font) as int;
            let ghost bhs = SCAN_HEIGHT - spec_boundary_y(v1.font);
            let ghost wrap_part: Seq<DrawOpV> = if bhs > 0 {
                cluster_ops(blank_cluster(), v1.font, endy + chs)
            } else {
                Seq::<DrawOpV>::empty()
            };
            let b_y = (SCAN_HEIGHT / ch) * ch;
            let bh = SCAN_HEIGHT - b_y;
            proof {
                assert(b_y as int == spec_boundary_y(v1.font));
                assert(bh as int == bhs);
                assert(views_of_ops(ops_b) =~= views_of_ops(ops_a) + cluster_ops(
                    blank_cluster(),
                    v1.font,
                    endy,
                ));
            }
            if bh > 0 {
                push_cluster_ops(&mut ops, &blank, f, row_y + ch);
                proof {
                    assert((row_y + ch) as int == endy + chs);
                    assert(views_of_ops(ops@) =~= views_of_ops(ops_b) + wrap_part);
                }
            } else {
                proof {
                    assert(views_of_ops(ops@) =~= views_of_ops(ops_b) + wrap_part);
                }
            }
            let ghost ops_c = ops@;
            let offset = start_y;
            ops.push(DrawOp::SetScrollOffset { offset });
            proof {
                let tail = cluster_ops(blank_cluster(), v1.font, endy) + wrap_part + seq![
                    DrawOpV::SetScrollOffset { offset: v1.pixel_offset },
                ];
                assert(views_of_ops(ops@) =~= views_of_ops(ops_c) + seq![
                    DrawOpV::SetScrollOffset { offset: v1.pixel_offset },
                ]);
                assert(views_of_ops(ops@) =~= (head + rops) + tail);
                assert(views_of_ops(ops@) =~= head + rops + tail);
                assert(spec_paint(v_orig).1 == head + rops + tail);
                assert(views_of_ops(ops@) == spec_paint(v_orig).1);
            }
        } else {
            proof {
                assert(!full);
                assert(!paint_needed(v1, full));
                assert(views_of_ops(ops@) =~= head + rops + Seq::<DrawOpV>::empty());
                assert(views_of_ops(ops@) == spec_paint(v_orig).1);
            }
        }
        proof {
            assert(self@ =~= visible_cleaned(v1));
            assert(self@ == spec_paint(v_orig).0);
            assert forall|q: int| 0 <= q < MAX_LINES implies (#[trigger] self@.lines[q]).wf() by {
                assert(v1.lines[q].wf());
            }
            assert(self@.wf());
        }
        ops
    }
}

} // verus!
