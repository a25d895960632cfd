//! Run-length clustering of a row: maximal runs of contiguous cells that
//! share identical attributes and color, the unit of one draw call. When
//! the cursor sits on the row, the run containing the cursor column is
//! split there and rendered with the reverse-video bit toggled, so the
//! cursor always shows as inverted video.

use vstd::prelude::*;

use crate::cell::{Attributes, Style};
use crate::line::{Line, LineView, MAX_COLS};

verus! {

/// The cursor column as a mathematical value, if the row holds the cursor.
pub open spec fn cursor_col(cursor_x: Option<u8>) -> Option<int> {
    match cursor_x {
        Some(c) => Some(c as int),
        None => None,
    }
}

/// The style a cell presents to the painter: its own style, except that
/// the cell under the cursor shows with the reverse bit toggled.
pub open spec fn eff_style(l: LineView, cursor: Option<int>, i: int) -> Style {
    if cursor == Some(i) {
        Style { attrs: l.attrs[i].spec_toggle_reverse(), color: l.colors[i] }
    } else {
        Style { attrs: l.attrs[i], color: l.colors[i] }
    }
}

/// A cluster boundary sits before column `i` when the presented style
/// changes there, or when `i` is the cursor column (the run is forced
/// closed so the cursor cell starts its own cluster).
pub open spec fn is_break(l: LineView, cursor: Option<int>, i: int) -> bool {
    eff_style(l, cursor, i) != eff_style(l, cursor, i - 1) || cursor == Some(i)
}

/// The end (exclusive) of the run that starts at column `i`: the first
/// break after `i`, or the row's full width.
pub open spec fn run_end(l: LineView, cursor: Option<int>, i: int) -> int
    decreases MAX_COLS - i,
{
    if i + 1 >= MAX_COLS {
        MAX_COLS as int
    } else if is_break(l, cursor, i + 1) {
        i + 1
    } else {
        run_end(l, cursor, i + 1)
    }
}

/// A run's end lies strictly past its start and within the row.
pub proof fn lemma_run_end_bounds(l: LineView, cursor: Option<int>, i: int)
    ensures
        0 <= i < MAX_COLS ==> i < run_end(l, cursor, i) <= MAX_COLS,
    decreases MAX_COLS - i,
{
    if 0 <= i && i + 1 < MAX_COLS && !is_break(l, cursor, i + 1) {
        lemma_run_end_bounds(l, cursor, i + 1);
    }
}

/// Every column of a run presents the style of the run's first column, no
/// break lies strictly inside the run, and the run ends at the row's width
/// or at a break.
pub proof fn lemma_run_uniform(l: LineView, cursor: Option<int>, i: int)
    requires
        0 <= i < MAX_COLS,
    ensures
        forall|j: int|
            i <= j < run_end(l, cursor, i) ==> eff_style(l, cursor, j) == eff_style(l, cursor, i),
        forall|j: int| i < j < run_end(l, cursor, i) ==> !is_break(l, cursor, j),
        run_end(l, cursor, i) == MAX_COLS || is_break(l, cursor, run_end(l, cursor, i)),
    decreases MAX_COLS - i,
{
    lemma_run_end_bounds(l, cursor, i);
    if i + 1 < MAX_COLS && !is_break(l, cursor, i + 1) {
        lemma_run_uniform(l, cursor, i + 1);
        assert(eff_style(l, cursor, i + 1) == eff_style(l, cursor, i));
    }
}

/// Mathematical model of one cluster: the run's text and shared style,
/// and the half-open column range it covers.
#[verifier::ext_equal]
pub struct ClusterV {
    pub text: Seq<u8>,
    pub attributes: Attributes,
    pub color: u8,
    pub start_col: int,
    pub end_col: int,
}

/// The cluster for the run `[i, e)` of a row.
pub open spec fn mk_cluster(l: LineView, cursor: Option<int>, i: int, e: int) -> ClusterV {
    ClusterV {
        text: l.ascii.subrange(i, e),
        attributes: eff_style(l, cursor, i).attrs,
        color: eff_style(l, cursor, i).color,
        start_col: i,
        end_col: e,
    }
}

/// The sequence of clusters covering columns `i` to the end of the row.
pub open spec fn clusters_from(l: LineView, cursor: Option<int>, i: int) -> Seq<ClusterV>
    decreases MAX_COLS - i via clusters_from_decreases
{
    if i < 0 || i >= MAX_COLS {
        Seq::empty()
    } else {
        seq![mk_cluster(l, cursor, i, run_end(l, cursor, i))] + clusters_from(
            l,
            cursor,
            run_end(l, cursor, i),
        )
    }
}

#[via_fn]
proof fn clusters_from_decreases(l: LineView, cursor: Option<int>, i: int) {
    lemma_run_end_bounds(l, cursor, i);
}

/// The full cluster decomposition of a row, with the cursor spliced in at
/// the given column if one is supplied.
pub open spec fn clusters_of(l: LineView, cursor: Option<int>) -> Seq<ClusterV> {
    clusters_from(l, cursor, 0)
}

/// The concatenation of the texts of a sequence of clusters.
pub open spec fn concat_texts(cs: Seq<ClusterV>) -> Seq<u8>
    decreases cs.len(),
{
    if cs.len() == 0 {
        Seq::empty()
    } else {
        cs[0].text + concat_texts(cs.subrange(1, cs.len() as int))
    }
}

proof fn lemma_concat_from(l: LineView, cursor: Option<int>, i: int)
    requires
        l.wf(),
        0 <= i <= MAX_COLS,
    ensures
        concat_texts(clusters_from(l, cursor, i)) =~= l.ascii.subrange(i, MAX_COLS as int),
    decreases MAX_COLS - i,
{
    if i == MAX_COLS {
        assert(clusters_from(l, cursor, i) =~= Seq::<ClusterV>::empty());
    } else {
        lemma_run_end_bounds(l, cursor, i);
        let e = run_end(l, cursor, i);
        let cs = clusters_from(l, cursor, i);
        let rest = clusters_from(l, cursor, e);
        assert(cs == seq![mk_cluster(l, cursor, i, e)] + rest);
        assert(cs.subrange(1, cs.len() as int) =~= rest);
        lemma_concat_from(l, cursor, e);
    }
}

/// The clusters of a row concatenate to exactly the row's characters: each
/// cell appears exactly once, in column order, with no gaps or overlaps.
pub proof fn lemma_clusters_cover_row(l: LineView, cursor: Option<int>)
    requires
        l.wf(),
    ensures
        concat_texts(clusters_of(l, cursor)) == l.ascii,
{
    lemma_concat_from(l, cursor, 0);
    assert(l.ascii.subrange(0, MAX_COLS as int) =~= l.ascii);
}

/// Structure of the decomposition: clusters chain from column `i` to the
/// end of the row without gaps or overlaps, and each cluster's text is the
/// row's characters over its column range.
pub proof fn lemma_partition_from(l: LineView, cursor: Option<int>, i: int)
    requires
        l.wf(),
        0 <= i <= MAX_COLS,
    ensures
        clusters_from(l, cursor, i).len() == 0 <==> i == MAX_COLS,
        clusters_from(l, cursor, i).len() > 0 ==> clusters_from(l, cursor, i)[0].start_col == i
            && clusters_from(l, cursor, i).last().end_col == MAX_COLS,
        forall|k: int|
            0 <= k < clusters_from(l, cursor, i).len() ==> {
                let c = #[trigger] clusters_from(l, cursor, i)[k];
                &&& i <= c.start_col < c.end_col <= MAX_COLS
                &&& c.text =~= l.ascii.subrange(c.start_col, c.end_col)
                &&& c.text.len() == c.end_col - c.start_col
            },
        forall|k: int|
            0 <= k < clusters_from(l, cursor, i).len() - 1 ==> #[trigger] clusters_from(
                l,
                cursor,
                i,
            )[k].end_col == clusters_from(l, cursor, i)[k + 1].start_col,
    decreases MAX_COLS - i,
{
    if i < MAX_COLS {
        lemma_run_end_bounds(l, cursor, i);
        let e = run_end(l, cursor, i);
        let cs = clusters_from(l, cursor, i);
        let rest = clusters_from(l, cursor, e);
        lemma_partition_from(l, cursor, e);
        assert(cs == seq![mk_cluster(l, cursor, i, e)] + rest);
        assert forall|k: int| 0 <= k < cs.len() - 1 implies #[trigger] cs[k].end_col == cs[k
            + 1].start_col by {
            if k == 0 {
                if rest.len() > 0 {
                    assert(cs[1] == rest[0]);
                }
            } else {
                assert(cs[k] == rest[k - 1]);
                assert(cs[k + 1] == rest[k]);
            }
        }
    }
}

/// Every cluster presents, at each column it covers, exactly the style the
/// row presents there (the cell's own style, reverse-toggled at the cursor
/// column).
pub proof fn lemma_styles_from(l: LineView, cursor: Option<int>, i: int)
    requires
        l.wf(),
        0 <= i <= MAX_COLS,
    ensures
        forall|k: int, j: int|
            #![trigger clusters_from(l, cursor, i)[k], eff_style(l, cursor, j)]
            {
                let c = clusters_from(l, cursor, i)[k];
                (0 <= k < clusters_from(l, cursor, i).len() && c.start_col <= j < c.end_col)
                    ==> c.attributes == eff_style(l, cursor, j).attrs && c.color == eff_style(
                    l,
                    cursor,
                    j,
                ).color
            },
    decreases MAX_COLS - i,
{
    if i < MAX_COLS {
        lemma_run_end_bounds(l, cursor, i);
        lemma_run_uniform(l, cursor, i);
        let e = run_end(l, cursor, i);
        let cs = clusters_from(l, cursor, i);
        let rest = clusters_from(l, cursor, e);
        lemma_styles_from(l, cursor, e);
        assert(cs == seq![mk_cluster(l, cursor, i, e)] + rest);
        assert forall|k: int, j: int|
            #![trigger cs[k], eff_style(l, cursor, j)]
            {
                let c = cs[k];
                (0 <= k < cs.len() && c.start_col <= j < c.end_col)
            } implies {
            let c = cs[k];
            c.attributes == eff_style(l, cursor, j).attrs && c.color == eff_style(l, cursor, j).color
        } by {
            if k > 0 {
                assert(cs[k] == rest[k - 1]);
            }
        }
    }
}

/// Column `j` of the row is covered by some cluster of the decomposition
/// that starts at column `i`.
pub proof fn lemma_covering_at(l: LineView, cursor: Option<int>, i: int, j: int)
    requires
        l.wf(),
        0 <= i <= j < MAX_COLS,
    ensures
        exists|k: int|
            0 <= k < clusters_from(l, cursor, i).len() && (#[trigger] clusters_from(
                l,
                cursor,
                i,
            )[k]).start_col <= j < clusters_from(l, cursor, i)[k].end_col,
    decreases MAX_COLS - i,
{
    lemma_run_end_bounds(l, cursor, i);
    let e = run_end(l, cursor, i);
    let cs = clusters_from(l, cursor, i);
    let rest = clusters_from(l, cursor, e);
    assert(cs == seq![mk_cluster(l, cursor, i, e)] + rest);
    if j < e {
        assert(cs[0].start_col <= j < cs[0].end_col);
    } else {
        lemma_covering_at(l, cursor, e, j);
        let k0 = choose|k: int|
            0 <= k < rest.len() && (#[trigger] rest[k]).start_col <= j < rest[k].end_col;
        assert(cs[k0 + 1] == rest[k0]);
        assert(cs[k0 + 1].start_col <= j < cs[k0 + 1].end_col);
    }
}

/// Cursor splicing: in a row holding the cursor at column `c`, every
/// cluster covering `c` carries the underlying cell's attributes with the
/// reverse bit toggled, exactly one cluster covers `c`, and every other
/// column's cluster carries that column's own attributes and color,
/// untouched by the splice.
pub proof fn lemma_cursor_splice(l: LineView, c: int)
    requires
        l.wf(),
        0 <= c < MAX_COLS,
    ensures
        exists|k: int|
            0 <= k < clusters_of(l, Some(c)).len() && (#[trigger] clusters_of(l, Some(c))[k]).start_col
                <= c < clusters_of(l, Some(c))[k].end_col,
        forall|k: int|
            {
                let cl = #[trigger] clusters_of(l, Some(c))[k];
                (0 <= k < clusters_of(l, Some(c)).len() && cl.start_col <= c < cl.end_col)
                    ==> cl.attributes == l.attrs[c].spec_toggle_reverse() && cl.color == l.colors[c]
            },
        forall|k: int, j: int|
            #![trigger clusters_of(l, Some(c))[k], l.attrs[j]]
            {
                let cl = clusters_of(l, Some(c))[k];
                (0 <= k < clusters_of(l, Some(c)).len() && cl.start_col <= j < cl.end_col && j != c)
                    ==> cl.attributes == l.attrs[j] && cl.color == l.colors[j]
            },
{
    lemma_styles_from(l, Some(c), 0);
    lemma_covering_at(l, Some(c), 0, c);
    let cs = clusters_from(l, Some(c), 0);
    assert(clusters_of(l, Some(c)) == cs);
    let kw = choose|k: int|
        0 <= k < cs.len() && (#[trigger] cs[k]).start_col <= c < cs[k].end_col;
    assert(clusters_of(l, Some(c))[kw].start_col <= c < clusters_of(l, Some(c))[kw].end_col);
    assert forall|k: int|
        0 <= k < cs.len() && (#[trigger] cs[k]).start_col <= c < cs[k].end_col implies cs[k].attributes
        == l.attrs[c].spec_toggle_reverse() && cs[k].color == l.colors[c] by {
        assert(eff_style(l, Some(c), c) == Style {
            attrs: l.attrs[c].spec_toggle_reverse(),
            color: l.colors[c],
        });
    }
    assert forall|k: int, j: int|
        #![trigger cs[k], l.attrs[j]]
        0 <= k < cs.len() && cs[k].start_col <= j < cs[k].end_col && j != c implies cs[k].attributes
        == l.attrs[j] && cs[k].color == l.colors[j] by {
        assert(eff_style(l, Some(c), j) == Style { attrs: l.attrs[j], color: l.colors[j] });
    }
}

/// One cluster of a row: a maximal run of cells sharing one style, its
/// text, and the half-open column range it covers.
#[derive(Debug)]
pub struct Cluster {
    pub text: Vec<u8>,
    pub attributes: Attributes,
    pub color: u8,
    pub start_col: usize,
    pub end_col: usize,
}

impl View for Cluster {
    type V = ClusterV;

    open spec fn view(&self) -> ClusterV {
        ClusterV {
            text: self.text@,
            attributes: self.attributes,
            color: self.color,
            start_col: self.start_col as int,
            end_col: self.end_col as int,
        }
    }
}

/// The views of a sequence of clusters.
pub open spec fn views_of(cs: Seq<Cluster>) -> Seq<ClusterV> {
    Seq::new(cs.len(), |k: int| cs[k]@)
}

impl Line {
    /// The style column `i` presents, with the cursor splice applied when
    /// `cursor_x` names that column.
    fn eff_style_at(&self, cursor_x: Option<u8>, i: usize) -> (s: Style)
        requires
            self@.wf(),
            i < MAX_COLS,
        ensures
            s == eff_style(self@, cursor_col(cursor_x), i as int),
    {
        let raw = Style { attrs: self.attributes[i], color: self.colors[i] };
        match cursor_x {
            Some(c) => {
                if c as usize == i {
                    Style { attrs: raw.attrs.toggle_reverse(), color: raw.color }
                } else {
                    raw
                }
            },
            None => raw,
        }
    }

    /// Whether a cluster boundary sits before column `i`.
    fn is_break_at(&self, cursor_x: Option<u8>, i: usize) -> (r: bool)
        requires
            self@.wf(),
            1 <= i < MAX_COLS,
        ensures
            r == is_break(self@, cursor_col(cursor_x), i as int),
    {
        let a = self.eff_style_at(cursor_x, i);
        let b = self.eff_style_at(cursor_x, i - 1);
        let at_cursor = match cursor_x {
            Some(c) => c as usize == i,
            None => false,
        };
        a != b || at_cursor
    }

    /// Computes the full cluster decomposition of the row, splicing the
    /// cursor in at `cursor_x` if one is given: exactly the clusters of
    /// `clusters_of`, in column order.
    pub fn clusters(&self, cursor_x: Option<u8>) -> (cs: Vec<Cluster>)
        requires
            self@.wf(),
        ensures
            views_of(cs@) == clusters_of(self@, cursor_col(cursor_x)),
    {
        let ghost v = self@;
        let ghost cv = cursor_col(cursor_x);
        let ghost co = clusters_of(v, cv);
        let mut cs: Vec<Cluster> = Vec::new();
        let mut i: usize = 0;
        while i < MAX_COLS
            invariant
                self@ == v,
                v.wf(),
                i <= MAX_COLS,
                cv == cursor_col(cursor_x),
                co == clusters_of(v, cv),
                co =~= views_of(cs@) + clusters_from(v, cv, i as int),
            decreases MAX_COLS - i,
        {
            proof {
                lemma_run_end_bounds(v, cv, i as int);
            }
            // Scan to the end of the run that starts at column i.
            let mut j: usize = i;
            while j + 1 < MAX_COLS && !self.is_break_at(cursor_x, j + 1)
                invariant
                    self@ == v,
                    v.wf(),
                    cv == cursor_col(cursor_x),
                    i <= j < MAX_COLS,
                    run_end(v, cv, i as int) == run_end(v, cv, j as int),
                decreases MAX_COLS - j,
            {
                j = j + 1;
            }
            let e: usize = if j + 1 >= MAX_COLS {
                MAX_COLS
            } else {
                j + 1
            };
            assert(e == run_end(v, cv, i as int));

            // Collect the run's text.
            let mut text: Vec<u8> = Vec::new();
            let mut t: usize = i;
            while t < e
                invariant
                    self@ == v,
                    v.wf(),
                    i <= t <= e <= MAX_COLS,
                    text@.len() == t - i,
                    forall|k: int| 0 <= k < text@.len() ==> text@[k] == v.ascii[i + k],
                decreases e - t,
            {
                text.push(self.ascii[t]);
                t = t + 1;
            }
            assert(text@ =~= v.ascii.subrange(i as int, e as int));

            let st = self.eff_style_at(cursor_x, i);
            let ghost cs_before = cs@;
            cs.push(Cluster { text, attributes: st.attrs, color: st.color, start_col: i, end_col: e });
            proof {
                assert(cs@[cs_before.len() as int]@ == mk_cluster(v, cv, i as int, e as int));
                assert(views_of(cs@) =~= views_of(cs_before).push(
                    mk_cluster(v, cv, i as int, e as int),
                ));
                assert(clusters_from(v, cv, i as int) == seq![
                    mk_cluster(v, cv, i as int, e as int),
                ] + clusters_from(v, cv, e as int));
                assert(co =~= views_of(cs@) + clusters_from(v, cv, e as int));
            }
            i = e;
        }
        proof {
            assert(clusters_from(v, cv, MAX_COLS as int) =~= Seq::<ClusterV>::empty());
            assert(views_of(cs@) =~= co);
        }
        cs
    }

    /// Starts a restartable walk over the row's clusters, splicing the
    /// cursor in at `cursor_x` if one is given.
    pub fn cluster(&self, cursor_x: Option<u8>) -> (it: ClusterIter)
        requires
            self@.wf(),
        ensures
            it@ == clusters_of(self@, cursor_col(cursor_x)),
    {
        let mut src = self.clusters(cursor_x);
        let ghost forward = src@;
        let mut rest: Vec<Cluster> = Vec::new();
        while src.len() > 0
            invariant
                src@.len() + rest@.len() == forward.len(),
                forall|k: int| 0 <= k < src@.len() ==> src@[k] == forward[k],
                forall|k: int|
                    0 <= k < rest@.len() ==> rest@[k] == forward[forward.len() - 1 - k],
            decreases src.len(),
        {
            let c = src.pop().unwrap();
            rest.push(c);
        }
        let it = ClusterIter { rest };
        proof {
            assert(it@ =~= views_of(forward));
        }
        it
    }
}

/// A lazy, restartable walk over the clusters of one row, produced by
/// `Line::cluster`. Its view is the sequence of clusters still to come.
pub struct ClusterIter {
    rest: Vec<Cluster>,
}

impl View for ClusterIter {
    type V = Seq<ClusterV>;

    closed spec fn view(&self) -> Seq<ClusterV> {
        Seq::new(self.rest@.len(), |k: int| self.rest@[self.rest@.len() - 1 - k]@)
    }
}

impl ClusterIter {
    /// Yields the next cluster, left to right, or nothing when the row is
    /// exhausted.
    pub fn next(&mut self) -> (r: Option<Cluster>)
        ensures
            match r {
                Some(c) => old(self)@.len() > 0 && c@ == old(self)@[0] && final(self)@
                    == old(self)@.subrange(1, old(self)@.len() as int),
                None => old(self)@.len() == 0 && final(self)@ == old(self)@,
            },
    {
        let r = self.rest.pop();
        proof {
            if old(self)@.len() > 0 {
                assert(final(self)@ =~= old(self)@.subrange(1, old(self)@.len() as int));
            } else {
                assert(final(self)@ =~= old(self)@);
            }
        }
        r
    }
}

} // verus!
