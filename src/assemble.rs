use vstd::prelude::*;
use crate::shaping::{advance_sum, in_i64, ShapedGlyph, ShapedRun, ShapedRunView};

verus! {

/// A glyph placed in the layout, coordinates in 26.6 fixed point.
#[derive(Clone, Copy, Debug, PartialEq, Eq, Structural)]
pub struct PlacedGlyph {
    pub glyph_id: u32,
    /// The candidate font the glyph was shaped with.
    pub font: usize,
    /// The pen position before the glyph, on the horizontal axis.
    pub pen_x: i64,
    /// Where the glyph is drawn: the pen plus the glyph's offsets.
    pub x: i64,
    pub y: i64,
    pub x_advance: i64,
}

/// Glyphs placed in visual order, and the total width they advance.
pub struct Layout {
    pub glyphs: Vec<PlacedGlyph>,
    pub width: i64,
}

pub open spec fn run_glyphs(run: ShapedRunView) -> Seq<(usize, ShapedGlyph)> {
    run.2.map_values(|g: ShapedGlyph| (run.1, g))
}

/// The glyphs of all runs, in run order and then in shaping order, each with
/// its run's font.
pub open spec fn flat_glyphs(runs: Seq<ShapedRunView>) -> Seq<(usize, ShapedGlyph)>
    decreases runs.len(),
{
    if runs.len() == 0 {
        Seq::empty()
    } else {
        flat_glyphs(runs.drop_last()) + run_glyphs(runs.last())
    }
}

pub open spec fn shaped_runs_view(runs: Seq<ShapedRun>) -> Seq<ShapedRunView> {
    runs.map_values(|r: ShapedRun| r@)
}

pub open spec fn glyphs_only(flat: Seq<(usize, ShapedGlyph)>) -> Seq<ShapedGlyph> {
    flat.map_values(|p: (usize, ShapedGlyph)| p.1)
}

/// The advance accumulated by the first `k` glyphs.
pub open spec fn advance_before(flat: Seq<(usize, ShapedGlyph)>, k: int) -> int {
    advance_sum(glyphs_only(flat).take(k))
}

/// Glyph `k` placed with the pen started at `(origin_x, origin_y)`.
pub open spec fn placed_spec(origin_x: int, origin_y: int, flat: Seq<(usize, ShapedGlyph)>, k: int) -> PlacedGlyph {
    let pen = origin_x + advance_before(flat, k);
    PlacedGlyph {
        glyph_id: flat[k].1.glyph_id,
        font: flat[k].0,
        pen_x: pen as i64,
        x: (pen + flat[k].1.x_offset) as i64,
        y: (origin_y + flat[k].1.y_offset) as i64,
        x_advance: flat[k].1.x_advance,
    }
}

/// Every pen position, glyph position and running width fits in 64 bits.
pub open spec fn layout_fits(origin_x: int, origin_y: int, flat: Seq<(usize, ShapedGlyph)>) -> bool {
    &&& forall|k: int| 0 <= k <= flat.len() ==> #[trigger] in_i64(advance_before(flat, k))
    &&& forall|k: int| 0 <= k <= flat.len() ==> in_i64(origin_x + #[trigger] advance_before(flat, k))
    &&& forall|k: int| 0 <= k < flat.len() ==> in_i64(origin_x + advance_before(flat, k) + (#[trigger] flat[k]).1.x_offset)
    &&& forall|k: int| 0 <= k < flat.len() ==> in_i64(origin_y + (#[trigger] flat[k]).1.y_offset)
}

proof fn lemma_flat_glyphs_push(runs: Seq<ShapedRunView>, r: ShapedRunView)
    ensures
        flat_glyphs(runs.push(r)) == flat_glyphs(runs) + run_glyphs(r),
{
    assert(runs.push(r).drop_last() =~= runs);
}

/// Lists the glyphs of the runs in order, each with its run's font.
pub fn flatten_runs(runs: &Vec<ShapedRun>) -> (r: Vec<(usize, ShapedGlyph)>)
    ensures
        r@ == flat_glyphs(shaped_runs_view(runs@)),
{
    let mut out: Vec<(usize, ShapedGlyph)> = Vec::new();
    let mut i: usize = 0;
    while i < runs.len()
        invariant
            i <= runs@.len(),
            out@ == flat_glyphs(shaped_runs_view(runs@.take(i as int))),
        decreases runs@.len() - i,
    {
        let run = &runs[i];
        let ghost before = out@;
        let mut j: usize = 0;
        while j < run.glyphs.len()
            invariant
                j <= run.glyphs@.len(),
                out@ == before + run_glyphs(run@).take(j as int),
            decreases run.glyphs@.len() - j,
        {
            out.push((run.font, run.glyphs[j]));
            assert(out@ =~= before + run_glyphs(run@).take(j + 1));
            j = j + 1;
        }
        proof {
            assert(run_glyphs(run@).take(j as int) =~= run_glyphs(run@));
            assert(shaped_runs_view(runs@.take(i + 1)) =~= shaped_runs_view(runs@.take(i as int)).push(run@));
            lemma_flat_glyphs_push(shaped_runs_view(runs@.take(i as int)), run@);
        }
        i = i + 1;
    }
    assert(runs@.take(i as int) =~= runs@);
    out
}

proof fn lemma_advance_before_step(flat: Seq<(usize, ShapedGlyph)>, k: int)
    requires
        0 <= k < flat.len(),
    ensures
        advance_before(flat, k + 1) == advance_before(flat, k) + flat[k].1.x_advance,
{
    let g = glyphs_only(flat);
    assert(g.take(k + 1).drop_last() =~= g.take(k));
}

/// Places glyphs left to right from `(origin_x, origin_y)`: glyph `k` stands
/// at the pen plus its offsets, and the pen then moves by its advance. Gives
/// nothing exactly when a coordinate does not fit in 64 bits.
#[verifier::rlimit(60)]
pub fn place_glyphs(flat: &Vec<(usize, ShapedGlyph)>, origin_x: i64, origin_y: i64) -> (r: Option<Layout>)
    ensures
        r is Some <==> layout_fits(origin_x as int, origin_y as int, flat@),
        r matches Some(l) ==> {
            &&& l.glyphs@.len() == flat@.len()
            &&& forall|k: int| 0 <= k < flat@.len() ==> l.glyphs@[k] == placed_spec(origin_x as int, origin_y as int, flat@, k)
            &&& l.width == advance_before(flat@, flat@.len() as int)
        },
{
    let ghost ox = origin_x as int;
    let ghost oy = origin_y as int;
    let mut placed: Vec<PlacedGlyph> = Vec::new();
    let mut width: i64 = 0;
    let mut pen: i64 = origin_x;
    let mut i: usize = 0;
    assert(glyphs_only(flat@).take(0) =~= Seq::<ShapedGlyph>::empty());
    while i < flat.len()
        invariant
            i <= flat@.len(),
            ox == origin_x as int,
            oy == origin_y as int,
            placed@.len() == i,
            forall|k: int| 0 <= k < i ==> placed@[k] == placed_spec(ox, oy, flat@, k),
            width == advance_before(flat@, i as int),
            pen == ox + advance_before(flat@, i as int),
            forall|k: int| 0 <= k <= i ==> #[trigger] in_i64(advance_before(flat@, k)),
            forall|k: int| 0 <= k <= i ==> in_i64(ox + #[trigger] advance_before(flat@, k)),
            forall|k: int| 0 <= k < i ==> in_i64(ox + advance_before(flat@, k) + (#[trigger] flat@[k]).1.x_offset),
            forall|k: int| 0 <= k < i ==> in_i64(oy + (#[trigger] flat@[k]).1.y_offset),
        decreases flat@.len() - i,
    {
        let font = flat[i].0;
        let g = flat[i].1;
        proof {
            lemma_advance_before_step(flat@, i as int);
        }
        let x = match pen.checked_add(g.x_offset) {
            Some(v) => v,
            None => {
                assert(!in_i64(ox + advance_before(flat@, i as int) + flat@[i as int].1.x_offset));
                assert(!layout_fits(ox, oy, flat@));
                return None;
            },
        };
        let y = match origin_y.checked_add(g.y_offset) {
            Some(v) => v,
            None => {
                assert(!in_i64(oy + flat@[i as int].1.y_offset));
                assert(!layout_fits(ox, oy, flat@));
                return None;
            },
        };
        let next_width = match width.checked_add(g.x_advance) {
            Some(v) => v,
            None => {
                assert(!in_i64(advance_before(flat@, i + 1)));
                assert(!layout_fits(ox, oy, flat@));
                return None;
            },
        };
        let next_pen = match pen.checked_add(g.x_advance) {
            Some(v) => v,
            None => {
                assert(!in_i64(ox + advance_before(flat@, i + 1)));
                assert(!layout_fits(ox, oy, flat@));
                return None;
            },
        };
        let p = PlacedGlyph { glyph_id: g.glyph_id, font, pen_x: pen, x, y, x_advance: g.x_advance };
        assert(p == placed_spec(ox, oy, flat@, i as int));
        placed.push(p);
        width = next_width;
        pen = next_pen;
        i = i + 1;
    }
    Some(Layout { glyphs: placed, width })
}

/// Lays out shaped runs, taken in the order given, from `(origin_x, origin_y)`.
pub fn assemble(runs: &Vec<ShapedRun>, origin_x: i64, origin_y: i64) -> (r: Option<Layout>)
    ensures
        r is Some <==> layout_fits(origin_x as int, origin_y as int, flat_glyphs(shaped_runs_view(runs@))),
        r matches Some(l) ==> {
            let flat = flat_glyphs(shaped_runs_view(runs@));
            &&& l.glyphs@.len() == flat.len()
            &&& forall|k: int| 0 <= k < flat.len() ==> l.glyphs@[k] == placed_spec(origin_x as int, origin_y as int, flat, k)
            &&& l.width == advance_before(flat, flat.len() as int)
        },
{
    let flat = flatten_runs(runs);
    place_glyphs(&flat, origin_x, origin_y)
}

/// The sum of the runs' reported advances.
pub open spec fn runs_advance(runs: Seq<ShapedRunView>) -> int
    decreases runs.len(),
{
    if runs.len() == 0 {
        0
    } else {
        runs_advance(runs.drop_last()) + runs.last().3
    }
}

proof fn lemma_advance_sum_append(a: Seq<ShapedGlyph>, b: Seq<ShapedGlyph>)
    ensures
        advance_sum(a + b) == advance_sum(a) + advance_sum(b),
    decreases b.len(),
{
    if b.len() == 0 {
        assert(a + b =~= a);
    } else {
        lemma_advance_sum_append(a, b.drop_last());
        assert((a + b).drop_last() =~= a + b.drop_last());
    }
}

/// The width a layout advances is the sum of its runs' total advances, for
/// runs whose advance is the sum of their glyphs' advances (as shaping makes
/// them).
pub proof fn lemma_width_is_sum_of_run_advances(runs: Seq<ShapedRunView>)
    requires
        forall|k: int| 0 <= k < runs.len() ==> (#[trigger] runs[k]).3 == advance_sum(runs[k].2),
    ensures
        advance_before(flat_glyphs(runs), flat_glyphs(runs).len() as int) == runs_advance(runs),
    decreases runs.len(),
{
    let flat = flat_glyphs(runs);
    assert(glyphs_only(flat).take(flat.len() as int) =~= glyphs_only(flat));
    if runs.len() > 0 {
        let init = runs.drop_last();
        let r = runs.last();
        assert(runs[runs.len() - 1] == r);
        lemma_width_is_sum_of_run_advances(init);
        let fi = flat_glyphs(init);
        assert(glyphs_only(fi).take(fi.len() as int) =~= glyphs_only(fi));
        assert(glyphs_only(flat) =~= glyphs_only(fi) + r.2);
        lemma_advance_sum_append(glyphs_only(fi), r.2);
    }
}

/// A horizontal mirror: a point `(x, y)` is drawn at
/// `(translate_x - x, translate_y + y)`.
#[derive(Clone, Copy, Debug, PartialEq, Eq, Structural)]
pub struct MirrorTransform {
    pub translate_x: i64,
    pub translate_y: i64,
}

pub open spec fn mirror_x(t: MirrorTransform, x: int) -> int {
    t.translate_x - x
}

/// The transform that draws a block laid out left to right from 0 so that it
/// ends at `anchor_x`: translate by `anchor_x + width`, then mirror.
/// Gives nothing when `anchor_x + width` does not fit in 64 bits.
pub fn right_aligned_mirror(anchor_x: i64, anchor_y: i64, width: i64) -> (r: Option<MirrorTransform>)
    ensures
        r is Some <==> in_i64(anchor_x + width),
        r matches Some(t) ==> t.translate_x == anchor_x + width && t.translate_y == anchor_y,
{
    match anchor_x.checked_add(width) {
        Some(tx) => Some(MirrorTransform { translate_x: tx, translate_y: anchor_y }),
        None => None,
    }
}

/// Under the right-aligned mirror of a layout placed from 0, the pen end of
/// the glyph placed last (its pen plus its advance) lands on the anchor, and
/// the layout's start lands at `anchor_x + width`.
pub proof fn lemma_mirror_aligns_last_glyph(flat: Seq<(usize, ShapedGlyph)>, anchor_x: int, t: MirrorTransform)
    requires
        flat.len() > 0,
        t.translate_x == anchor_x + advance_before(flat, flat.len() as int),
    ensures
        mirror_x(t, advance_before(flat, flat.len() - 1) + flat.last().1.x_advance) == anchor_x,
        mirror_x(t, 0) == anchor_x + advance_before(flat, flat.len() as int),
{
    lemma_advance_before_step(flat, flat.len() - 1);
}

} // verus!
