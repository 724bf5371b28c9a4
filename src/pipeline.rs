use vstd::prelude::*;
use crate::assemble::shaped_runs_view;
use crate::segment::{
    chosen_font, choose_font, flatten, lemma_all_primary_single_run, lemma_run_fonts_bounded,
    lemma_runs_reconstruct_clusters, lemma_runs_well_formed, run_texts, runs_view, segment_runs,
    segment_spec, strings_view, Run,
};
use crate::shaping::{
    advance_sum, can_render, font_metrics, in_i64, metrics_ok, props_with_direction, render_ok,
    shape_ok, shape_run, shaped_result_view, FontSource, ShapeError, ShapedRun, ShapedRunView,
    ShapingEngine, ShapingProps, VerticalMetrics,
};
use crate::text::{clusters_of, graphemes_of, prepare_text, prepared_spec, shapes_rtl, BidiStrategy};

verus! {

/// A font candidate as values: data, face index, size and engine.
pub type FontView = (Seq<u8>, u32, u16, ShapingEngine);

/// Segment properties as values: direction, script and language.
pub type PropsView = (bool, Seq<char>, Seq<char>);

pub open spec fn fonts_view(fonts: Seq<FontSource>) -> Seq<FontView> {
    fonts.map_values(|f: FontSource| f@)
}

/// `s` holds an answer of the capability oracle for each candidate, in
/// priority order.
pub open spec fn support_ok(fonts: Seq<FontView>, cluster: Seq<char>, props: PropsView, s: Seq<bool>) -> bool {
    &&& s.len() == fonts.len()
    &&& forall|j: int| 0 <= j < fonts.len() ==> render_ok(fonts[j], cluster, props, #[trigger] s[j])
}

/// The font chosen for each cluster from its capability answers.
pub open spec fn choices_of(support: Seq<Seq<bool>>) -> Seq<usize> {
    support.map_values(|s: Seq<bool>| chosen_font(s) as usize)
}

/// `runs` segments `text` when the oracle answers `support` for its
/// grapheme clusters.
pub open spec fn segmentation_with(fonts: Seq<FontView>, text: Seq<char>, props: PropsView, runs: Seq<(Seq<char>, usize)>, support: Seq<Seq<bool>>) -> bool {
    &&& support.len() == graphemes_of(text).len()
    &&& forall|i: int| 0 <= i < support.len() ==> support_ok(fonts, graphemes_of(text)[i], props, #[trigger] support[i])
    &&& runs == segment_spec(graphemes_of(text), choices_of(support))
}

/// The oracle found the primary font able to render every cluster.
pub open spec fn all_primary(support: Seq<Seq<bool>>) -> bool {
    forall|i: int| 0 <= i < support.len() ==> (#[trigger] support[i])[0]
}

/// Splits a text into runs over an ordered list of candidate fonts (the
/// first is the primary): each grapheme cluster takes the first candidate
/// that can render it under `props`, else the last, and consecutive clusters
/// with the same font share a run. The run texts are non-empty, joined in
/// order they give back the text, and neighbouring runs differ in font. When
/// the primary renders every cluster there is one run, tagged primary.
pub fn segment_text(text: &str, fonts: &Vec<FontSource>, props: &ShapingProps) -> (runs: Vec<Run>)
    requires
        fonts@.len() > 0,
    ensures
        exists|support: Seq<Seq<bool>>| #[trigger] segmentation_with(fonts_view(fonts@), text@, props@, runs_view(runs@), support)
            && (text@.len() > 0 && all_primary(support) ==> runs@.len() == 1 && runs@[0].font == 0),
        flatten(run_texts(runs_view(runs@))) == text@,
        runs@.len() == 0 <==> text@.len() == 0,
        forall|r: int| 0 <= r < runs@.len() ==> (#[trigger] runs@[r]).text@.len() > 0,
        forall|r: int| 0 < r < runs@.len() ==> runs@[r - 1].font != (#[trigger] runs@[r]).font,
        forall|r: int| 0 <= r < runs@.len() ==> #[trigger] runs@[r].font < fonts@.len(),
{
    let clusters = clusters_of(text);
    let ghost fv = fonts_view(fonts@);
    let ghost cl = strings_view(clusters@);
    let ghost sup: Seq<Seq<bool>> = Seq::empty();
    let mut choices: Vec<usize> = Vec::new();
    let mut i: usize = 0;
    while i < clusters.len()
        invariant
            i <= clusters@.len(),
            fonts@.len() > 0,
            fv == fonts_view(fonts@),
            cl == strings_view(clusters@),
            sup.len() == i,
            forall|k: int| 0 <= k < i ==> support_ok(fv, cl[k], props@, #[trigger] sup[k]),
            choices@ == choices_of(sup),
            forall|k: int| 0 <= k < i ==> #[trigger] choices@[k] < fonts@.len(),
        decreases clusters@.len() - i,
    {
        let cluster = clusters[i].as_str();
        let mut support: Vec<bool> = Vec::new();
        let mut j: usize = 0;
        while j < fonts.len()
            invariant
                j <= fonts@.len(),
                fv == fonts_view(fonts@),
                support@.len() == j,
                forall|jj: int| 0 <= jj < j ==> render_ok(fv[jj], cluster@, props@, #[trigger] support@[jj]),
            decreases fonts@.len() - j,
        {
            let b = can_render(&fonts[j], cluster, props);
            assert(fv[j as int] == fonts@[j as int]@);
            support.push(b);
            j = j + 1;
        }
        assert(cl[i as int] == cluster@);
        let f = choose_font(&support);
        choices.push(f);
        proof {
            sup = sup.push(support@);
            assert(choices@ =~= choices_of(sup));
        }
        i = i + 1;
    }
    let ghost all = choices_of(sup);
    let runs = segment_runs(&clusters, &choices);
    let n_fonts = fonts.len();
    proof {
        let rv = runs_view(runs@);
        assert forall|k: int| 0 <= k < all.len() implies all[k] < fonts@.len() by {
            assert(choices@[k] < fonts@.len());
        }
        lemma_runs_reconstruct_clusters(cl, all);
        lemma_run_fonts_bounded(cl, all, n_fonts);
        assert forall|k: int| 0 <= k < cl.len() implies (#[trigger] cl[k]).len() > 0 by {
            assert(cl[k] == clusters@[k]@);
        }
        lemma_runs_well_formed(cl, all);
        assert forall|r: int| 0 <= r < runs@.len() implies #[trigger] runs@[r].font < fonts@.len() by {
            assert(rv[r].1 == runs@[r].font);
        }
        assert forall|r: int| 0 <= r < runs@.len() implies (#[trigger] runs@[r]).text@.len() > 0 by {
            assert(rv[r].0 == runs@[r].text@);
        }
        assert forall|r: int| 0 < r < runs@.len() implies runs@[r - 1].font != (#[trigger] runs@[r]).font by {
            assert(rv[r].1 == runs@[r].font);
            assert(rv[r - 1].1 == runs@[r - 1].font);
        }
        if text@.len() > 0 && all_primary(sup) {
            assert forall|k: int| 0 <= k < all.len() implies all[k] == 0 by {
                assert(sup[k][0]);
            }
            lemma_all_primary_single_run(cl, all);
            assert(rv.len() == 1);
            assert(rv[0].1 == runs@[0].font);
        }
        assert(segmentation_with(fv, text@, props@, rv, sup));
    }
    runs
}

/// `attempts` are the results of shaping a run with candidate `font` and the
/// ones after it, in order: every attempt but the last gave no glyph, and a
/// last attempt without glyph was made with the last candidate.
pub open spec fn fallback_with(fonts: Seq<FontView>, font: int, text: Seq<char>, props: PropsView, attempts: Seq<Result<ShapedRunView, ShapeError>>) -> bool {
    &&& attempts.len() > 0
    &&& 0 <= font && font + attempts.len() <= fonts.len()
    &&& forall|j: int| 0 <= j < attempts.len() ==> shape_ok(fonts[font + j], (font + j) as usize, text, props, #[trigger] attempts[j])
    &&& forall|j: int| 0 <= j < attempts.len() - 1 ==> #[trigger] attempts[j] == Err::<ShapedRunView, ShapeError>(ShapeError::NoGlyphOutput)
    &&& attempts.last() == Err::<ShapedRunView, ShapeError>(ShapeError::NoGlyphOutput) ==> font + attempts.len() == fonts.len()
}

/// `r` is what shaping a run with candidate `font` gives, moving on to the
/// following candidates while the engine gives no glyph.
pub open spec fn shaped_by_fallback(fonts: Seq<FontView>, font: int, text: Seq<char>, props: PropsView, r: Result<ShapedRunView, ShapeError>) -> bool {
    exists|attempts: Seq<Result<ShapedRunView, ShapeError>>| #[trigger] fallback_with(fonts, font, text, props, attempts) && attempts.last() == r
}

/// Shapes a run with its candidate, retrying with the following candidates
/// when the engine gives no glyph output.
pub fn shape_with_fallback(fonts: &Vec<FontSource>, font: usize, text: &str, props: &ShapingProps) -> (r: Result<ShapedRun, ShapeError>)
    requires
        font < fonts@.len(),
    ensures
        shaped_by_fallback(fonts_view(fonts@), font as int, text@, props@, shaped_result_view(r)),
        r matches Ok(run) ==> run.advance == advance_sum(run.glyphs@),
{
    let ghost fv = fonts_view(fonts@);
    let ghost attempts: Seq<Result<ShapedRunView, ShapeError>> = Seq::empty();
    let mut k: usize = font;
    loop
        invariant
            font <= k < fonts@.len(),
            fv == fonts_view(fonts@),
            attempts.len() == k - font,
            forall|j: int| 0 <= j < attempts.len() ==> shape_ok(fv[font + j], (font + j) as usize, text@, props@, #[trigger] attempts[j]),
            forall|j: int| 0 <= j < attempts.len() ==> #[trigger] attempts[j] == Err::<ShapedRunView, ShapeError>(ShapeError::NoGlyphOutput),
        decreases fonts@.len() - k,
    {
        assert(fv[k as int] == fonts@[k as int]@);
        let r = shape_run(&fonts[k], k, text, props);
        let no_glyph = match &r {
            Err(ShapeError::NoGlyphOutput) => true,
            _ => false,
        };
        proof {
            attempts = attempts.push(shaped_result_view(r));
        }
        if no_glyph && k < fonts.len() - 1 {
            k = k + 1;
        } else {
            assert(fallback_with(fv, font as int, text@, props@, attempts));
            return r;
        }
    }
}

/// A run that could not be shaped: its position in the shaped order, and why.
#[derive(Clone, Copy, Debug, PartialEq, Eq, Structural)]
pub struct RunFailure {
    pub run: usize,
    pub error: ShapeError,
}

/// The runs shaped in order up to the first failure, that failure, and the
/// bidirectional strategy the text was handed to the engine with.
pub struct ShapeOutcome {
    pub runs: Vec<ShapedRun>,
    pub failure: Option<RunFailure>,
    pub strategy: BidiStrategy,
}

/// The shaped runs are the results for a prefix of the runs; a failure names
/// the first run that could not be shaped by its candidate or any following
/// one, and there is none only when every run was shaped.
pub open spec fn outcome_matches(
    shaped: Seq<ShapedRunView>,
    failure: Option<RunFailure>,
    runs: Seq<(Seq<char>, usize)>,
    fonts: Seq<FontView>,
    props: PropsView,
) -> bool {
    &&& shaped.len() <= runs.len()
    &&& forall|k: int| 0 <= k < shaped.len()
        ==> shaped_by_fallback(fonts, runs[k].1 as int, runs[k].0, props, Ok::<_, ShapeError>(#[trigger] shaped[k]))
    &&& match failure {
        None => shaped.len() == runs.len(),
        Some(f) => f.run == shaped.len() && f.run < runs.len()
            && shaped_by_fallback(fonts, runs[f.run as int].1 as int, runs[f.run as int].0, props, Err::<ShapedRunView, ShapeError>(f.error)),
    }
}

/// Shapes runs in the order given, each with its own candidate (or the
/// following ones when it gives no glyph), stopping at the first run that
/// fails; the runs before it stay valid. The outcome reports pass-through,
/// since nothing is reordered here.
pub fn shape_runs(runs: &Vec<Run>, fonts: &Vec<FontSource>, props: &ShapingProps) -> (out: ShapeOutcome)
    requires
        forall|r: int| 0 <= r < runs@.len() ==> #[trigger] runs@[r].font < fonts@.len(),
    ensures
        outcome_matches(shaped_runs_view(out.runs@), out.failure, runs_view(runs@), fonts_view(fonts@), props@),
        forall|k: int| 0 <= k < out.runs@.len() ==> (#[trigger] out.runs@[k]).advance == advance_sum(out.runs@[k].glyphs@),
        out.strategy == BidiStrategy::PassThrough,
{
    let ghost rv = runs_view(runs@);
    let ghost fv = fonts_view(fonts@);
    let mut shaped: Vec<ShapedRun> = Vec::new();
    let mut i: usize = 0;
    while i < runs.len()
        invariant
            i <= runs@.len(),
            rv == runs_view(runs@),
            fv == fonts_view(fonts@),
            forall|r: int| 0 <= r < runs@.len() ==> #[trigger] runs@[r].font < fonts@.len(),
            shaped@.len() == i,
            forall|k: int| 0 <= k < i
                ==> shaped_by_fallback(fv, rv[k].1 as int, rv[k].0, props@, Ok::<_, ShapeError>(#[trigger] shaped_runs_view(shaped@)[k])),
            forall|k: int| 0 <= k < i ==> (#[trigger] shaped@[k]).advance == advance_sum(shaped@[k].glyphs@),
        decreases runs@.len() - i,
    {
        let run = &runs[i];
        let f = run.font;
        assert(rv[i as int] == (run.text@, f));
        let ghost before = shaped@;
        match shape_with_fallback(fonts, f, run.text.as_str(), props) {
            Ok(s) => {
                shaped.push(s);
                proof {
                    assert(shaped@ == before.push(s));
                    assert forall|k: int| 0 <= k < i + 1 implies shaped_by_fallback(fv, rv[k].1 as int, rv[k].0, props@,
                        Ok::<_, ShapeError>(#[trigger] shaped_runs_view(shaped@)[k])) by {
                        assert(shaped_runs_view(shaped@)[k] == shaped@[k]@);
                        if k < i {
                            assert(shaped_runs_view(before)[k] == before[k]@);
                        }
                    }
                }
            },
            Err(e) => {
                let out = ShapeOutcome { runs: shaped, failure: Some(RunFailure { run: i, error: e }), strategy: BidiStrategy::PassThrough };
                proof {
                    assert forall|k: int| 0 <= k < i implies shaped_by_fallback(fv, rv[k].1 as int, rv[k].0, props@,
                        Ok::<_, ShapeError>(#[trigger] shaped_runs_view(out.runs@)[k])) by {
                        assert(shaped_runs_view(out.runs@)[k] == shaped_runs_view(shaped@)[k]);
                    }
                }
                return out;
            },
        }
        i = i + 1;
    }
    ShapeOutcome { runs: shaped, failure: None, strategy: BidiStrategy::PassThrough }
}

/// Reverses the order of runs.
fn reverse_runs(runs: Vec<Run>) -> (r: Vec<Run>)
    ensures
        r@ == runs@.reverse(),
{
    let ghost orig = runs@;
    let mut rest = runs;
    let mut out: Vec<Run> = Vec::new();
    while rest.len() > 0
        invariant
            rest@ == orig.take(rest@.len() as int),
            out@ == orig.reverse().take(orig.len() - rest@.len()),
            rest@.len() <= orig.len(),
        decreases rest@.len(),
    {
        let r = rest.pop().unwrap();
        out.push(r);
        assert(rest@ =~= orig.take(rest@.len() as int));
        assert(out@ =~= orig.reverse().take(orig.len() - rest@.len()));
    }
    assert(out@ =~= orig.reverse());
    out
}

/// The properties the engine shapes with: those of the paragraph, right to
/// left only for a pass-through layout of a right-to-left paragraph.
pub open spec fn engine_props(strategy: BidiStrategy, props: PropsView) -> PropsView {
    (shapes_rtl(strategy, props.0), props.1, props.2)
}

/// The runs of a layout in the order they are shaped and drawn: after a
/// pre-reorder they already are in display order; a pass-through layout of a
/// right-to-left paragraph draws its runs last to first.
pub open spec fn in_draw_order(runs: Seq<(Seq<char>, usize)>, strategy: BidiStrategy, rtl: bool) -> Seq<(Seq<char>, usize)> {
    if shapes_rtl(strategy, rtl) {
        runs.reverse()
    } else {
        runs
    }
}

/// Lays out a text over candidate fonts, in a paragraph whose direction,
/// script and language are `props`: prepares it under the strategy (with the
/// paragraph's direction as base), splits it into runs, puts the runs in
/// display order and shapes each, stopping at the first run that no
/// candidate can shape.
pub fn layout_text(text: &str, fonts: &Vec<FontSource>, strategy: BidiStrategy, props: &ShapingProps) -> (out: ShapeOutcome)
    requires
        fonts@.len() > 0,
    ensures
        exists|runs: Seq<(Seq<char>, usize)>, support: Seq<Seq<bool>>|
            #[trigger] segmentation_with(fonts_view(fonts@), prepared_spec(text@, strategy, Some(props@.0)), engine_props(strategy, props@), runs, support)
            && outcome_matches(
                shaped_runs_view(out.runs@),
                out.failure,
                in_draw_order(runs, strategy, props@.0),
                fonts_view(fonts@),
                engine_props(strategy, props@),
            ),
        forall|k: int| 0 <= k < out.runs@.len() ==> (#[trigger] out.runs@[k]).advance == advance_sum(out.runs@[k].glyphs@),
        out.strategy == strategy,
{
    let prepared = prepare_text(text, strategy, Some(props.rtl));
    let engine_rtl = match strategy {
        BidiStrategy::PassThrough => props.rtl,
        BidiStrategy::PreReorder => false,
    };
    let shaping = props_with_direction(props, engine_rtl);
    let runs = segment_text(prepared.as_str(), fonts, &shaping);
    let ghost rv = runs_view(runs@);
    let ghost support = choose|support: Seq<Seq<bool>>| #[trigger] segmentation_with(fonts_view(fonts@), prepared@, shaping@, rv, support)
        && (prepared@.len() > 0 && all_primary(support) ==> runs@.len() == 1 && runs@[0].font == 0);
    let ordered = if engine_rtl {
        reverse_runs(runs)
    } else {
        runs
    };
    proof {
        assert(runs_view(ordered@) =~= in_draw_order(rv, strategy, props@.0));
        assert forall|r: int| 0 <= r < ordered@.len() implies #[trigger] ordered@[r].font < fonts@.len() by {
            if engine_rtl {
                assert(ordered@[r] == runs@[runs@.len() - 1 - r]);
            }
        }
    }
    let mut out = shape_runs(&ordered, fonts, &shaping);
    out.strategy = strategy;
    assert(segmentation_with(fonts_view(fonts@), prepared_spec(text@, strategy, Some(props@.0)), engine_props(strategy, props@), rv, support));
    out
}

/// The vertical extent of a line: the largest ascent and the smallest descent
/// of the fonts its runs use (0 for a line without runs), and their
/// difference, the line's height.
#[derive(Clone, Copy, Debug, PartialEq, Eq, Structural)]
pub struct LineMetrics {
    pub ascent: i64,
    pub descent: i64,
    pub height: i64,
}

/// The largest ascent and smallest descent over some fonts' metrics, or
/// nothing when one of them reports none.
pub open spec fn extent_of(metrics: Seq<Option<VerticalMetrics>>) -> Option<(i64, i64)>
    decreases metrics.len(),
{
    if metrics.len() == 0 {
        Some((0i64, 0i64))
    } else {
        match (extent_of(metrics.drop_last()), metrics.last()) {
            (Some((a, d)), Some(m)) => Some((
                if m.ascent > a { m.ascent } else { a },
                if m.descent < d { m.descent } else { d },
            )),
            _ => None,
        }
    }
}

/// `metrics` holds what each run's font reports.
pub open spec fn metrics_for(runs: Seq<ShapedRunView>, fonts: Seq<FontView>, metrics: Seq<Option<VerticalMetrics>>) -> bool {
    &&& metrics.len() == runs.len()
    &&& forall|k: int| 0 <= k < runs.len() ==> metrics_ok(fonts[runs[k].1 as int], #[trigger] metrics[k])
}

/// The line metrics for some fonts' metrics: nothing when one reports none or
/// the height does not fit in 64 bits.
pub open spec fn line_spec(metrics: Seq<Option<VerticalMetrics>>) -> Option<LineMetrics> {
    match extent_of(metrics) {
        None => None,
        Some((a, d)) => if in_i64(a - d) {
            Some(LineMetrics { ascent: a, descent: d, height: (a - d) as i64 })
        } else {
            None
        },
    }
}

/// Measures the line that shaped runs make.
pub fn line_metrics(runs: &Vec<ShapedRun>, fonts: &Vec<FontSource>) -> (r: Option<LineMetrics>)
    requires
        forall|k: int| 0 <= k < runs@.len() ==> #[trigger] runs@[k].font < fonts@.len(),
    ensures
        exists|metrics: Seq<Option<VerticalMetrics>>| #[trigger] metrics_for(shaped_runs_view(runs@), fonts_view(fonts@), metrics)
            && r == line_spec(metrics),
{
    let ghost fv = fonts_view(fonts@);
    let ghost rv = shaped_runs_view(runs@);
    let ghost ms: Seq<Option<VerticalMetrics>> = Seq::empty();
    let mut missing = false;
    let mut ascent: i64 = 0;
    let mut descent: i64 = 0;
    let mut i: usize = 0;
    while i < runs.len()
        invariant
            i <= runs@.len(),
            fv == fonts_view(fonts@),
            rv == shaped_runs_view(runs@),
            forall|k: int| 0 <= k < runs@.len() ==> #[trigger] runs@[k].font < fonts@.len(),
            ms.len() == i,
            forall|k: int| 0 <= k < i ==> metrics_ok(fv[rv[k].1 as int], #[trigger] ms[k]),
            extent_of(ms) == (if missing { None } else { Some((ascent, descent)) }),
        decreases runs@.len() - i,
    {
        let f = runs[i].font;
        assert(fv[f as int] == fonts@[f as int]@);
        assert(rv[i as int].1 == f);
        let m = font_metrics(&fonts[f]);
        proof {
            let old_ms = ms;
            ms = ms.push(m);
            assert(ms.drop_last() =~= old_ms);
        }
        match m {
            None => {
                missing = true;
            },
            Some(m) => {
                if m.ascent > ascent {
                    ascent = m.ascent;
                }
                if m.descent < descent {
                    descent = m.descent;
                }
            },
        }
        i = i + 1;
    }
    assert(metrics_for(rv, fv, ms));
    if missing {
        return None;
    }
    match ascent.checked_sub(descent) {
        Some(h) => Some(LineMetrics { ascent, descent, height: h }),
        None => None,
    }
}

} // verus!
