use vstd::prelude::*;
use vstd::string::StrSliceExecFns;

verus! {

/// One glyph as the shaping engine reports it, in the engine's own units.
#[derive(Clone, Copy, Debug, PartialEq, Eq, Structural)]
pub struct EngineGlyph {
    pub glyph_id: u32,
    pub cluster: u32,
    pub x_advance: i32,
    pub y_advance: i32,
    pub x_offset: i32,
    pub y_offset: i32,
}

/// One glyph of a shaped run, positions in 26.6 fixed point (1/64 pixel).
#[derive(Clone, Copy, Debug, PartialEq, Eq, Structural)]
pub struct ShapedGlyph {
    pub glyph_id: u32,
    pub cluster: u32,
    pub x_advance: i64,
    pub y_advance: i64,
    pub x_offset: i64,
    pub y_offset: i64,
}

/// The unit in which an engine reports positions.
#[derive(Clone, Copy, Debug, PartialEq, Eq, Structural)]
pub enum UnitConvention {
    /// Already 26.6 fixed-point pixels (an engine scaled to `size * 64`).
    Fixed26Dot6,
    /// Font design units, to be scaled by `pixels_per_em / units_per_em`.
    DesignUnits { units_per_em: u32, pixels_per_em: u16 },
}

/// Why shaping a run failed.
#[derive(Clone, Copy, Debug, PartialEq, Eq, Structural)]
pub enum ShapeError {
    /// The font could not be opened or its scale is unusable.
    EngineConfiguration,
    /// The engine produced no glyph for a non-empty run.
    NoGlyphOutput,
    /// A position or the run's total advance does not fit in 64 bits.
    CoordinateOverflow,
}

/// The shaping engine behind a font candidate.
#[derive(Clone, Copy, Debug, PartialEq, Eq, Structural)]
pub enum ShapingEngine {
    /// rustybuzz, which reports positions in font design units.
    Rustybuzz,
    /// HarfBuzz, scaled to `pixels_per_em * 64` so that it reports 26.6 pixels.
    Harfbuzz,
}

/// A font candidate: the font file's bytes, the face within it, the size at
/// which it is laid out, and the engine that shapes with it.
pub struct FontSource {
    pub data: Vec<u8>,
    pub face_index: u32,
    pub pixels_per_em: u16,
    pub engine: ShapingEngine,
}

impl View for FontSource {
    type V = (Seq<u8>, u32, u16, ShapingEngine);

    open spec fn view(&self) -> (Seq<u8>, u32, u16, ShapingEngine) {
        (self.data@, self.face_index, self.pixels_per_em, self.engine)
    }
}

/// The segment properties handed to the shaping engine: the direction, the
/// ISO 15924 script tag (such as `Latn` or `Arab`; both engines fold its
/// case, so `arab` names the same script) and the BCP 47 language tag (such
/// as `en` or `ar`).
pub struct ShapingProps {
    pub rtl: bool,
    pub script: String,
    pub language: String,
}

impl View for ShapingProps {
    type V = (bool, Seq<char>, Seq<char>);

    open spec fn view(&self) -> (bool, Seq<char>, Seq<char>) {
        (self.rtl, self.script@, self.language@)
    }
}

/// Copies a set of properties with another direction.
pub fn props_with_direction(props: &ShapingProps, rtl: bool) -> (r: ShapingProps)
    ensures
        r@ == (rtl, props@.1, props@.2),
{
    ShapingProps { rtl, script: props.script.clone(), language: props.language.clone() }
}

fn engine_glyph(glyph_id: u32, cluster: u32, x_advance: i32, y_advance: i32, x_offset: i32, y_offset: i32) -> (r: EngineGlyph)
    ensures
        r == (EngineGlyph { glyph_id, cluster, x_advance, y_advance, x_offset, y_offset }),
{
    EngineGlyph { glyph_id, cluster, x_advance, y_advance, x_offset, y_offset }
}

/// What rustybuzz produces for a font, a text and its segment properties: the
/// face's units per em and the glyphs in design units, or nothing when the
/// face cannot be opened or the script or language tag is refused.
pub uninterp spec fn shaping_of(data: Seq<u8>, face_index: u32, text: Seq<char>, rtl: bool, script: Seq<char>, language: Seq<char>) -> Option<(i32, Seq<EngineGlyph>)>;

/// Relies on rustybuzz::shape (the face opened with rustybuzz::Face::from_slice,
/// the script from Script::from_iso15924_tag, the language parsed by
/// rustybuzz::Language): with direction, script and language all set, its
/// output depends on these arguments alone. ttf-parser opens only a face
/// whose units per em lie in 16..=16384.
#[verifier::external_body]
fn shape_with_rustybuzz(data: &[u8], face_index: u32, text: &str, rtl: bool, script: &str, language: &str) -> (r: Option<(i32, Vec<EngineGlyph>)>)
    ensures
        r matches Some((u, g)) ==> shaping_of(data@, face_index, text@, rtl, script@, language@) == Some((u, g@)),
        r matches Some((u, g)) ==> 16 <= u <= 16384,
        r is None ==> shaping_of(data@, face_index, text@, rtl, script@, language@) is None,
{
    let face = rustybuzz::Face::from_slice(data, face_index)?;
    let mut buffer = rustybuzz::UnicodeBuffer::new();
    buffer.push_str(text);
    buffer.set_direction(if rtl { rustybuzz::Direction::RightToLeft } else { rustybuzz::Direction::LeftToRight });
    buffer.set_script(rustybuzz::Script::from_iso15924_tag(rustybuzz::ttf_parser::Tag::from_bytes_lossy(script.as_bytes()))?);
    buffer.set_language(language.parse().ok()?);
    let out = rustybuzz::shape(&face, &[], buffer);
    let glyphs = out.glyph_infos().iter().zip(out.glyph_positions());
    Some((face.units_per_em(), glyphs.map(|(i, p)| engine_glyph(i.glyph_id, i.cluster, p.x_advance, p.y_advance, p.x_offset, p.y_offset)).collect()))
}

/// Relies on harfbuzz_rs::shape (the face read with Face::from_bytes and
/// counted with Face::glyph_count, the font scaled with Font::set_scale, the
/// script and language parsed by harfbuzz_rs::Tag and harfbuzz_rs::Language,
/// which reads four bytes of the script tag). Gives the face's glyph count and
/// the glyphs, positions in units of `1 / scale` em, or nothing when a tag is
/// refused. HarfBuzz may be the machine's own library and may pick its
/// shaper from the environment, so nothing is promised of the glyphs.
#[verifier::external_body]
fn shape_with_harfbuzz(data: &[u8], face_index: u32, scale: i32, text: &str, rtl: bool, script: &str, language: &str) -> (r: Option<(u32, Vec<EngineGlyph>)>)
    requires
        script@.len() >= 4,
{
    let face = harfbuzz_rs::Face::from_bytes(data, face_index);
    let count = face.glyph_count();
    let mut font = harfbuzz_rs::Font::new(face);
    font.set_scale(scale, scale);
    let buffer = harfbuzz_rs::UnicodeBuffer::new().add_str(text).set_script(script.parse().ok()?).set_language(language.parse().ok()?)
        .set_direction(if rtl { harfbuzz_rs::Direction::Rtl } else { harfbuzz_rs::Direction::Ltr });
    let out = harfbuzz_rs::shape(&font, buffer, &[]);
    let glyphs = out.get_glyph_infos().iter().zip(out.get_glyph_positions());
    Some((count, glyphs.map(|(i, p)| engine_glyph(i.codepoint, i.cluster, p.x_advance, p.y_advance, p.x_offset, p.y_offset)).collect()))
}

pub open spec fn trunc_div(n: int, d: int) -> int {
    if n >= 0 {
        n / d
    } else {
        -((-n) / d)
    }
}

pub open spec fn convention_ok(conv: UnitConvention) -> bool {
    match conv {
        UnitConvention::Fixed26Dot6 => true,
        UnitConvention::DesignUnits { units_per_em, .. } => units_per_em > 0,
    }
}

/// A value in the engine's unit, in 26.6 fixed point, rounded toward zero.
pub open spec fn to_fixed_spec(v: int, conv: UnitConvention) -> int {
    match conv {
        UnitConvention::Fixed26Dot6 => v,
        UnitConvention::DesignUnits { units_per_em, pixels_per_em } =>
            trunc_div(v * 64 * pixels_per_em, units_per_em as int),
    }
}

/// Converts one engine value to 26.6 fixed point.
pub fn to_fixed(v: i32, conv: UnitConvention) -> (r: i64)
    requires
        convention_ok(conv),
    ensures
        r == to_fixed_spec(v as int, conv),
{
    match conv {
        UnitConvention::Fixed26Dot6 => v as i64,
        UnitConvention::DesignUnits { units_per_em, pixels_per_em } => {
            let m: u64 = if v >= 0 { v as u64 } else { (-(v as i64)) as u64 };
            assert(m * 64 * pixels_per_em <= 2147483648 * 64 * 65535) by (nonlinear_arith)
                requires m <= 2147483648, pixels_per_em <= 65535;
            let p: u64 = m * 64 * (pixels_per_em as u64);
            let q: u64 = p / (units_per_em as u64);
            assert(q <= p) by (nonlinear_arith)
                requires q == p / (units_per_em as u64), units_per_em > 0;
            proof {
                let n = (v as int) * 64 * (pixels_per_em as int);
                assert(v >= 0 ==> n == (m as int) * 64 * (pixels_per_em as int));
                if v < 0 {
                    assert(-n == (m as int) * 64 * (pixels_per_em as int)) by (nonlinear_arith)
                        requires n == (v as int) * 64 * (pixels_per_em as int), m == -v;
                    if n >= 0 {
                        assert(p == 0);
                    }
                }
            }
            if v >= 0 {
                q as i64
            } else {
                -(q as i64)
            }
        },
    }
}

pub open spec fn normalize_spec(g: EngineGlyph, conv: UnitConvention) -> ShapedGlyph {
    ShapedGlyph {
        glyph_id: g.glyph_id,
        cluster: g.cluster,
        x_advance: to_fixed_spec(g.x_advance as int, conv) as i64,
        y_advance: to_fixed_spec(g.y_advance as int, conv) as i64,
        x_offset: to_fixed_spec(g.x_offset as int, conv) as i64,
        y_offset: to_fixed_spec(g.y_offset as int, conv) as i64,
    }
}

/// Converts one engine glyph to 26.6 fixed point.
pub fn normalize_glyph(g: EngineGlyph, conv: UnitConvention) -> (r: ShapedGlyph)
    requires
        convention_ok(conv),
    ensures
        r == normalize_spec(g, conv),
{
    ShapedGlyph {
        glyph_id: g.glyph_id,
        cluster: g.cluster,
        x_advance: to_fixed(g.x_advance, conv),
        y_advance: to_fixed(g.y_advance, conv),
        x_offset: to_fixed(g.x_offset, conv),
        y_offset: to_fixed(g.y_offset, conv),
    }
}

pub open spec fn in_i64(v: int) -> bool {
    i64::MIN <= v <= i64::MAX
}

/// The sum of the horizontal advances of a glyph sequence.
pub open spec fn advance_sum(glyphs: Seq<ShapedGlyph>) -> int
    decreases glyphs.len(),
{
    if glyphs.len() == 0 {
        0
    } else {
        advance_sum(glyphs.drop_last()) + glyphs.last().x_advance
    }
}

/// Every running total of the advances fits in 64 bits.
pub open spec fn advances_fit(glyphs: Seq<ShapedGlyph>) -> bool {
    forall|k: int| 0 <= k <= glyphs.len() ==> #[trigger] in_i64(advance_sum(glyphs.take(k)))
}

pub open spec fn normalize_all(engine: Seq<EngineGlyph>, conv: UnitConvention) -> Seq<ShapedGlyph> {
    engine.map_values(|g: EngineGlyph| normalize_spec(g, conv))
}

/// A run of text after shaping: its glyphs in the engine's order, the run's
/// total advance, and the direction, script and language it was shaped with.
pub struct ShapedRun {
    pub text: String,
    pub font: usize,
    pub glyphs: Vec<ShapedGlyph>,
    pub advance: i64,
    pub props: ShapingProps,
}

/// A shaped run as values: text, font, glyphs, advance and properties.
pub type ShapedRunView = (Seq<char>, usize, Seq<ShapedGlyph>, i64, (bool, Seq<char>, Seq<char>));

impl View for ShapedRun {
    type V = ShapedRunView;

    open spec fn view(&self) -> ShapedRunView {
        (self.text@, self.font, self.glyphs@, self.advance, self.props@)
    }
}

pub open spec fn shaped_result_view(r: Result<ShapedRun, ShapeError>) -> Result<ShapedRunView, ShapeError> {
    match r {
        Ok(run) => Ok(run@),
        Err(e) => Err(e),
    }
}

/// The shaped run built from an engine's output for `text`.
pub open spec fn build_spec(text: Seq<char>, font: usize, engine: Seq<EngineGlyph>, conv: UnitConvention, props: (bool, Seq<char>, Seq<char>)) -> Result<ShapedRunView, ShapeError> {
    if !convention_ok(conv) {
        Err(ShapeError::EngineConfiguration)
    } else if engine.len() == 0 && text.len() > 0 {
        Err(ShapeError::NoGlyphOutput)
    } else if !advances_fit(normalize_all(engine, conv)) {
        Err(ShapeError::CoordinateOverflow)
    } else {
        let glyphs = normalize_all(engine, conv);
        Ok((text, font, glyphs, advance_sum(glyphs) as i64, props))
    }
}

/// Builds a shaped run from an engine's glyphs, converting every position to
/// 26.6 fixed point and keeping the engine's glyph order; the run's advance
/// is the sum of its glyphs' advances, and it keeps the properties it was
/// shaped with.
pub fn build_shaped_run(text: &str, font: usize, engine: &Vec<EngineGlyph>, conv: UnitConvention, props: &ShapingProps) -> (r: Result<ShapedRun, ShapeError>)
    ensures
        shaped_result_view(r) == build_spec(text@, font, engine@, conv, props@),
        r matches Ok(run) ==> run.advance == advance_sum(run.glyphs@),
{
    let ok = match conv {
        UnitConvention::Fixed26Dot6 => true,
        UnitConvention::DesignUnits { units_per_em, .. } => units_per_em > 0,
    };
    if !ok {
        return Err(ShapeError::EngineConfiguration);
    }
    if engine.len() == 0 && !text.is_empty() {
        return Err(ShapeError::NoGlyphOutput);
    }
    let ghost all = normalize_all(engine@, conv);
    let mut glyphs: Vec<ShapedGlyph> = Vec::new();
    let mut total: i64 = 0;
    let mut i: usize = 0;
    assert(all.take(0) =~= Seq::<ShapedGlyph>::empty());
    while i < engine.len()
        invariant
            i <= engine@.len(),
            convention_ok(conv),
            all == normalize_all(engine@, conv),
            glyphs@ == all.take(i as int),
            total == advance_sum(glyphs@),
            forall|k: int| 0 <= k <= i ==> #[trigger] in_i64(advance_sum(all.take(k))),
        decreases engine@.len() - i,
    {
        let g = normalize_glyph(engine[i], conv);
        assert(all.take(i + 1) =~= glyphs@.push(g));
        assert(glyphs@.push(g).drop_last() =~= glyphs@);
        match total.checked_add(g.x_advance) {
            None => {
                assert(!in_i64(advance_sum(all.take(i + 1))));
                return Err(ShapeError::CoordinateOverflow);
            },
            Some(t) => {
                total = t;
            },
        }
        glyphs.push(g);
        i = i + 1;
    }
    assert(all.take(i as int) =~= all);
    Ok(ShapedRun { text: text.to_owned(), font, glyphs, advance: total, props: props_with_direction(props, props.rtl) })
}

/// Shaping `text` with a rustybuzz candidate, which reports positions in
/// design units: they are scaled by the candidate's size over the face's
/// units per em.
pub open spec fn rustybuzz_spec(source: (Seq<u8>, u32, u16, ShapingEngine), font: usize, text: Seq<char>, props: (bool, Seq<char>, Seq<char>)) -> Result<ShapedRunView, ShapeError> {
    match shaping_of(source.0, source.1, text, props.0, props.1, props.2) {
        None => Err(ShapeError::EngineConfiguration),
        Some((upem, engine)) => build_spec(text, font, engine, UnitConvention::DesignUnits { units_per_em: upem as u32, pixels_per_em: source.2 }, props),
    }
}

/// The shaped run built from what HarfBuzz, scaled to 26.6 units, gave back:
/// a refused tag or a face with no glyph is a configuration error.
pub open spec fn harfbuzz_result_spec(text: Seq<char>, font: usize, raw: Option<(u32, Seq<EngineGlyph>)>, props: (bool, Seq<char>, Seq<char>)) -> Result<ShapedRunView, ShapeError> {
    match raw {
        None => Err(ShapeError::EngineConfiguration),
        Some((count, engine)) => if count == 0 {
            Err(ShapeError::EngineConfiguration)
        } else {
            build_spec(text, font, engine, UnitConvention::Fixed26Dot6, props)
        },
    }
}

pub open spec fn raw_view(raw: Option<(u32, Vec<EngineGlyph>)>) -> Option<(u32, Seq<EngineGlyph>)> {
    match raw {
        None => None,
        Some((n, g)) => Some((n, g@)),
    }
}

/// Builds a shaped run from HarfBuzz's output for `text`.
pub fn shaped_from_harfbuzz(text: &str, font: usize, raw: Option<(u32, Vec<EngineGlyph>)>, props: &ShapingProps) -> (r: Result<ShapedRun, ShapeError>)
    ensures
        shaped_result_view(r) == harfbuzz_result_spec(text@, font, raw_view(raw), props@),
        r matches Ok(run) ==> run.advance == advance_sum(run.glyphs@),
{
    match raw {
        None => Err(ShapeError::EngineConfiguration),
        Some((count, engine)) => {
            if count == 0 {
                Err(ShapeError::EngineConfiguration)
            } else {
                build_shaped_run(text, font, &engine, UnitConvention::Fixed26Dot6, props)
            }
        },
    }
}

/// What shaping `text` with a candidate may give. With rustybuzz the result
/// is fixed by the arguments. With HarfBuzz a script tag shorter than four
/// characters is a configuration error; otherwise the result is the run built
/// from whatever HarfBuzz gave back.
pub open spec fn shape_ok(source: (Seq<u8>, u32, u16, ShapingEngine), font: usize, text: Seq<char>, props: (bool, Seq<char>, Seq<char>), r: Result<ShapedRunView, ShapeError>) -> bool {
    match source.3 {
        ShapingEngine::Rustybuzz => r == rustybuzz_spec(source, font, text, props),
        ShapingEngine::Harfbuzz => if props.1.len() < 4 {
            r == Err::<ShapedRunView, ShapeError>(ShapeError::EngineConfiguration)
        } else {
            exists|raw: Option<(u32, Seq<EngineGlyph>)>| r == harfbuzz_result_spec(text, font, raw, props)
        },
    }
}

/// Shapes one run with the candidate `source` (whose index among the
/// candidates is `font`) under the given segment properties.
pub fn shape_run(source: &FontSource, font: usize, text: &str, props: &ShapingProps) -> (r: Result<ShapedRun, ShapeError>)
    ensures
        shape_ok(source@, font, text@, props@, shaped_result_view(r)),
        r matches Ok(run) ==> run.advance == advance_sum(run.glyphs@),
{
    let data = source.data.as_slice();
    let (script, language) = (props.script.as_str(), props.language.as_str());
    if source.engine == ShapingEngine::Harfbuzz {
        if script.unicode_len() < 4 {
            return Err(ShapeError::EngineConfiguration);
        }
        let scale = (source.pixels_per_em as i32) * 64;
        let raw = shape_with_harfbuzz(data, source.face_index, scale, text, props.rtl, script, language);
        let ghost rv = raw_view(raw);
        let r = shaped_from_harfbuzz(text, font, raw, props);
        assert(shaped_result_view(r) == harfbuzz_result_spec(text@, font, rv, props@));
        return r;
    }
    match shape_with_rustybuzz(data, source.face_index, text, props.rtl, script, language) {
        None => Err(ShapeError::EngineConfiguration),
        Some((upem, engine)) => {
            let conv = UnitConvention::DesignUnits { units_per_em: upem as u32, pixels_per_em: source.pixels_per_em };
            build_shaped_run(text, font, &engine, conv, props)
        },
    }
}

/// Shaping with rustybuzz is deterministic: the same font, text, direction,
/// script and language give the same glyph ids and positions, so two results
/// of `shape_run` on one input agree.
pub proof fn lemma_shaping_deterministic(
    source: (Seq<u8>, u32, u16, ShapingEngine),
    font: usize,
    text: Seq<char>,
    props: (bool, Seq<char>, Seq<char>),
    first: Result<ShapedRunView, ShapeError>,
    second: Result<ShapedRunView, ShapeError>,
)
    requires
        source.3 == ShapingEngine::Rustybuzz,
        shape_ok(source, font, text, props, first),
        shape_ok(source, font, text, props, second),
    ensures
        first == second,
        first matches Ok(a) ==> second matches Ok(b) && a.2 == b.2,
{
}

pub open spec fn has_real_glyph(engine: Seq<EngineGlyph>) -> bool {
    exists|i: int| 0 <= i < engine.len() && engine[i].glyph_id != 0
}

/// Whether a rustybuzz candidate can render a cluster: shaping it under the
/// layout's segment properties gives at least one glyph other than the
/// missing-glyph marker.
pub open spec fn rustybuzz_renders(source: (Seq<u8>, u32, u16, ShapingEngine), cluster: Seq<char>, props: (bool, Seq<char>, Seq<char>)) -> bool {
    match shaping_of(source.0, source.1, cluster, props.0, props.1, props.2) {
        None => false,
        Some((_, engine)) => has_real_glyph(engine),
    }
}

/// What the capability oracle may answer for a candidate: with rustybuzz it
/// is fixed by the arguments; with HarfBuzz it is whether the glyphs it gave
/// back hold a real one, and no when the script tag is shorter than four
/// characters.
pub open spec fn render_ok(source: (Seq<u8>, u32, u16, ShapingEngine), cluster: Seq<char>, props: (bool, Seq<char>, Seq<char>), b: bool) -> bool {
    match source.3 {
        ShapingEngine::Rustybuzz => b == rustybuzz_renders(source, cluster, props),
        ShapingEngine::Harfbuzz => props.1.len() < 4 ==> !b,
    }
}

/// Font capability: a cluster is renderable when shaping it produced at least
/// one glyph other than the missing-glyph marker 0.
pub fn renders_cluster(engine: &Vec<EngineGlyph>) -> (r: bool)
    ensures
        r == has_real_glyph(engine@),
{
    let mut i: usize = 0;
    while i < engine.len()
        invariant
            i <= engine@.len(),
            forall|j: int| 0 <= j < i ==> engine@[j].glyph_id == 0,
        decreases engine@.len() - i,
    {
        if engine[i].glyph_id != 0 {
            assert(engine@[i as int].glyph_id != 0);
            return true;
        }
        i = i + 1;
    }
    false
}

/// Font capability oracle for a grapheme cluster.
pub fn can_render(source: &FontSource, cluster: &str, props: &ShapingProps) -> (r: bool)
    ensures
        render_ok(source@, cluster@, props@, r),
{
    let data = source.data.as_slice();
    let (script, language) = (props.script.as_str(), props.language.as_str());
    if source.engine == ShapingEngine::Harfbuzz {
        if script.unicode_len() < 4 {
            return false;
        }
        let scale = (source.pixels_per_em as i32) * 64;
        return match shape_with_harfbuzz(data, source.face_index, scale, cluster, props.rtl, script, language) {
            None => false,
            Some((_, engine)) => renders_cluster(&engine),
        };
    }
    match shape_with_rustybuzz(data, source.face_index, cluster, props.rtl, script, language) {
        None => false,
        Some((_, engine)) => renders_cluster(&engine),
    }
}

/// A font's extent above and below the baseline, in 26.6 fixed point with y
/// growing upward (the descent is usually negative).
#[derive(Clone, Copy, Debug, PartialEq, Eq, Structural)]
pub struct VerticalMetrics {
    pub ascent: i64,
    pub descent: i64,
}

/// rustybuzz's face metrics: units per em, ascender and descender in design
/// units, or nothing when the face cannot be opened.
pub uninterp spec fn rb_metrics_of(data: Seq<u8>, face_index: u32) -> Option<(i32, i16, i16)>;

/// Relies on rustybuzz::Face::from_slice and units_per_em, with ttf-parser's
/// Face::ascender and Face::descender: the face's horizontal metrics.
/// ttf-parser opens only a face whose units per em lie in 16..=16384.
#[verifier::external_body]
fn rustybuzz_metrics(data: &[u8], face_index: u32) -> (r: Option<(i32, i16, i16)>)
    ensures
        r == rb_metrics_of(data@, face_index),
        r matches Some((u, a, d)) ==> 16 <= u <= 16384,
{
    let face = rustybuzz::Face::from_slice(data, face_index)?;
    Some((face.units_per_em(), face.ascender(), face.descender()))
}

/// Relies on harfbuzz_rs::Font::get_font_h_extents (the face read with
/// Face::from_bytes, the font scaled with Font::set_scale): ascender and
/// descender in units of `1 / scale` em, or nothing when the font reports
/// none. HarfBuzz may be the machine's own library, so nothing is promised of
/// the values.
#[verifier::external_body]
fn harfbuzz_metrics(data: &[u8], face_index: u32, scale: i32) -> (r: Option<(i32, i32)>)
{
    let mut font = harfbuzz_rs::Font::new(harfbuzz_rs::Face::from_bytes(data, face_index));
    font.set_scale(scale, scale);
    font.get_font_h_extents().map(|e| (e.ascender, e.descender))
}

/// A rustybuzz candidate's vertical metrics, scaled as its positions are.
pub open spec fn rustybuzz_metrics_spec(source: (Seq<u8>, u32, u16, ShapingEngine)) -> Option<VerticalMetrics> {
    match rb_metrics_of(source.0, source.1) {
        None => None,
        Some((upem, a, d)) => {
            let conv = UnitConvention::DesignUnits { units_per_em: upem as u32, pixels_per_em: source.2 };
            Some(VerticalMetrics { ascent: to_fixed_spec(a as int, conv) as i64, descent: to_fixed_spec(d as int, conv) as i64 })
        },
    }
}

/// What a candidate's vertical metrics may be: fixed by the arguments with
/// rustybuzz; whatever HarfBuzz reports otherwise.
pub open spec fn metrics_ok(source: (Seq<u8>, u32, u16, ShapingEngine), m: Option<VerticalMetrics>) -> bool {
    match source.3 {
        ShapingEngine::Rustybuzz => m == rustybuzz_metrics_spec(source),
        ShapingEngine::Harfbuzz => true,
    }
}

/// Reads a candidate's vertical metrics at its size.
pub fn font_metrics(source: &FontSource) -> (r: Option<VerticalMetrics>)
    ensures
        metrics_ok(source@, r),
{
    let data = source.data.as_slice();
    if source.engine == ShapingEngine::Harfbuzz {
        let scale = (source.pixels_per_em as i32) * 64;
        return match harfbuzz_metrics(data, source.face_index, scale) {
            None => None,
            Some((a, d)) => Some(VerticalMetrics { ascent: a as i64, descent: d as i64 }),
        };
    }
    match rustybuzz_metrics(data, source.face_index) {
        None => None,
        Some((upem, a, d)) => {
            let conv = UnitConvention::DesignUnits { units_per_em: upem as u32, pixels_per_em: source.pixels_per_em };
            Some(VerticalMetrics { ascent: to_fixed(a as i32, conv), descent: to_fixed(d as i32, conv) })
        },
    }
}

} // verus!
