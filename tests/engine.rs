use glyph_layout::assemble::{assemble, right_aligned_mirror};
use glyph_layout::pipeline::{layout_text, line_metrics, segment_text};
use glyph_layout::shaping::{can_render, font_metrics, shape_run, FontSource, ShapeError, ShapingEngine, ShapingProps};
use glyph_layout::text::BidiStrategy;

fn latin(rtl: bool) -> ShapingProps {
    ShapingProps { rtl, script: "Latn".to_string(), language: "en".to_string() }
}

// A minimal TrueType font: 1000 units per em, glyphs for U+0020..U+007E with
// ids 1..95 in code point order, glyph g advancing 400 + 4 * g units.
fn ascii_font_bytes() -> Vec<u8> {
    vec![
    0, 1, 0, 0, 0, 5, 0, 64, 0, 2, 0, 16, 99, 109, 97, 112,
    0, 0, 0, 0, 0, 0, 0, 92, 0, 0, 0, 44, 104, 101, 97, 100,
    0, 0, 0, 0, 0, 0, 0, 136, 0, 0, 0, 54, 104, 104, 101, 97,
    0, 0, 0, 0, 0, 0, 0, 192, 0, 0, 0, 36, 104, 109, 116, 120,
    0, 0, 0, 0, 0, 0, 0, 228, 0, 0, 1, 128, 109, 97, 120, 112,
    0, 0, 0, 0, 0, 0, 2, 100, 0, 0, 0, 6, 0, 0, 0, 1,
    0, 3, 0, 1, 0, 0, 0, 12, 0, 4, 0, 32, 0, 0, 0, 4,
    0, 4, 0, 1, 0, 0, 0, 126, 255, 255, 0, 0, 0, 32, 255, 255,
    255, 225, 0, 1, 0, 0, 0, 0, 0, 1, 0, 0, 0, 1, 0, 0,
    0, 0, 0, 0, 95, 15, 60, 245, 0, 0, 3, 232, 0, 0, 0, 0,
    0, 0, 0, 0, 0, 0, 0, 0, 0, 0, 0, 0, 0, 0, 255, 56,
    3, 232, 3, 32, 0, 0, 0, 8, 0, 2, 0, 0, 0, 0, 0, 0,
    0, 1, 0, 0, 3, 32, 255, 56, 0, 0, 3, 232, 0, 0, 0, 0,
    3, 232, 0, 1, 0, 0, 0, 0, 0, 0, 0, 0, 0, 0, 0, 0,
    0, 0, 0, 96, 1, 244, 0, 0, 1, 148, 0, 0, 1, 152, 0, 0,
    1, 156, 0, 0, 1, 160, 0, 0, 1, 164, 0, 0, 1, 168, 0, 0,
    1, 172, 0, 0, 1, 176, 0, 0, 1, 180, 0, 0, 1, 184, 0, 0,
    1, 188, 0, 0, 1, 192, 0, 0, 1, 196, 0, 0, 1, 200, 0, 0,
    1, 204, 0, 0, 1, 208, 0, 0, 1, 212, 0, 0, 1, 216, 0, 0,
    1, 220, 0, 0, 1, 224, 0, 0, 1, 228, 0, 0, 1, 232, 0, 0,
    1, 236, 0, 0, 1, 240, 0, 0, 1, 244, 0, 0, 1, 248, 0, 0,
    1, 252, 0, 0, 2, 0, 0, 0, 2, 4, 0, 0, 2, 8, 0, 0,
    2, 12, 0, 0, 2, 16, 0, 0, 2, 20, 0, 0, 2, 24, 0, 0,
    2, 28, 0, 0, 2, 32, 0, 0, 2, 36, 0, 0, 2, 40, 0, 0,
    2, 44, 0, 0, 2, 48, 0, 0, 2, 52, 0, 0, 2, 56, 0, 0,
    2, 60, 0, 0, 2, 64, 0, 0, 2, 68, 0, 0, 2, 72, 0, 0,
    2, 76, 0, 0, 2, 80, 0, 0, 2, 84, 0, 0, 2, 88, 0, 0,
    2, 92, 0, 0, 2, 96, 0, 0, 2, 100, 0, 0, 2, 104, 0, 0,
    2, 108, 0, 0, 2, 112, 0, 0, 2, 116, 0, 0, 2, 120, 0, 0,
    2, 124, 0, 0, 2, 128, 0, 0, 2, 132, 0, 0, 2, 136, 0, 0,
    2, 140, 0, 0, 2, 144, 0, 0, 2, 148, 0, 0, 2, 152, 0, 0,
    2, 156, 0, 0, 2, 160, 0, 0, 2, 164, 0, 0, 2, 168, 0, 0,
    2, 172, 0, 0, 2, 176, 0, 0, 2, 180, 0, 0, 2, 184, 0, 0,
    2, 188, 0, 0, 2, 192, 0, 0, 2, 196, 0, 0, 2, 200, 0, 0,
    2, 204, 0, 0, 2, 208, 0, 0, 2, 212, 0, 0, 2, 216, 0, 0,
    2, 220, 0, 0, 2, 224, 0, 0, 2, 228, 0, 0, 2, 232, 0, 0,
    2, 236, 0, 0, 2, 240, 0, 0, 2, 244, 0, 0, 2, 248, 0, 0,
    2, 252, 0, 0, 3, 0, 0, 0, 3, 4, 0, 0, 3, 8, 0, 0,
    3, 12, 0, 0, 0, 0, 80, 0, 0, 96, 0, 0,
    ]
}

fn ascii_font() -> FontSource {
    FontSource { data: ascii_font_bytes(), face_index: 0, pixels_per_em: 20, engine: ShapingEngine::Rustybuzz }
}

#[test]
fn hello_world_shapes_to_one_run_of_twelve_glyphs() {
    let fonts = vec![ascii_font()];
    let out = layout_text("hello, world", &fonts, BidiStrategy::PassThrough, &latin(false));
    assert!(out.failure.is_none());
    assert_eq!(out.runs.len(), 1);
    let run = &out.runs[0];
    assert_eq!(run.font, 0);
    assert_eq!(run.glyphs.len(), 12);
    assert_eq!(run.glyphs[0].x_offset, 0);
    assert_eq!(run.glyphs[0].glyph_id, 0x68 - 0x1F);
    assert_eq!(run.glyphs[0].x_advance, 885);
    assert!(run.glyphs.iter().all(|g| g.glyph_id != 0));
    let sum: i64 = run.glyphs.iter().map(|g| g.x_advance).sum();
    assert_eq!(run.advance, sum);
}

#[test]
fn emoji_missing_from_primary_goes_to_fallback_run() {
    let fonts = vec![ascii_font(), ascii_font()];
    assert!(can_render(&fonts[0], "h", &latin(false)));
    assert!(!can_render(&fonts[0], "\u{1F30E}", &latin(false)));
    let runs = segment_text("hello\u{1F30E}", &fonts, &latin(false));
    assert_eq!(runs.len(), 2);
    assert_eq!((runs[0].text.as_str(), runs[0].font), ("hello", 0));
    assert_eq!((runs[1].text.as_str(), runs[1].font), ("\u{1F30E}", 1));
}

#[test]
fn shaping_a_real_font_twice_is_identical() {
    let font = ascii_font();
    let a = shape_run(&font, 0, "Wave ~ 42", &latin(true)).unwrap();
    let b = shape_run(&font, 0, "Wave ~ 42", &latin(true)).unwrap();
    assert_eq!(a.glyphs, b.glyphs);
    assert_eq!(a.advance, b.advance);
    assert_eq!(a.glyphs.len(), 9);
}

#[test]
fn right_to_left_run_mirrors_onto_its_anchor() {
    let fonts = vec![ascii_font()];
    let out = layout_text("abc", &fonts, BidiStrategy::PassThrough, &latin(true));
    let layout = assemble(&out.runs, 0, 0).unwrap();
    assert_eq!(layout.width, out.runs[0].advance);
    let anchor = 3200;
    let t = right_aligned_mirror(anchor, 3200, layout.width).unwrap();
    let last = layout.glyphs.last().unwrap();
    assert_eq!(t.translate_x - (last.pen_x + last.x_advance), anchor);
}

fn ascii_font_harfbuzz() -> FontSource {
    FontSource { data: ascii_font_bytes(), face_index: 0, pixels_per_em: 20, engine: ShapingEngine::Harfbuzz }
}

#[test]
fn harfbuzz_shapes_hello_world_in_one_run() {
    let fonts = vec![ascii_font_harfbuzz()];
    let out = layout_text("hello, world", &fonts, BidiStrategy::PassThrough, &latin(false));
    assert!(out.failure.is_none());
    assert_eq!(out.runs.len(), 1);
    let run = &out.runs[0];
    assert_eq!(run.glyphs.len(), 12);
    assert_eq!(run.glyphs[0].glyph_id, 0x68 - 0x1F);
    assert_eq!(run.glyphs[0].x_offset, 0);
    assert!((run.glyphs[0].x_advance - 885).abs() <= 1);
    let sum: i64 = run.glyphs.iter().map(|g| g.x_advance).sum();
    assert_eq!(run.advance, sum);
}

#[test]
fn harfbuzz_and_rustybuzz_candidates_mix() {
    let fonts = vec![ascii_font_harfbuzz(), ascii_font()];
    assert!(can_render(&fonts[0], "w", &latin(false)));
    assert!(!can_render(&fonts[0], "\u{1F30E}", &latin(false)));
    let out = layout_text("hi\u{1F30E}", &fonts, BidiStrategy::PassThrough, &latin(false));
    assert!(out.failure.is_none());
    assert_eq!(out.runs.len(), 2);
    assert_eq!((out.runs[0].text.as_str(), out.runs[0].font), ("hi", 0));
    assert_eq!((out.runs[1].text.as_str(), out.runs[1].font), ("\u{1F30E}", 1));
    assert_eq!(out.runs[1].glyphs.len(), 1);
    assert_eq!(out.runs[1].glyphs[0].glyph_id, 0);
}

#[test]
fn shaped_run_keeps_its_segment_properties() {
    let props = ShapingProps { rtl: true, script: "Latn".to_string(), language: "de".to_string() };
    let run = shape_run(&ascii_font(), 0, "abc", &props).unwrap();
    assert!(run.props.rtl);
    assert_eq!(run.props.script, "Latn");
    assert_eq!(run.props.language, "de");
    assert_eq!(run.text, "abc");
}

#[test]
fn refused_language_is_a_configuration_error() {
    let props = ShapingProps { rtl: false, script: "Latn".to_string(), language: String::new() };
    assert_eq!(shape_run(&ascii_font(), 0, "abc", &props).err(), Some(ShapeError::EngineConfiguration));
    assert_eq!(shape_run(&ascii_font_harfbuzz(), 0, "abc", &props).err(), Some(ShapeError::EngineConfiguration));
    assert!(!can_render(&ascii_font_harfbuzz(), "a", &props));
}

#[test]
fn unreadable_harfbuzz_face_is_a_configuration_error() {
    let font = FontSource { data: vec![3; 16], face_index: 0, pixels_per_em: 20, engine: ShapingEngine::Harfbuzz };
    assert_eq!(shape_run(&font, 0, "abc", &latin(false)).err(), Some(ShapeError::EngineConfiguration));
}

#[test]
fn line_metrics_come_from_the_fonts_used() {
    let fonts = vec![ascii_font(), ascii_font_harfbuzz()];
    let out = layout_text("hello", &fonts, BidiStrategy::PassThrough, &latin(false));
    let m = line_metrics(&out.runs, &fonts).unwrap();
    assert_eq!((m.ascent, m.descent, m.height), (1024, -256, 1280));
    let hb = font_metrics(&fonts[1]).unwrap();
    assert!((hb.ascent - 1024).abs() <= 1 && (hb.descent + 256).abs() <= 1);
    let empty = line_metrics(&Vec::new(), &fonts).unwrap();
    assert_eq!((empty.ascent, empty.descent, empty.height), (0, 0, 0));
}

#[test]
fn unreadable_font_has_no_metrics() {
    let font = FontSource { data: vec![3; 16], face_index: 0, pixels_per_em: 20, engine: ShapingEngine::Rustybuzz };
    assert!(font_metrics(&font).is_none());
}

#[test]
fn short_script_tag_is_refused_before_harfbuzz() {
    let props = ShapingProps { rtl: false, script: "La".to_string(), language: "en".to_string() };
    assert_eq!(shape_run(&ascii_font_harfbuzz(), 0, "abc", &props).err(), Some(ShapeError::EngineConfiguration));
    assert!(!can_render(&ascii_font_harfbuzz(), "a", &props));
}

#[test]
fn lowercase_script_tag_is_accepted_by_harfbuzz() {
    let props = ShapingProps { rtl: false, script: "latn".to_string(), language: "en".to_string() };
    let run = shape_run(&ascii_font_harfbuzz(), 0, "abc", &props).unwrap();
    assert_eq!(run.glyphs.len(), 3);
}

#[test]
fn arabic_props_pass_through_both_engines() {
    let props = ShapingProps { rtl: true, script: "arab".to_string(), language: "ar".to_string() };
    assert_eq!(shape_run(&ascii_font(), 0, "ab", &props).unwrap().glyphs.len(), 2);
    assert_eq!(shape_run(&ascii_font_harfbuzz(), 0, "ab", &props).unwrap().glyphs.len(), 2);
}
