use glyph_layout::assemble::{assemble, place_glyphs, right_aligned_mirror, PlacedGlyph};
use glyph_layout::outline::{outline_to_path, Contour, Outline, OutlinePoint, PathCommand, PathPoint, Segment};
use glyph_layout::pipeline::layout_text;
use glyph_layout::shaping::{FontSource, ShapeError, ShapedGlyph, ShapedRun, ShapingEngine, ShapingProps};
use glyph_layout::text::{prepare_text, BidiStrategy};

fn latin(rtl: bool) -> ShapingProps {
    ShapingProps { rtl, script: "Latn".to_string(), language: "en".to_string() }
}

fn glyph(id: u32, adv: i64, x_off: i64, y_off: i64) -> ShapedGlyph {
    ShapedGlyph { glyph_id: id, cluster: 0, x_advance: adv, y_advance: 0, x_offset: x_off, y_offset: y_off }
}

fn run(font: usize, glyphs: Vec<ShapedGlyph>) -> ShapedRun {
    let advance = glyphs.iter().map(|g| g.x_advance).sum();
    ShapedRun { text: "t".to_string(), font, glyphs, advance, props: latin(false) }
}

#[test]
fn pass_through_keeps_text() {
    assert_eq!(prepare_text("\u{05E9}\u{05DC}\u{05D5}\u{05DD}", BidiStrategy::PassThrough, None), "\u{05E9}\u{05DC}\u{05D5}\u{05DD}");
}

#[test]
fn pre_reorder_of_ltr_text_is_identity() {
    assert_eq!(prepare_text("hello, world 42", BidiStrategy::PreReorder, None), "hello, world 42");
    assert_eq!(prepare_text("", BidiStrategy::PreReorder, None), "");
    assert_eq!(prepare_text("hello, world 42", BidiStrategy::PreReorder, Some(false)), "hello, world 42");
}

#[test]
fn pre_reorder_puts_rtl_text_in_display_order() {
    assert_eq!(prepare_text("\u{05E9}\u{05DC}\u{05D5}\u{05DD}", BidiStrategy::PreReorder, None), "\u{05DD}\u{05D5}\u{05DC}\u{05E9}");
    assert_eq!(prepare_text("abc \u{05D0}\u{05D1}\u{05D2}", BidiStrategy::PreReorder, None), "abc \u{05D2}\u{05D1}\u{05D0}");
}

#[test]
fn pre_reorder_keeps_combining_marks_with_their_base() {
    let text = "\u{05E9}\u{05C1}\u{05DC}";
    assert_eq!(prepare_text(text, BidiStrategy::PreReorder, None), "\u{05DC}\u{05E9}\u{05C1}");
    assert_eq!(prepare_text("a\u{0301}b", BidiStrategy::PreReorder, Some(true)), "a\u{0301}b");
}

#[test]
fn pre_reorder_honours_an_explicit_base_direction() {
    assert_eq!(prepare_text("ab!", BidiStrategy::PreReorder, None), "ab!");
    assert_eq!(prepare_text("ab!", BidiStrategy::PreReorder, Some(true)), "!ab");
}

#[test]
fn glyphs_are_placed_at_pen_plus_offset() {
    let runs = vec![run(0, vec![glyph(1, 640, 0, 0), glyph(2, 320, 10, -5)]), run(1, vec![glyph(3, 1000, 0, 64)])];
    let layout = assemble(&runs, 3200, 3200).unwrap();
    assert_eq!(layout.width, 1960);
    assert_eq!(
        layout.glyphs,
        vec![
            PlacedGlyph { glyph_id: 1, font: 0, pen_x: 3200, x: 3200, y: 3200, x_advance: 640 },
            PlacedGlyph { glyph_id: 2, font: 0, pen_x: 3840, x: 3850, y: 3195, x_advance: 320 },
            PlacedGlyph { glyph_id: 3, font: 1, pen_x: 4160, x: 4160, y: 3264, x_advance: 1000 },
        ]
    );
}

#[test]
fn empty_layout_has_zero_width() {
    let layout = assemble(&Vec::new(), 0, 0).unwrap();
    assert!(layout.glyphs.is_empty());
    assert_eq!(layout.width, 0);
}

#[test]
fn overflowing_layout_is_refused() {
    let flat = vec![(0usize, glyph(1, i64::MAX, 0, 0)), (0usize, glyph(2, 1, 0, 0))];
    assert!(place_glyphs(&flat, 0, 0).is_none());
    let flat = vec![(0usize, glyph(1, 5, 0, i64::MAX))];
    assert!(place_glyphs(&flat, 0, 1).is_none());
}

#[test]
fn mirrored_rtl_block_ends_at_anchor() {
    let runs = vec![run(0, vec![glyph(5, 700, 0, 0), glyph(6, 300, 0, 0), glyph(7, 500, 0, 0)])];
    let layout = assemble(&runs, 0, 0).unwrap();
    let anchor = 50 * 64;
    let t = right_aligned_mirror(anchor, 50 * 64, layout.width).unwrap();
    let last = layout.glyphs.last().unwrap();
    assert_eq!(t.translate_x - (last.pen_x + last.x_advance), anchor);
    assert_eq!(t.translate_x - 0, anchor + 1500);
    assert_eq!(t.translate_y, 3200);
    assert!(right_aligned_mirror(i64::MAX, 0, 1).is_none());
}

#[test]
fn missing_outline_gives_no_path() {
    assert!(outline_to_path(None).is_none());
    assert!(outline_to_path(Some(&Outline { contours: Vec::new() })).is_none());
}

#[test]
fn outline_contours_become_closed_flipped_paths() {
    let p = |x: i32, y: i32| OutlinePoint { x, y };
    let q = |x: i64, y: i64| PathPoint { x, y };
    let outline = Outline {
        contours: vec![
            Contour { start: p(0, 0), segments: vec![Segment::Line(p(64, 128)), Segment::Quad(p(10, -20), p(30, 40))] },
            Contour { start: p(5, 6), segments: vec![Segment::Cubic(p(1, 2), p(3, 4), p(5, -6))] },
        ],
    };
    let path = outline_to_path(Some(&outline)).unwrap();
    assert_eq!(
        path.commands,
        vec![
            PathCommand::MoveTo(q(0, 0)),
            PathCommand::LineTo(q(64, -128)),
            PathCommand::QuadTo(q(10, 20), q(30, -40)),
            PathCommand::Close,
            PathCommand::MoveTo(q(5, -6)),
            PathCommand::CubicTo(q(1, -2), q(3, -4), q(5, 6)),
            PathCommand::Close,
        ]
    );
}

#[test]
fn failing_run_is_reported_with_its_index() {
    let fonts = vec![FontSource { data: vec![0; 8], face_index: 0, pixels_per_em: 20, engine: ShapingEngine::Rustybuzz }];
    let out = layout_text("hi", &fonts, BidiStrategy::PassThrough, &latin(false));
    assert!(out.runs.is_empty());
    let failure = out.failure.unwrap();
    assert_eq!(failure.run, 0);
    assert_eq!(failure.error, ShapeError::EngineConfiguration);
    assert_eq!(out.strategy, BidiStrategy::PassThrough);
}

#[test]
fn empty_text_lays_out_nothing() {
    let fonts = vec![FontSource { data: vec![0; 8], face_index: 0, pixels_per_em: 20, engine: ShapingEngine::Rustybuzz }];
    let out = layout_text("", &fonts, BidiStrategy::PreReorder, &latin(true));
    assert!(out.runs.is_empty());
    assert!(out.failure.is_none());
    assert_eq!(out.strategy, BidiStrategy::PreReorder);
}

