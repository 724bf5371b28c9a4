use glyph_layout::pipeline::segment_text;
use glyph_layout::segment::{choose_font, segment_runs, Run};
use glyph_layout::shaping::{can_render, renders_cluster, EngineGlyph, FontSource, ShapingEngine, ShapingProps};
use glyph_layout::text::clusters_of;

fn latin(rtl: bool) -> ShapingProps {
    ShapingProps { rtl, script: "Latn".to_string(), language: "en".to_string() }
}

fn strings(parts: &[&str]) -> Vec<String> {
    parts.iter().map(|p| p.to_string()).collect()
}

fn summary(runs: &[Run]) -> Vec<(String, usize)> {
    runs.iter().map(|r| (r.text.clone(), r.font)).collect()
}

fn junk_font() -> FontSource {
    FontSource { data: vec![1, 2, 3, 4], face_index: 0, pixels_per_em: 20, engine: ShapingEngine::Rustybuzz }
}

#[test]
fn hello_world_has_twelve_clusters() {
    let clusters = clusters_of("hello, world");
    assert_eq!(clusters.len(), 12);
    assert_eq!(clusters[5], ",");
    assert_eq!(clusters[6], " ");
}

#[test]
fn emoji_with_modifier_is_one_cluster() {
    let clusters = clusters_of("a\u{1F44D}\u{1F3FD}b");
    assert_eq!(clusters, strings(&["a", "\u{1F44D}\u{1F3FD}", "b"]));
}

#[test]
fn empty_text_has_no_clusters_and_no_runs() {
    assert!(clusters_of("").is_empty());
    let runs = segment_runs(&Vec::new(), &Vec::new());
    assert!(runs.is_empty());
}

#[test]
fn all_primary_text_is_one_primary_run() {
    let clusters = clusters_of("hello, world");
    let choices = vec![0usize; clusters.len()];
    let runs = segment_runs(&clusters, &choices);
    assert_eq!(summary(&runs), vec![("hello, world".to_string(), 0)]);
}

#[test]
fn word_then_emoji_gives_two_runs() {
    let clusters = clusters_of("hello\u{1F30E}");
    assert_eq!(clusters.len(), 6);
    let choices = vec![0, 0, 0, 0, 0, 1];
    let runs = segment_runs(&clusters, &choices);
    assert_eq!(
        summary(&runs),
        vec![("hello".to_string(), 0), ("\u{1F30E}".to_string(), 1)]
    );
}

#[test]
fn capability_reverting_gives_a_third_run() {
    let clusters = clusters_of("ab\u{1F30E}cd");
    let choices = vec![0, 0, 1, 0, 0];
    let runs = segment_runs(&clusters, &choices);
    assert_eq!(
        summary(&runs),
        vec![
            ("ab".to_string(), 0),
            ("\u{1F30E}".to_string(), 1),
            ("cd".to_string(), 0)
        ]
    );
}

#[test]
fn runs_rejoin_to_the_input() {
    let text = "x\u{1F600}\u{1F600}yz\u{05D0}w";
    let clusters = clusters_of(text);
    let choices = vec![0, 2, 2, 0, 0, 1, 0];
    let runs = segment_runs(&clusters, &choices);
    let joined: String = runs.iter().map(|r| r.text.as_str()).collect();
    assert_eq!(joined, text);
    assert_eq!(runs.len(), 5);
}

#[test]
fn first_capable_font_is_chosen() {
    assert_eq!(choose_font(&vec![false, true, true]), 1);
    assert_eq!(choose_font(&vec![true, false]), 0);
}

#[test]
fn no_capable_font_falls_back_to_last() {
    assert_eq!(choose_font(&vec![false, false, false]), 2);
    assert_eq!(choose_font(&vec![false]), 0);
}

#[test]
fn cluster_renders_when_any_glyph_is_real() {
    let g = |id: u32| EngineGlyph { glyph_id: id, cluster: 0, x_advance: 0, y_advance: 0, x_offset: 0, y_offset: 0 };
    assert!(renders_cluster(&vec![g(0), g(0), g(17)]));
    assert!(!renders_cluster(&vec![g(0), g(0)]));
    assert!(!renders_cluster(&vec![]));
}

#[test]
fn unreadable_font_renders_nothing() {
    assert!(!can_render(&junk_font(), "a", &latin(false)));
}

#[test]
fn unreadable_fonts_default_to_last_candidate() {
    let fonts = vec![junk_font(), junk_font()];
    let runs = segment_text("ab c", &fonts, &latin(false));
    assert_eq!(summary(&runs), vec![("ab c".to_string(), 1)]);
    assert!(segment_text("", &fonts, &latin(false)).is_empty());
}
