use vstd::prelude::*;
use vstd::string::StrSliceExecFns;
use crate::segment::{flatten, strings_view};

verus! {

/// The extended grapheme clusters of a text, as unicode-segmentation finds them.
pub uninterp spec fn graphemes_of(text: Seq<char>) -> Seq<Seq<char>>;

/// Relies on unicode_segmentation's `graphemes(true)`: the extended grapheme
/// clusters are non-empty slices that follow each other and cover the text.
#[verifier::external_body]
fn grapheme_clusters(text: &str) -> (r: Vec<String>)
    ensures
        strings_view(r@) == graphemes_of(text@),
        flatten(strings_view(r@)) == text@,
        forall|i: int| 0 <= i < r@.len() ==> #[trigger] r@[i]@.len() > 0,
{
    unicode_segmentation::UnicodeSegmentation::graphemes(text, true).map(|g| g.to_owned()).collect()
}

/// Splits a text into its grapheme clusters, in logical order.
pub fn clusters_of(text: &str) -> (r: Vec<String>)
    ensures
        strings_view(r@) == graphemes_of(text@),
        flatten(strings_view(r@)) == text@,
        forall|i: int| 0 <= i < r@.len() ==> #[trigger] r@[i]@.len() > 0,
        r@.len() == 0 <==> text@.len() == 0,
{
    let r = grapheme_clusters(text);
    proof {
        if r@.len() > 0 {
            lemma_flatten_nonempty(strings_view(r@));
        }
    }
    r
}

proof fn lemma_flatten_nonempty(parts: Seq<Seq<char>>)
    requires
        parts.len() > 0,
        parts.last().len() > 0,
    ensures
        flatten(parts).len() > 0,
{
}

/// Whether unicode-bidi finds, in the text taken as one paragraph, a
/// character of bidi class R, AL or AN, or an explicit embedding, override or
/// isolate control. Without one, a paragraph that is not forced right to left
/// resolves every character to a left-to-right level.
pub uninterp spec fn has_rtl_of(text: Seq<char>) -> bool;

/// The text in display order, resolved as one paragraph whose base direction
/// is given (`Some(true)` for right to left) or, for `None`, taken from its
/// first strong character.
pub uninterp spec fn visual_of(text: Seq<char>, base: Option<bool>) -> Seq<char>;

/// Relies on unicode_bidi::ParagraphBidiInfo::has_rtl: whether the text holds
/// a right-to-left letter, an Arabic number, or an explicit bidi control
/// other than a pop.
#[verifier::external_body]
fn bidi_has_rtl(text: &str) -> (r: bool)
    ensures
        r == has_rtl_of(text@),
{
    unicode_bidi::ParagraphBidiInfo::new(text, None).has_rtl()
}

/// Relies on unicode_bidi::ParagraphBidiInfo::reorder_line over the whole
/// text: the text in display order, with the base direction given as the
/// paragraph's default level.
#[verifier::external_body]
fn bidi_visual(text: &str, base: Option<bool>) -> (r: String)
    ensures
        r@ == visual_of(text@, base),
{
    let level = base.map(|rtl| if rtl { unicode_bidi::Level::rtl() } else { unicode_bidi::Level::ltr() });
    unicode_bidi::ParagraphBidiInfo::new(text, level).reorder_line(0..text.len()).into_owned()
}

/// The resolved bidi level of each character of the text taken as one
/// paragraph, with the base direction given or, for `None`, detected.
pub uninterp spec fn levels_of(text: Seq<char>, base: Option<bool>) -> Seq<u8>;

/// Relies on unicode_bidi::ParagraphBidiInfo::reordered_levels_per_char over
/// the whole text (the levels after rule L1): one level per character.
#[verifier::external_body]
fn bidi_levels(text: &str, base: Option<bool>) -> (r: Vec<u8>)
    ensures
        r@ == levels_of(text@, base),
        r@.len() == text@.len(),
{
    let level = base.map(|rtl| if rtl { unicode_bidi::Level::rtl() } else { unicode_bidi::Level::ltr() });
    let info = unicode_bidi::ParagraphBidiInfo::new(text, level);
    info.reordered_levels_per_char(0..text.len()).iter().map(|l| l.number()).collect()
}

/// The display order of items at the given levels (rule L2): the logical
/// index shown at each visual position.
pub uninterp spec fn visual_index_of(levels: Seq<u8>) -> Seq<usize>;

/// `order` lists each of `0..n` exactly once.
pub open spec fn is_permutation(order: Seq<usize>, n: nat) -> bool {
    &&& order.len() == n
    &&& forall|i: int| 0 <= i < n ==> #[trigger] order[i] < n
    &&& forall|i: int, j: int| 0 <= i < j < n ==> order[i] != order[j]
}

/// Every level is one that unicode-bidi's `Level::new` accepts.
pub open spec fn levels_in_range(levels: Seq<u8>) -> bool {
    forall|k: int| 0 <= k < levels.len() ==> #[trigger] levels[k] <= 126
}

/// Relies on unicode_bidi::ParagraphBidiInfo::reorder_visual, the levels made
/// with unicode_bidi::Level::new, which refuses a level above 126: the
/// identity map with contiguous spans reversed, so a permutation.
#[verifier::external_body]
fn bidi_visual_order(levels: &Vec<u8>) -> (r: Option<Vec<usize>>)
    ensures
        r matches Some(o) ==> o@ == visual_index_of(levels@),
        r matches Some(o) ==> is_permutation(o@, levels@.len()),
        r is None <==> !levels_in_range(levels@),
{
    let parsed: Option<Vec<unicode_bidi::Level>> = levels.iter().map(|&n| unicode_bidi::Level::new(n).ok()).collect();
    Some(unicode_bidi::ParagraphBidiInfo::reorder_visual(&parsed?))
}

/// The position, in characters, at which cluster `k` starts.
pub open spec fn char_offset(clusters: Seq<Seq<char>>, k: int) -> int {
    flatten(clusters.take(k)).len() as int
}

/// The level of each cluster: that of its first character.
pub open spec fn cluster_levels(clusters: Seq<Seq<char>>, levels: Seq<u8>) -> Seq<u8> {
    Seq::new(clusters.len(), |k: int| levels[char_offset(clusters, k)])
}

/// The clusters joined in the given order.
pub open spec fn arranged(clusters: Seq<Seq<char>>, order: Seq<usize>) -> Seq<char> {
    flatten(order.map_values(|i: usize| clusters[i as int]))
}

/// The text with its grapheme clusters, kept whole, in display order; when a
/// level is out of unicode-bidi's range, the text reordered by character.
pub open spec fn cluster_visual_spec(text: Seq<char>, base: Option<bool>) -> Seq<char> {
    let cl = graphemes_of(text);
    let lv = cluster_levels(cl, levels_of(text, base));
    if levels_in_range(lv) {
        arranged(cl, visual_index_of(lv))
    } else {
        visual_of(text, base)
    }
}

proof fn lemma_flatten_prefix(parts: Seq<Seq<char>>, k: int)
    requires
        0 <= k < parts.len(),
    ensures
        flatten(parts.take(k + 1)) == flatten(parts.take(k)) + parts[k],
        flatten(parts.take(k + 1)).len() <= flatten(parts).len(),
    decreases parts.len() - k,
{
    assert(parts.take(k + 1).drop_last() =~= parts.take(k));
    if k + 1 < parts.len() {
        lemma_flatten_prefix(parts, k + 1);
    } else {
        assert(parts.take(k + 1) =~= parts);
    }
}

fn levels_per_cluster(clusters: &Vec<String>, levels: &Vec<u8>) -> (r: Vec<u8>)
    requires
        flatten(strings_view(clusters@)).len() == levels@.len(),
        forall|i: int| 0 <= i < clusters@.len() ==> #[trigger] clusters@[i]@.len() > 0,
    ensures
        r@ == cluster_levels(strings_view(clusters@), levels@),
{
    let ghost cl = strings_view(clusters@);
    let mut out: Vec<u8> = Vec::new();
    let mut offset: usize = 0;
    let mut k: usize = 0;
    assert(cl.take(0) =~= Seq::<Seq<char>>::empty());
    while k < clusters.len()
        invariant
            k <= clusters@.len(),
            cl == strings_view(clusters@),
            flatten(cl).len() == levels@.len(),
            forall|i: int| 0 <= i < clusters@.len() ==> #[trigger] clusters@[i]@.len() > 0,
            offset == char_offset(cl, k as int),
            out@ =~= cluster_levels(cl, levels@).take(k as int),
        decreases clusters@.len() - k,
    {
        proof {
            lemma_flatten_prefix(cl, k as int);
            assert(cl[k as int] == clusters@[k as int]@);
        }
        out.push(levels[offset]);
        let n = clusters[k].as_str().unicode_len();
        let total = levels.len();
        assert(offset + n <= total);
        offset = offset + n;
        k = k + 1;
    }
    out
}

proof fn lemma_flatten_take_push(parts: Seq<Seq<char>>, i: int)
    requires
        0 <= i < parts.len(),
    ensures
        flatten(parts.take(i + 1)) == flatten(parts.take(i)) + parts[i],
{
    assert(parts.take(i + 1).drop_last() =~= parts.take(i));
}

fn arrange_clusters(clusters: &Vec<String>, order: &Vec<usize>) -> (r: String)
    requires
        forall|i: int| 0 <= i < order@.len() ==> #[trigger] order@[i] < clusters@.len(),
    ensures
        r@ == arranged(strings_view(clusters@), order@),
{
    let ghost cl = strings_view(clusters@);
    let ghost picked = order@.map_values(|i: usize| cl[i as int]);
    let mut out = String::new();
    let mut i: usize = 0;
    assert(picked.take(0) =~= Seq::<Seq<char>>::empty());
    while i < order.len()
        invariant
            i <= order@.len(),
            cl == strings_view(clusters@),
            picked == order@.map_values(|i: usize| cl[i as int]),
            forall|k: int| 0 <= k < order@.len() ==> #[trigger] order@[k] < clusters@.len(),
            out@ == flatten(picked.take(i as int)),
        decreases order@.len() - i,
    {
        let c = &clusters[order[i]];
        proof {
            lemma_flatten_take_push(picked, i as int);
            assert(picked[i as int] == c@);
        }
        out.append(c.as_str());
        i = i + 1;
    }
    assert(picked.take(i as int) =~= picked);
    out
}

/// Puts the grapheme clusters of a text in display order, each kept whole.
pub fn visual_clusters(text: &str, base: Option<bool>) -> (r: String)
    ensures
        r@ == cluster_visual_spec(text@, base),
{
    let clusters = clusters_of(text);
    let levels = bidi_levels(text, base);
    let lv = levels_per_cluster(&clusters, &levels);
    match bidi_visual_order(&lv) {
        Some(order) => {
            arrange_clusters(&clusters, &order)
        },
        None => {
            bidi_visual(text, base)
        },
    }
}

/// How bidirectional text reaches the shaper.
#[derive(Clone, Copy, Debug, PartialEq, Eq, Structural)]
pub enum BidiStrategy {
    /// Shape the logical text and let the engine handle the run's direction.
    PassThrough,
    /// Reorder the clusters into display order first, then shape left to right.
    PreReorder,
}

/// The text handed to the segmenter under a strategy and a base direction.
pub open spec fn prepared_spec(text: Seq<char>, strategy: BidiStrategy, base: Option<bool>) -> Seq<char> {
    match strategy {
        BidiStrategy::PassThrough => text,
        BidiStrategy::PreReorder => if base == Some(true) || has_rtl_of(text) {
            cluster_visual_spec(text, base)
        } else {
            text
        },
    }
}

/// Prepares a text for segmentation: unchanged under pass-through; its
/// grapheme clusters in display order under pre-reordering, for the base direction given (or detected, for
/// `None`). A text that cannot hold a right-to-left level, in a paragraph not
/// forced right to left, is left as it is.
pub fn prepare_text(text: &str, strategy: BidiStrategy, base: Option<bool>) -> (r: String)
    ensures
        r@ == prepared_spec(text@, strategy, base),
{
    match strategy {
        BidiStrategy::PassThrough => text.to_owned(),
        BidiStrategy::PreReorder => {
            let forced_rtl = match base {
                Some(rtl) => rtl,
                None => false,
            };
            if forced_rtl || bidi_has_rtl(text) {
                visual_clusters(text, base)
            } else {
                text.to_owned()
            }
        },
    }
}

/// Pre-reordering a left-to-right text (one without right-to-left letters,
/// Arabic numbers or explicit bidi controls) in a paragraph not forced right
/// to left keeps it as it is: the output order equals the input order.
pub proof fn lemma_pre_reorder_ltr_is_identity(text: Seq<char>, base: Option<bool>)
    requires
        !has_rtl_of(text),
        base != Some(true),
    ensures
        prepared_spec(text, BidiStrategy::PreReorder, base) == text,
{
}

/// Whether a layout under a strategy shapes its runs right to left: only a
/// pass-through layout in a right-to-left paragraph does.
pub open spec fn shapes_rtl(strategy: BidiStrategy, rtl: bool) -> bool {
    strategy == BidiStrategy::PassThrough && rtl
}

} // verus!
