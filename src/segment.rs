use vstd::prelude::*;

verus! {

/// The concatenation, in order, of a sequence of character sequences.
pub open spec fn flatten(parts: Seq<Seq<char>>) -> Seq<char>
    decreases parts.len(),
{
    if parts.len() == 0 {
        Seq::<char>::empty()
    } else {
        flatten(parts.drop_last()) + parts.last()
    }
}

/// A maximal span of logical text drawn with one candidate font.
pub struct Run {
    pub text: String,
    /// Index into the ordered candidate list: 0 is the primary font.
    pub font: usize,
}

impl View for Run {
    type V = (Seq<char>, usize);

    open spec fn view(&self) -> (Seq<char>, usize) {
        (self.text@, self.font)
    }
}

pub open spec fn runs_view(runs: Seq<Run>) -> Seq<(Seq<char>, usize)> {
    runs.map_values(|r: Run| r@)
}

pub open spec fn strings_view(s: Seq<String>) -> Seq<Seq<char>> {
    s.map_values(|x: String| x@)
}

pub open spec fn run_texts(runs: Seq<(Seq<char>, usize)>) -> Seq<Seq<char>> {
    runs.map_values(|r: (Seq<char>, usize)| r.0)
}

/// Runs obtained by walking the clusters in logical order and extending the
/// current run while the chosen font stays the same.
pub open spec fn segment_spec(clusters: Seq<Seq<char>>, choices: Seq<usize>) -> Seq<(Seq<char>, usize)>
    decreases clusters.len(),
{
    if clusters.len() == 0 {
        Seq::empty()
    } else {
        let prev = segment_spec(clusters.drop_last(), choices.take(clusters.len() - 1));
        let c = clusters.last();
        let f = choices[clusters.len() - 1];
        if prev.len() > 0 && prev.last().1 == f {
            prev.update(prev.len() - 1, (prev.last().0 + c, f))
        } else {
            prev.push((c, f))
        }
    }
}

/// The index of the first candidate that can render a cluster, or the last
/// candidate when none can.
pub open spec fn chosen_font(support: Seq<bool>) -> int
    decreases support.len(),
{
    if support.len() <= 1 || support[0] {
        0
    } else {
        1 + chosen_font(support.drop_first())
    }
}

proof fn lemma_chosen_font_shift(support: Seq<bool>, i: int)
    requires
        0 <= i < support.len(),
        forall|j: int| 0 <= j < i ==> !support[j],
    ensures
        chosen_font(support) == i + chosen_font(support.subrange(i, support.len() as int)),
    decreases i,
{
    if i > 0 {
        let rest = support.drop_first();
        assert(rest.subrange(i - 1, rest.len() as int) =~= support.subrange(i, support.len() as int));
        lemma_chosen_font_shift(rest, i - 1);
    } else {
        assert(support.subrange(0, support.len() as int) =~= support);
    }
}

/// Picks the font for one cluster from the capability of each candidate, in
/// priority order: the first capable candidate, else the last one.
pub fn choose_font(support: &Vec<bool>) -> (r: usize)
    requires
        support@.len() > 0,
    ensures
        r == chosen_font(support@),
        r < support@.len(),
        forall|j: int| 0 <= j < r ==> !support@[j],
        support@[r as int] || r == support@.len() - 1,
{
    let mut i: usize = 0;
    while i < support.len() - 1 && !support[i]
        invariant
            i < support@.len(),
            forall|j: int| 0 <= j < i ==> !support@[j],
        decreases support@.len() - i,
    {
        i = i + 1;
    }
    proof {
        lemma_chosen_font_shift(support@, i as int);
    }
    i
}

proof fn lemma_flatten_push(parts: Seq<Seq<char>>, x: Seq<char>)
    ensures
        flatten(parts.push(x)) == flatten(parts) + x,
{
    assert(parts.push(x).drop_last() =~= parts);
}

/// Merges consecutive clusters that chose the same font into runs.
pub fn segment_runs(clusters: &Vec<String>, choices: &Vec<usize>) -> (runs: Vec<Run>)
    requires
        clusters@.len() == choices@.len(),
    ensures
        runs_view(runs@) == segment_spec(strings_view(clusters@), choices@),
{
    let ghost cl = strings_view(clusters@);
    let mut runs: Vec<Run> = Vec::new();
    let mut i: usize = 0;
    while i < clusters.len()
        invariant
            i <= clusters@.len(),
            clusters@.len() == choices@.len(),
            cl == strings_view(clusters@),
            runs_view(runs@) == segment_spec(cl.take(i as int), choices@.take(i as int)),
        decreases clusters@.len() - i,
    {
        let c = &clusters[i];
        let f = choices[i];
        let ghost prev = runs_view(runs@);
        proof {
            let t = cl.take(i + 1);
            assert(t.drop_last() =~= cl.take(i as int));
            assert(choices@.take(i + 1).take(i as int) =~= choices@.take(i as int));
        }
        let n = runs.len();
        if n > 0 && runs[n - 1].font == f {
            let mut last = runs.pop().unwrap();
            last.text.append(c.as_str());
            runs.push(last);
            assert(runs_view(runs@) =~= prev.update(prev.len() - 1, (prev.last().0 + c@, f)));
        } else {
            runs.push(Run { text: c.clone(), font: f });
            assert(runs_view(runs@) =~= prev.push((c@, f)));
        }
        i = i + 1;
    }
    assert(cl.take(i as int) =~= cl);
    assert(choices@.take(i as int) =~= choices@);
    runs
}

proof fn lemma_segment_last_font(clusters: Seq<Seq<char>>, choices: Seq<usize>)
    requires
        clusters.len() > 0,
        choices.len() >= clusters.len(),
    ensures
        segment_spec(clusters, choices).len() > 0,
        segment_spec(clusters, choices).last().1 == choices[clusters.len() - 1],
{
}

/// Every run text is the concatenation of the clusters it covers, so joining
/// the run texts in order gives back the joined clusters.
pub proof fn lemma_runs_reconstruct_clusters(clusters: Seq<Seq<char>>, choices: Seq<usize>)
    requires
        choices.len() == clusters.len(),
    ensures
        flatten(run_texts(segment_spec(clusters, choices))) == flatten(clusters),
    decreases clusters.len(),
{
    if clusters.len() > 0 {
        let n = clusters.len() - 1;
        let init = clusters.drop_last();
        let ch = choices.take(n as int);
        let prev = segment_spec(init, ch);
        lemma_runs_reconstruct_clusters(init, ch);
        let c = clusters.last();
        let f = choices[n as int];
        let pt = run_texts(prev);
        if prev.len() > 0 && prev.last().1 == f {
            let upd = prev.update(prev.len() - 1, (prev.last().0 + c, f));
            assert(run_texts(upd) =~= pt.drop_last().push(prev.last().0 + c));
            lemma_flatten_push(pt.drop_last(), prev.last().0 + c);
            assert(pt.drop_last().push(pt.last()) =~= pt);
            lemma_flatten_push(pt.drop_last(), pt.last());
            assert(flatten(pt.drop_last()) + (prev.last().0 + c) =~= (flatten(pt.drop_last()) + prev.last().0) + c);
        } else {
            assert(run_texts(prev.push((c, f))) =~= pt.push(c));
            lemma_flatten_push(pt, c);
        }
    }
}

proof fn lemma_uniform_block(clusters: Seq<Seq<char>>, choices: Seq<usize>, i: int, j: int, g: usize)
    requires
        0 <= i < j <= clusters.len(),
        choices.len() == clusters.len(),
        forall|k: int| i <= k < j ==> choices[k] == g,
        i == 0 || choices[i - 1] != g,
    ensures
        segment_spec(clusters.take(j), choices.take(j))
            == segment_spec(clusters.take(i), choices.take(i)).push((flatten(clusters.subrange(i, j)), g)),
    decreases j - i,
{
    let t = clusters.take(j);
    assert(t.drop_last() =~= clusters.take(j - 1));
    assert(choices.take(j).take(j - 1) =~= choices.take(j - 1));
    if i > 0 {
        lemma_segment_last_font(clusters.take(i), choices.take(i));
    }
    if j == i + 1 {
        assert(t.drop_last() =~= clusters.take(i));
        let one = clusters.subrange(i, j);
        assert(one.drop_last() =~= Seq::<Seq<char>>::empty());
        assert(Seq::<char>::empty() + clusters[i] =~= clusters[i]);
        assert(one.last() == clusters[i]);
        assert(flatten(one.drop_last()) == Seq::<char>::empty());
        assert(flatten(one) == clusters[i]);
        assert(choices.take(j)[j - 1] == g);
        assert(t.last() == clusters[i]);
    } else {
        lemma_uniform_block(clusters, choices, i, j - 1, g);
        let sub = clusters.subrange(i, j);
        assert(sub.drop_last() =~= clusters.subrange(i, j - 1));
        let base = segment_spec(clusters.take(i), choices.take(i));
        let prev = base.push((flatten(clusters.subrange(i, j - 1)), g));
        assert(choices.take(j)[j - 1] == g);
        assert(t.last() == clusters[j - 1]);
        assert(sub.last() == clusters[j - 1]);
        assert(segment_spec(t, choices.take(j)) == prev.update(prev.len() - 1, (prev.last().0 + clusters[j - 1], g)));
        assert(prev.update(prev.len() - 1, (prev.last().0 + clusters[j - 1], g))
            =~= base.push((flatten(sub), g)));
    }
}

/// When every cluster chose the primary font, the segmenter yields exactly one
/// run, tagged primary, that holds the whole text.
pub proof fn lemma_all_primary_single_run(clusters: Seq<Seq<char>>, choices: Seq<usize>)
    requires
        clusters.len() > 0,
        choices.len() == clusters.len(),
        forall|k: int| 0 <= k < choices.len() ==> choices[k] == 0,
    ensures
        segment_spec(clusters, choices) == seq![(flatten(clusters), 0usize)],
{
    let n = clusters.len() as int;
    lemma_uniform_block(clusters, choices, 0, n, 0);
    assert(clusters.take(n) =~= clusters);
    assert(choices.take(n) =~= choices);
    assert(clusters.subrange(0, n) =~= clusters);
    assert(segment_spec(clusters.take(0), choices.take(0)) =~= Seq::empty());
    assert(Seq::<(Seq<char>, usize)>::empty().push((flatten(clusters), 0usize)) =~= seq![(flatten(clusters), 0usize)]);
}

/// A switch of capability after the first `a` clusters, from the primary font
/// to a fallback `f`, yields exactly two runs, the second tagged `f`.
pub proof fn lemma_fallback_switch_two_runs(clusters: Seq<Seq<char>>, choices: Seq<usize>, a: int, f: usize)
    requires
        0 < a < clusters.len(),
        choices.len() == clusters.len(),
        f != 0,
        forall|k: int| 0 <= k < a ==> choices[k] == 0,
        forall|k: int| a <= k < choices.len() ==> choices[k] == f,
    ensures
        segment_spec(clusters, choices) == seq![
            (flatten(clusters.take(a)), 0usize),
            (flatten(clusters.subrange(a, clusters.len() as int)), f),
        ],
{
    let n = clusters.len() as int;
    lemma_uniform_block(clusters, choices, 0, a, 0);
    lemma_uniform_block(clusters, choices, a, n, f);
    assert(clusters.take(n) =~= clusters);
    assert(choices.take(n) =~= choices);
    assert(clusters.subrange(0, a) =~= clusters.take(a));
    assert(segment_spec(clusters.take(0), choices.take(0)) =~= Seq::empty());
    assert(segment_spec(clusters, choices) =~= seq![
        (flatten(clusters.take(a)), 0usize),
        (flatten(clusters.subrange(a, n)), f),
    ]);
}

/// When capability switches to a fallback `f` after `a` clusters and back to
/// the primary font after `b`, a third run, tagged primary, appears.
pub proof fn lemma_fallback_revert_three_runs(
    clusters: Seq<Seq<char>>,
    choices: Seq<usize>,
    a: int,
    b: int,
    f: usize,
)
    requires
        0 < a < b < clusters.len(),
        choices.len() == clusters.len(),
        f != 0,
        forall|k: int| 0 <= k < a ==> choices[k] == 0,
        forall|k: int| a <= k < b ==> choices[k] == f,
        forall|k: int| b <= k < choices.len() ==> choices[k] == 0,
    ensures
        segment_spec(clusters, choices) == seq![
            (flatten(clusters.take(a)), 0usize),
            (flatten(clusters.subrange(a, b)), f),
            (flatten(clusters.subrange(b, clusters.len() as int)), 0usize),
        ],
{
    let n = clusters.len() as int;
    lemma_uniform_block(clusters, choices, 0, a, 0);
    lemma_uniform_block(clusters, choices, a, b, f);
    lemma_uniform_block(clusters, choices, b, n, 0);
    assert(clusters.take(n) =~= clusters);
    assert(choices.take(n) =~= choices);
    assert(clusters.subrange(0, a) =~= clusters.take(a));
    assert(segment_spec(clusters.take(0), choices.take(0)) =~= Seq::empty());
    assert(segment_spec(clusters, choices) =~= seq![
        (flatten(clusters.take(a)), 0usize),
        (flatten(clusters.subrange(a, b)), f),
        (flatten(clusters.subrange(b, n)), 0usize),
    ]);
}

/// Every run of the segmentation carries one of the choices made for its
/// clusters, so a bound on the choices bounds the runs' fonts.
pub proof fn lemma_run_fonts_bounded(clusters: Seq<Seq<char>>, choices: Seq<usize>, n: usize)
    requires
        choices.len() == clusters.len(),
        forall|k: int| 0 <= k < choices.len() ==> choices[k] < n,
    ensures
        forall|r: int| 0 <= r < segment_spec(clusters, choices).len() ==> #[trigger] segment_spec(clusters, choices)[r].1 < n,
    decreases clusters.len(),
{
    if clusters.len() > 0 {
        let m = clusters.len() - 1;
        let ch = choices.take(m as int);
        lemma_run_fonts_bounded(clusters.drop_last(), ch, n);
        let prev = segment_spec(clusters.drop_last(), ch);
        let f = choices[m as int];
        let out = segment_spec(clusters, choices);
        assert forall|r: int| 0 <= r < out.len() implies #[trigger] out[r].1 < n by {
            if r < prev.len() && !(prev.len() > 0 && prev.last().1 == f && r == prev.len() - 1) {
                assert(prev[r].1 < n);
            }
        }
    }
}

/// Runs are made of non-empty clusters: there are none exactly when there is
/// no cluster, every run text is non-empty, and neighbouring runs have
/// different fonts.
pub proof fn lemma_runs_well_formed(clusters: Seq<Seq<char>>, choices: Seq<usize>)
    requires
        choices.len() == clusters.len(),
        forall|i: int| 0 <= i < clusters.len() ==> (#[trigger] clusters[i]).len() > 0,
    ensures
        segment_spec(clusters, choices).len() == 0 <==> clusters.len() == 0,
        forall|r: int| 0 <= r < segment_spec(clusters, choices).len() ==> (#[trigger] segment_spec(clusters, choices)[r]).0.len() > 0,
        forall|r: int| 0 < r < segment_spec(clusters, choices).len()
            ==> segment_spec(clusters, choices)[r - 1].1 != (#[trigger] segment_spec(clusters, choices)[r]).1,
    decreases clusters.len(),
{
    if clusters.len() > 0 {
        let m = clusters.len() - 1;
        let init = clusters.drop_last();
        let ch = choices.take(m as int);
        assert forall|i: int| 0 <= i < init.len() implies (#[trigger] init[i]).len() > 0 by {
            assert(init[i] == clusters[i]);
        }
        lemma_runs_well_formed(init, ch);
        let prev = segment_spec(init, ch);
        let c = clusters.last();
        assert(c == clusters[m as int]);
        let out = segment_spec(clusters, choices);
        assert forall|r: int| 0 <= r < out.len() implies (#[trigger] out[r]).0.len() > 0 by {
            if r < prev.len() {
                assert(prev[r].0.len() > 0);
            }
        }
        assert forall|r: int| 0 < r < out.len() implies out[r - 1].1 != (#[trigger] out[r]).1 by {
            if r < prev.len() {
                assert(prev[r - 1].1 != prev[r].1);
            }
        }
    }
}

} // verus!
