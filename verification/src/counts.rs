use crate::counter::opt_nat;
use crate::counter::render_line;
use crate::counter::CommandCounts;
use crate::counter::Counter;
use crate::counter::CounterView;
use crate::counter::CountsView;
use crate::counter::spec_max_count;
use crate::counter::spec_render_entry;
use crate::render::column_width;
use crate::render::spec_col_width;
use vstd::prelude::*;
use vstd::string::StrSliceExecFns;
use vstd::string::StringExecFns;

verus! {

/// The elementwise sum of two optional counts: both absent stays absent,
/// one present is kept, both present are added.
pub open spec fn spec_opt_sum(a: Option<nat>, b: Option<nat>) -> Option<nat> {
    match (a, b) {
        (Some(x), Some(y)) => Some((x + y) as nat),
        (Some(x), None) => Some(x),
        (None, Some(y)) => Some(y),
        (None, None) => None,
    }
}

/// The metric-by-metric sum of two count entries.
pub open spec fn spec_merge(a: CountsView, b: CountsView) -> CountsView {
    CountsView {
        lines: spec_opt_sum(a.lines, b.lines),
        words: spec_opt_sum(a.words, b.words),
        chars: spec_opt_sum(a.chars, b.chars),
        bytes: spec_opt_sum(a.bytes, b.bytes),
    }
}

/// The entry with no count at all, the unit of merging.
pub open spec fn spec_empty_counts() -> CountsView {
    CountsView { lines: None, words: None, chars: None, bytes: None }
}

/// The left-to-right merge of a sequence of count entries, starting from
/// the empty entry.
pub open spec fn spec_merge_seq(s: Seq<CountsView>) -> CountsView
    decreases s.len(),
{
    if s.len() == 0 {
        spec_empty_counts()
    } else {
        spec_merge(spec_merge_seq(s.drop_last()), s.last())
    }
}

/// Every count present in `v` fits in a `usize`.
pub open spec fn spec_fits_usize(v: CountsView) -> bool {
    &&& (v.lines matches Some(x) ==> x <= usize::MAX)
    &&& (v.words matches Some(x) ==> x <= usize::MAX)
    &&& (v.chars matches Some(x) ==> x <= usize::MAX)
    &&& (v.bytes matches Some(x) ==> x <= usize::MAX)
}

/// Merging is commutative: the order of the two entries does not affect
/// the metric-by-metric sums.
pub proof fn lemma_merge_commutative(a: CountsView, b: CountsView)
    ensures
        spec_merge(a, b) == spec_merge(b, a),
{
}

/// Merging is associative: summing three entries gives the same counts
/// whichever pair is merged first.
pub proof fn lemma_merge_associative(a: CountsView, b: CountsView, c: CountsView)
    ensures
        spec_merge(spec_merge(a, b), c) == spec_merge(a, spec_merge(b, c)),
{
}

/// The empty entry is the unit of merging.
pub proof fn lemma_merge_empty_left(v: CountsView)
    ensures
        spec_merge(spec_empty_counts(), v) == v,
{
}

/// Merging a two-entry sequence in either order yields the same total.
pub proof fn lemma_merge_pair_commutative(a: CountsView, b: CountsView)
    ensures
        spec_merge_seq(seq![a, b]) == spec_merge_seq(seq![b, a]),
{
    assert(seq![a, b].drop_last() =~= seq![a]);
    assert(seq![b, a].drop_last() =~= seq![b]);
    assert(seq![a].drop_last() =~= Seq::<CountsView>::empty());
    assert(seq![b].drop_last() =~= Seq::<CountsView>::empty());
    lemma_merge_empty_left(a);
    lemma_merge_empty_left(b);
    lemma_merge_commutative(a, b);
    assert(spec_merge_seq(seq![a]) == spec_merge(spec_merge_seq(Seq::<CountsView>::empty()), a));
    assert(spec_merge_seq(seq![b]) == spec_merge(spec_merge_seq(Seq::<CountsView>::empty()), b));
    assert(spec_merge_seq(seq![a, b]) == spec_merge(spec_merge_seq(seq![a]), b));
    assert(spec_merge_seq(seq![b, a]) == spec_merge(spec_merge_seq(seq![b]), a));
}

/// Pulling any one entry out of a fold merges the rest first: the fold of
/// `s` equals the fold of `s` without its `i`th entry, merged with that
/// entry.
proof fn lemma_merge_seq_remove(s: Seq<CountsView>, i: int)
    requires
        0 <= i < s.len(),
    ensures
        spec_merge_seq(s) == spec_merge(spec_merge_seq(s.remove(i)), s[i]),
    decreases s.len(),
{
    if i == s.len() - 1 {
        assert(s.remove(i) =~= s.drop_last());
    } else {
        let d = s.drop_last();
        lemma_merge_seq_remove(d, i);
        assert(s.remove(i).drop_last() =~= d.remove(i));
        assert(s.remove(i).last() == s.last());
        assert(d[i] == s[i]);
        lemma_merge_associative(spec_merge_seq(d.remove(i)), d[i], s.last());
        lemma_merge_commutative(d[i], s.last());
        lemma_merge_associative(spec_merge_seq(d.remove(i)), s.last(), d[i]);
        assert(spec_merge_seq(s.remove(i)) == spec_merge(spec_merge_seq(d.remove(i)), s.last()));
    }
}

/// Merging is invariant under permutation: two sequences holding the same
/// entries, in any orders, fold to the same total. The order in which the
/// per-file entries are merged therefore never affects the total.
pub proof fn lemma_merge_seq_permutation(s1: Seq<CountsView>, s2: Seq<CountsView>)
    requires
        s1.to_multiset() == s2.to_multiset(),
    ensures
        spec_merge_seq(s1) == spec_merge_seq(s2),
    decreases s1.len(),
{
    broadcast use vstd::seq_lib::group_to_multiset_ensures;

    assert(s1.len() == s1.to_multiset().len());
    assert(s2.len() == s2.to_multiset().len());
    if s1.len() > 0 {
        let li = s1.len() - 1;
        let x = s1[li];
        assert(s1.contains(x));
        assert(s1.to_multiset().count(x) > 0);
        assert(s2.to_multiset().count(x) > 0);
        assert(s2.contains(x));
        let i = choose|i: int| 0 <= i < s2.len() && s2[i] == x;
        lemma_merge_seq_remove(s1, li);
        lemma_merge_seq_remove(s2, i);
        assert(s1.remove(li).to_multiset() =~= s1.to_multiset().remove(x));
        assert(s2.remove(i).to_multiset() =~= s2.to_multiset().remove(x));
        lemma_merge_seq_permutation(s1.remove(li), s2.remove(i));
    }
}

spec fn opt_le(a: Option<nat>, b: Option<nat>) -> bool {
    match a {
        None => true,
        Some(x) => match b {
            Some(y) => x <= y,
            None => false,
        },
    }
}

spec fn counts_le(a: CountsView, b: CountsView) -> bool {
    &&& opt_le(a.lines, b.lines)
    &&& opt_le(a.words, b.words)
    &&& opt_le(a.chars, b.chars)
    &&& opt_le(a.bytes, b.bytes)
}

proof fn lemma_merge_le(a: CountsView, b: CountsView)
    ensures
        counts_le(a, spec_merge(a, b)),
{
}

proof fn lemma_counts_le_trans(a: CountsView, b: CountsView, c: CountsView)
    requires
        counts_le(a, b),
        counts_le(b, c),
    ensures
        counts_le(a, c),
{
}

/// A prefix of a merged sequence never exceeds the whole.
proof fn lemma_merge_seq_take_le(s: Seq<CountsView>, j: int)
    requires
        0 <= j <= s.len(),
    ensures
        counts_le(spec_merge_seq(s.take(j)), spec_merge_seq(s)),
    decreases s.len() - j,
{
    if j == s.len() {
        assert(s.take(j) =~= s);
    } else {
        assert(s.take(j + 1).drop_last() =~= s.take(j));
        assert(s.take(j + 1).last() == s[j]);
        lemma_merge_le(spec_merge_seq(s.take(j)), s[j]);
        lemma_merge_seq_take_le(s, j + 1);
        lemma_counts_le_trans(
            spec_merge_seq(s.take(j)),
            spec_merge_seq(s.take(j + 1)),
            spec_merge_seq(s),
        );
    }
}

proof fn lemma_fits_le(a: CountsView, b: CountsView)
    requires
        counts_le(a, b),
        spec_fits_usize(b),
    ensures
        spec_fits_usize(a),
{
}

/// The elementwise sum of two optional machine counts.
fn add_opt(a: Option<usize>, b: Option<usize>) -> (r: Option<usize>)
    requires
        spec_opt_sum(opt_nat(a), opt_nat(b)) matches Some(v) ==> v <= usize::MAX,
    ensures
        opt_nat(r) == spec_opt_sum(opt_nat(a), opt_nat(b)),
{
    match (a, b) {
        (Some(x), Some(y)) => Some(x + y),
        (Some(x), None) => Some(x),
        (None, Some(y)) => Some(y),
        (None, None) => None,
    }
}

/// Sums two count entries metric by metric: a metric missing from one side
/// keeps the other side's count, a metric present in both is added.
pub fn merge_sum(map1: &CommandCounts, map2: &CommandCounts) -> (r: CommandCounts)
    requires
        spec_fits_usize(spec_merge(map1@, map2@)),
    ensures
        r@ == spec_merge(map1@, map2@),
{
    CommandCounts {
        lines: add_opt(map1.lines, map2.lines),
        words: add_opt(map1.words, map2.words),
        chars: add_opt(map1.chars, map2.chars),
        bytes: add_opt(map1.bytes, map2.bytes),
    }
}

/// The specification-level counts of a sequence of count entries.
pub open spec fn counts_views(s: Seq<CommandCounts>) -> Seq<CountsView> {
    s.map_values(|m: CommandCounts| m@)
}

/// Folds a whole sequence of count entries into their metric-by-metric
/// total, starting from the empty entry.
pub fn merge_sum_vec(maps: Vec<CommandCounts>) -> (r: CommandCounts)
    requires
        spec_fits_usize(spec_merge_seq(counts_views(maps@))),
    ensures
        r@ == spec_merge_seq(counts_views(maps@)),
{
    let ghost vs = counts_views(maps@);
    let mut out = CommandCounts { lines: None, words: None, chars: None, bytes: None };
    let mut i: usize = 0;
    proof {
        assert(vs.take(0) =~= Seq::<CountsView>::empty());
    }
    while i < maps.len()
        invariant
            i <= maps@.len(),
            vs == counts_views(maps@),
            vs.len() == maps@.len(),
            spec_fits_usize(spec_merge_seq(vs)),
            out@ == spec_merge_seq(vs.take(i as int)),
        decreases maps@.len() - i,
    {
        proof {
            assert(vs.take(i + 1).drop_last() =~= vs.take(i as int));
            assert(vs.take(i + 1).last() == vs[i as int]);
            assert(vs[i as int] == maps@[i as int]@);
            lemma_merge_seq_take_le(vs, i + 1);
            lemma_fits_le(spec_merge_seq(vs.take(i + 1)), spec_merge_seq(vs));
        }
        out = merge_sum(&out, &maps[i]);
        i = i + 1;
    }
    proof {
        assert(vs.take(maps@.len() as int) =~= vs);
    }
    out
}

/// The report: the per-file entries in the order their inputs were given,
/// followed by a synthetic total entry whenever more than one input was
/// counted.
#[derive(Debug, PartialEq)]
pub struct Counts {
    pub counts: Vec<Counter>,
}

/// The specification-level image of a sequence of entries.
pub open spec fn entry_views(s: Seq<Counter>) -> Seq<CounterView> {
    s.map_values(|c: Counter| c@)
}

/// The counts of a sequence of entries.
pub open spec fn counter_counts_views(s: Seq<Counter>) -> Seq<CountsView> {
    s.map_values(|c: Counter| c.counts@)
}

/// The metric-by-metric total of a sequence of entries.
pub open spec fn spec_total_counts(s: Seq<Counter>) -> CountsView {
    spec_merge_seq(counter_counts_views(s))
}

/// The maximum count of a report's reference entry, which governs the
/// column width: the sole entry when there is exactly one, the trailing
/// total otherwise, and zero for an empty report.
pub open spec fn spec_ref_max(es: Seq<CounterView>) -> nat {
    if es.len() == 0 {
        0
    } else if es.len() == 1 {
        spec_max_count(es[0].counts)
    } else {
        spec_max_count(es.last().counts)
    }
}

/// All rendered entry lines in order, each terminated by a line break.
pub open spec fn spec_report_body(es: Seq<CounterView>, w: nat) -> Seq<char>
    decreases es.len(),
{
    if es.len() == 0 {
        Seq::empty()
    } else {
        spec_report_body(es.drop_last(), w) + spec_render_entry(es.last(), w) + seq!['\n']
    }
}

/// The finished report text: every entry line at the uniform column width
/// that the reference entry's maximum fixes, joined by line breaks. The
/// body ends each line with a line break; exactly the final one is
/// removed, so an entry's label keeps any whitespace of its own.
pub open spec fn spec_report(es: Seq<CounterView>) -> Seq<char> {
    if es.len() == 0 {
        Seq::empty()
    } else {
        spec_report_body(es, spec_col_width(spec_ref_max(es))).drop_last()
    }
}

/// A single-entry report renders exactly as the entry renders alone: the
/// column width is its own largest count's, and no line break remains.
pub proof fn lemma_single_entry_report(e: CounterView)
    ensures
        spec_report(seq![e]) == spec_render_entry(e, spec_col_width(spec_max_count(e.counts))),
{
    let w = spec_col_width(spec_ref_max(seq![e]));
    assert(spec_ref_max(seq![e]) == spec_max_count(e.counts));
    assert(seq![e].drop_last() =~= Seq::<CounterView>::empty());
    assert(spec_report_body(Seq::<CounterView>::empty(), w) == Seq::<char>::empty());
    assert(seq![e].last() == e);
    assert(spec_report_body(seq![e], w) == Seq::<char>::empty() + spec_render_entry(e, w)
        + seq!['\n']);
    assert(spec_report_body(seq![e], w).drop_last() =~= spec_render_entry(e, w));
}

impl Counts {
    /// Assembles the report from the per-file entries: a single entry
    /// stands alone, while several entries get a trailing entry labeled
    /// "total" holding their metric-by-metric sum.
    pub fn from_counters(counters: Vec<Counter>) -> (r: Counts)
        requires
            counters@.len() != 1 ==> spec_fits_usize(spec_total_counts(counters@)),
        ensures
            counters@.len() == 1 ==> r.counts@ == counters@,
            counters@.len() != 1 ==> r.counts@.len() == counters@.len() + 1,
            counters@.len() != 1 ==> (forall|i: int|
                0 <= i < counters@.len() ==> r.counts@[i] == counters@[i]),
            counters@.len() != 1 ==> r.counts@.last().counts@ == spec_total_counts(counters@),
            counters@.len() != 1 ==> r.counts@.last().file@ == "total"@,
    {
        if counters.len() == 1 {
            return Counts { counts: counters };
        }
        let mut maps: Vec<CommandCounts> = Vec::new();
        let mut i: usize = 0;
        while i < counters.len()
            invariant
                i <= counters@.len(),
                maps@.len() == i,
                forall|j: int| 0 <= j < i ==> maps@[j] == counters@[j].counts,
            decreases counters@.len() - i,
        {
            maps.push(counters[i].counts);
            i = i + 1;
        }
        proof {
            assert(counts_views(maps@) =~= counter_counts_views(counters@));
        }
        let total_counts = merge_sum_vec(maps);
        let total = Counter { file: "total".to_owned(), counts: total_counts };
        let mut all = counters;
        all.push(total);
        Counts { counts: all }
    }

    /// The maximum count of the reference entry, from which the column
    /// width is computed. A value of zero signals the degenerate
    /// "no counts calculated" report.
    pub fn reference_max(&self) -> (r: usize)
        ensures
            r as nat == spec_ref_max(entry_views(self.counts@)),
    {
        let n = self.counts.len();
        if n == 1 {
            self.counts[0].counts.max_value()
        } else if n > 0 {
            self.counts[n - 1].counts.max_value()
        } else {
            0
        }
    }

    /// Renders the whole report: one line per entry in order, all columns
    /// at the uniform width the reference entry fixes, lines joined by
    /// line breaks and none after the final entry.
    pub fn to_string(self) -> (r: String)
        ensures
            r@ == spec_report(entry_views(self.counts@)),
    {
        let ghost es = entry_views(self.counts@);
        let m = self.reference_max();
        let w = column_width(m);
        let n = self.counts.len();
        let mut out = String::new();
        let mut i: usize = 0;
        proof {
            assert(es.take(0) =~= Seq::<CounterView>::empty());
        }
        while i < n
            invariant
                i <= n,
                n == self.counts@.len(),
                es == entry_views(self.counts@),
                es.len() == n,
                w as nat == spec_col_width(spec_ref_max(es)),
                out@ == spec_report_body(es.take(i as int), w as nat),
            decreases n - i,
        {
            let line = render_line(&self.counts[i], w);
            out.append(line.as_str());
            out.append("\n");
            proof {
                reveal_strlit("\n");
                assert("\n"@ =~= seq!['\n']);
                assert(es.take(i + 1).drop_last() =~= es.take(i as int));
                assert(es.take(i + 1).last() == es[i as int]);
                assert(es[i as int] == self.counts@[i as int]@);
                assert(out@ =~= spec_report_body(es.take(i + 1), w as nat));
            }
            i = i + 1;
        }
        proof {
            assert(es.take(n as int) =~= es);
        }
        if n == 0 {
            return out;
        }
        proof {
            assert(out@.len() >= 1);
        }
        let len = out.as_str().unicode_len();
        let body = out.as_str().substring_char(0, len - 1);
        proof {
            assert(out@.subrange(0, out@.len() - 1) =~= out@.drop_last());
        }
        body.to_owned()
    }
}

} // verus!
