//! Latency and success metrics: a per-endpoint sample store with FIFO
//! trimming, and statistics — counts, min/max/average, and nearest-rank
//! percentiles over a sorted copy of the samples.

use vstd::prelude::*;
use vstd::multiset::Multiset;
use vstd::relations::{sorted_by, total_ordering};
use vstd::seq_lib::lemma_sorted_unique;
use vstd::seq_lib::lemma_multiset_commutative;
use crate::cache::spec_inc;
use crate::strutil::str_eq;

verus! {

/// One recorded request: its endpoint, how long it took, and whether it
/// succeeded.
#[derive(Debug)]
pub struct MetricSample {
    pub endpoint: String,
    pub duration_ms: u64,
    pub success: bool,
}

/// The order durations are sorted by.
pub open spec fn dur_le() -> spec_fn(u64, u64) -> bool {
    |x: u64, y: u64| x <= y
}

/// The durations of a sample list, in recording order.
pub open spec fn spec_durations(s: Seq<MetricSample>) -> Seq<u64> {
    s.map_values(|m: MetricSample| m.duration_ms)
}

/// Whether a sample counts as a success.
pub open spec fn sample_ok() -> spec_fn(MetricSample) -> bool {
    |m: MetricSample| m.success
}

/// The sum of a duration list.
pub open spec fn spec_sum(s: Seq<u64>) -> nat
    decreases s.len(),
{
    if s.len() == 0 {
        0
    } else {
        spec_sum(s.drop_last()) + s.last() as nat
    }
}

/// The smallest element of a non-empty duration list.
pub open spec fn spec_min_u64(s: Seq<u64>) -> u64
    recommends
        s.len() >= 1,
    decreases s.len(),
{
    if s.len() <= 1 {
        s[0]
    } else {
        let m = spec_min_u64(s.drop_last());
        if s.last() < m {
            s.last()
        } else {
            m
        }
    }
}

/// The largest element of a non-empty duration list.
pub open spec fn spec_max_u64(s: Seq<u64>) -> u64
    recommends
        s.len() >= 1,
    decreases s.len(),
{
    if s.len() <= 1 {
        s[0]
    } else {
        let m = spec_max_u64(s.drop_last());
        if s.last() > m {
            s.last()
        } else {
            m
        }
    }
}

/// A sum is bounded by the length times the largest possible element.
proof fn lemma_sum_bound(s: Seq<u64>)
    ensures
        spec_sum(s) <= s.len() * u64::MAX,
    decreases s.len(),
{
    if s.len() == 0 {
    } else {
        lemma_sum_bound(s.drop_last());
        assert((s.len() - 1) * u64::MAX + u64::MAX == s.len() * u64::MAX) by (nonlinear_arith);
    }
}

/// Statistics computed over one endpoint's samples.
#[derive(Debug, Clone, Copy, PartialEq, Eq, Structural)]
pub struct MetricStats {
    pub count: u64,
    pub success_count: u64,
    pub failure_count: u64,
    pub min_duration_ms: u64,
    pub max_duration_ms: u64,
    pub avg_duration_ms: u64,
    pub p50_duration_ms: u64,
    pub p95_duration_ms: u64,
    pub p99_duration_ms: u64,
}

/// The statistics a non-empty sample list yields: exact counts, the
/// extremes, the floored mean, and nearest-rank percentiles read from the
/// sorted duration list.
pub open spec fn spec_stats(samples: Seq<MetricSample>) -> MetricStats
    recommends
        1 <= samples.len() <= u64::MAX,
{
    let durs = spec_durations(samples);
    let sorted = durs.sort_by(dur_le());
    let n = samples.len() as int;
    MetricStats {
        count: n as u64,
        success_count: samples.filter(sample_ok()).len() as u64,
        failure_count: (n - samples.filter(sample_ok()).len()) as u64,
        min_duration_ms: spec_min_u64(durs),
        max_duration_ms: spec_max_u64(durs),
        avg_duration_ms: (spec_sum(durs) / n as nat) as u64,
        p50_duration_ms: sorted[n / 2],
        p95_duration_ms: sorted[n * 95 / 100],
        p99_duration_ms: sorted[n * 99 / 100],
    }
}

impl MetricStats {
    /// The empty-statistics sentinel: extremes at the type's ends, all
    /// counters at zero.
    pub open spec fn spec_new() -> MetricStats {
        MetricStats {
            count: 0,
            success_count: 0,
            failure_count: 0,
            min_duration_ms: u64::MAX,
            max_duration_ms: 0,
            avg_duration_ms: 0,
            p50_duration_ms: 0,
            p95_duration_ms: 0,
            p99_duration_ms: u64::MAX,
        }
    }

    pub fn new() -> (r: MetricStats)
        ensures
            r == MetricStats::spec_new(),
    {
        MetricStats {
            count: 0,
            success_count: 0,
            failure_count: 0,
            min_duration_ms: u64::MAX,
            max_duration_ms: 0,
            avg_duration_ms: 0,
            p50_duration_ms: 0,
            p95_duration_ms: 0,
            p99_duration_ms: u64::MAX,
        }
    }

    /// Fold one sample into the counters, extremes and running mean. The
    /// running mean is the integer-floored update
    /// `(avg * (count - 1) + duration) / count`; the percentile fields are
    /// untouched.
    pub fn add_sample(&mut self, sample: &MetricSample)
        requires
            old(self).count < u64::MAX,
        ensures
            final(self).count == old(self).count + 1,
            final(self).success_count == if sample.success {
                spec_inc(old(self).success_count)
            } else {
                old(self).success_count
            },
            final(self).failure_count == if sample.success {
                old(self).failure_count
            } else {
                spec_inc(old(self).failure_count)
            },
            final(self).min_duration_ms == if sample.duration_ms < old(self).min_duration_ms {
                sample.duration_ms
            } else {
                old(self).min_duration_ms
            },
            final(self).max_duration_ms == if sample.duration_ms > old(self).max_duration_ms {
                sample.duration_ms
            } else {
                old(self).max_duration_ms
            },
            final(self).avg_duration_ms as nat == (old(self).avg_duration_ms * old(self).count
                + sample.duration_ms) as nat / (old(self).count + 1) as nat,
            final(self).p50_duration_ms == old(self).p50_duration_ms,
            final(self).p95_duration_ms == old(self).p95_duration_ms,
            final(self).p99_duration_ms == old(self).p99_duration_ms,
    {
        let prev_count: u64 = self.count;
        self.count = self.count + 1;
        if sample.success {
            self.success_count = crate::cache::inc_u64(self.success_count);
        } else {
            self.failure_count = crate::cache::inc_u64(self.failure_count);
        }
        if sample.duration_ms < self.min_duration_ms {
            self.min_duration_ms = sample.duration_ms;
        }
        if sample.duration_ms > self.max_duration_ms {
            self.max_duration_ms = sample.duration_ms;
        }
        proof {
            let a = old(self).avg_duration_ms as int;
            let c = prev_count as int;
            assert(a * c <= (u64::MAX as int) * (u64::MAX as int)) by (nonlinear_arith)
                requires
                    0 <= a <= u64::MAX as int,
                    0 <= c <= u64::MAX as int,
            ;
        }
        let acc: u128 = (self.avg_duration_ms as u128) * (prev_count as u128) + (sample.duration_ms
            as u128);
        let denom: u128 = (prev_count as u128) + 1;
        let q: u128 = acc / denom;
        proof {
            let a = old(self).avg_duration_ms as int;
            let c = prev_count as int;
            let d = sample.duration_ms as int;
            let m = if a >= d {
                a
            } else {
                d
            };
            assert(a * c + d <= m * (c + 1)) by (nonlinear_arith)
                requires
                    0 <= a <= m,
                    0 <= d <= m,
                    0 <= c,
            ;
            vstd::arithmetic::div_mod::lemma_div_is_ordered(a * c + d, m * (c + 1), c + 1);
            vstd::arithmetic::div_mod::lemma_div_multiples_vanish(m, c + 1);
            assert(m * (c + 1) == (c + 1) * m) by (nonlinear_arith);
            assert(q <= m <= u64::MAX);
        }
        self.avg_duration_ms = q as u64;
    }
}

impl MetricStats {
    /// Recompute the three percentile fields from a sample list by
    /// nearest rank over a sorted copy of its durations; an empty list
    /// leaves them untouched, and nothing else changes.
    pub fn calculate_percentiles(&mut self, samples: &Vec<MetricSample>)
        ensures
            *final(self) == if samples@.len() == 0 {
                *old(self)
            } else {
                (MetricStats {
                    p50_duration_ms: spec_stats(samples@).p50_duration_ms,
                    p95_duration_ms: spec_stats(samples@).p95_duration_ms,
                    p99_duration_ms: spec_stats(samples@).p99_duration_ms,
                    ..*old(self)
                })
            },
    {
        let n: usize = samples.len();
        if n == 0 {
            return ;
        }
        let mut durs: Vec<u64> = Vec::new();
        let mut i: usize = 0;
        proof {
            assert(durs@ =~= spec_durations(samples@.subrange(0, 0)));
        }
        while i < n
            invariant
                i <= n,
                n == samples@.len(),
                durs@ == spec_durations(samples@.subrange(0, i as int)),
                durs@.len() == i,
            decreases n - i,
        {
            durs.push(samples[i].duration_ms);
            proof {
                assert(durs@ =~= spec_durations(samples@.subrange(0, i + 1)));
            }
            i = i + 1;
        }
        proof {
            assert(samples@.subrange(0, n as int) =~= samples@);
        }
        let sorted: Vec<u64> = sort_durations(&durs);
        proof {
            broadcast use vstd::seq_lib::group_to_multiset_ensures;

            durs@.lemma_sort_by_ensures(dur_le());
            assert(sorted@.to_multiset().len() == durs@.to_multiset().len());
            assert(sorted@.len() == durs@.len());
            assert(n * 95 / 100 < n && n * 99 / 100 < n) by (nonlinear_arith)
                requires
                    1 <= n,
            ;
        }
        let i50: usize = n / 2;
        let i95: usize = ((n as u128) * 95 / 100) as usize;
        let i99: usize = ((n as u128) * 99 / 100) as usize;
        self.p50_duration_ms = sorted[i50];
        self.p95_duration_ms = sorted[i95];
        self.p99_duration_ms = sorted[i99];
    }
}

/// Sort a duration list ascending by insertion.
fn sort_durations(v: &Vec<u64>) -> (r: Vec<u64>)
    ensures
        r@ == v@.sort_by(dur_le()),
{
    let ghost leq = dur_le();
    proof {
        assert(total_ordering(leq));
    }
    let mut out: Vec<u64> = Vec::new();
    let mut i: usize = 0;
    proof {
        broadcast use vstd::seq_lib::group_to_multiset_ensures;

        assert(v@.subrange(0, 0) =~= Seq::<u64>::empty());
        assert(out@.to_multiset() =~= v@.subrange(0, 0).to_multiset());
    }
    while i < v.len()
        invariant
            i <= v@.len(),
            sorted_by(out@, dur_le()),
            out@.to_multiset() == v@.subrange(0, i as int).to_multiset(),
            out@.len() == i,
        decreases v@.len() - i,
    {
        let x: u64 = v[i];
        let mut p: usize = 0;
        while p < out.len() && out[p] <= x
            invariant
                p <= out@.len(),
                forall|j: int| 0 <= j < p ==> out@[j] <= x,
            decreases out@.len() - p,
        {
            p = p + 1;
        }
        let ghost before = out@;
        out.insert(p, x);
        proof {
            broadcast use vstd::seq_lib::group_to_multiset_ensures;

            assert forall|a: int, b: int| 0 <= a < b < out@.len() implies dur_le()(
                out@[a],
                out@[b],
            ) by {
                if b < p {
                    assert(out@[a] == before[a] && out@[b] == before[b]);
                } else if a > p {
                    assert(out@[a] == before[a - 1] && out@[b] == before[b - 1]);
                } else if b == p {
                    assert(out@[b] == x);
                    assert(out@[a] == before[a]);
                } else if a == p {
                    assert(out@[a] == x);
                    assert(out@[b] == before[b - 1]);
                    assert(p < before.len() && !(before[p as int] <= x));
                    assert(dur_le()(before[p as int], before[b - 1]) || p == b - 1);
                } else {
                    assert(out@[a] == before[a] && out@[b] == before[b - 1]);
                    assert(dur_le()(before[a], before[b - 1]) || a == b - 1);
                }
            }
            // the inserted sequence's multiset gains exactly x
            assert(out@ =~= before.subrange(0, p as int) + seq![x] + before.subrange(
                p as int,
                before.len() as int,
            ));
            lemma_multiset_commutative(
                before.subrange(0, p as int) + seq![x],
                before.subrange(p as int, before.len() as int),
            );
            lemma_multiset_commutative(before.subrange(0, p as int), seq![x]);
            lemma_multiset_commutative(
                before.subrange(0, p as int),
                before.subrange(p as int, before.len() as int),
            );
            assert(before.subrange(0, p as int) + before.subrange(p as int, before.len() as int)
                =~= before);
            assert(seq![x].to_multiset() =~= Multiset::<u64>::empty().insert(x)) by {
                assert(seq![x] =~= Seq::<u64>::empty().push(x));
                assert(Seq::<u64>::empty().to_multiset() =~= Multiset::<u64>::empty());
            }
            assert(out@.to_multiset() =~= before.to_multiset().insert(x));
            assert(v@.subrange(0, i + 1).drop_last() =~= v@.subrange(0, i as int));
            assert(v@.subrange(0, i + 1) =~= v@.subrange(0, i as int).push(x));
            assert(v@.subrange(0, i + 1).to_multiset() =~= v@.subrange(
                0,
                i as int,
            ).to_multiset().insert(x));
        }
        i = i + 1;
    }
    proof {
        assert(v@.subrange(0, v@.len() as int) =~= v@);
        v@.lemma_sort_by_ensures(leq);
        lemma_sorted_unique(out@, v@.sort_by(leq), leq);
    }
    out
}

/// Count the samples that succeeded.
fn success_count(samples: &Vec<MetricSample>) -> (r: usize)
    ensures
        r == samples@.filter(sample_ok()).len(),
{
    let ghost pred = sample_ok();
    let mut cnt: usize = 0;
    let mut i: usize = 0;
    proof {
        reveal(Seq::filter);
        assert(samples@.subrange(0, 0).filter(pred) =~= Seq::<MetricSample>::empty());
    }
    while i < samples.len()
        invariant
            i <= samples@.len(),
            pred == sample_ok(),
            cnt == samples@.subrange(0, i as int).filter(pred).len(),
            cnt <= i,
        decreases samples@.len() - i,
    {
        proof {
            reveal(Seq::filter);
            assert(samples@.subrange(0, i + 1).drop_last() =~= samples@.subrange(0, i as int));
            assert(samples@.subrange(0, i + 1).last() == samples@[i as int]);
        }
        if samples[i].success {
            cnt = cnt + 1;
        }
        i = i + 1;
    }
    proof {
        assert(samples@.subrange(0, samples@.len() as int) =~= samples@);
    }
    cnt
}

/// Compute the statistics of a non-empty sample list.
pub fn compute_stats(samples: &Vec<MetricSample>) -> (r: MetricStats)
    requires
        samples@.len() >= 1,
    ensures
        r == spec_stats(samples@),
{
    let n: usize = samples.len();
    let ok: usize = success_count(samples);
    let mut durs: Vec<u64> = Vec::new();
    let mut i: usize = 0;
    proof {
        assert(durs@ =~= spec_durations(samples@.subrange(0, 0)));
    }
    while i < n
        invariant
            i <= n,
            n == samples@.len(),
            durs@ == spec_durations(samples@.subrange(0, i as int)),
            durs@.len() == i,
        decreases n - i,
    {
        durs.push(samples[i].duration_ms);
        proof {
            assert(durs@ =~= spec_durations(samples@.subrange(0, i + 1)));
        }
        i = i + 1;
    }
    proof {
        assert(samples@.subrange(0, n as int) =~= samples@);
    }
    let mut min_v: u64 = durs[0];
    let mut max_v: u64 = durs[0];
    let mut sum: u128 = durs[0] as u128;
    let mut k: usize = 1;
    proof {
        assert(durs@.subrange(0, 1) =~= seq![durs@[0]]);
        assert(durs@.subrange(0, 1).drop_last() =~= Seq::<u64>::empty());
        assert(spec_sum(Seq::<u64>::empty()) == 0);
        assert(spec_sum(durs@.subrange(0, 1)) == durs@[0] as nat);
        assert(spec_min_u64(durs@.subrange(0, 1)) == durs@[0]);
        assert(spec_max_u64(durs@.subrange(0, 1)) == durs@[0]);
        lemma_sum_bound(durs@);
        assert((durs@.len() as int) * (u64::MAX as int) <= (u64::MAX as int) * (u64::MAX as int))
            by (nonlinear_arith)
            requires
                0 <= durs@.len() as int <= u64::MAX as int,
        ;
    }
    while k < n
        invariant
            1 <= k <= n,
            n == durs@.len(),
            min_v == spec_min_u64(durs@.subrange(0, k as int)),
            max_v == spec_max_u64(durs@.subrange(0, k as int)),
            sum as nat == spec_sum(durs@.subrange(0, k as int)),
            sum as nat <= (k as nat) * (u64::MAX as nat),
        decreases n - k,
    {
        proof {
            assert(durs@.subrange(0, k + 1).drop_last() =~= durs@.subrange(0, k as int));
            assert(durs@.subrange(0, k + 1).last() == durs@[k as int]);
            assert((k as int) * (u64::MAX as int) + (u64::MAX as int) == (k + 1) * (u64::MAX
                as int)) by (nonlinear_arith);
            assert(((k + 1) as int) * (u64::MAX as int) <= (u64::MAX as int) * (u64::MAX as int))
                by (nonlinear_arith)
                requires
                    0 <= (k + 1) as int <= u64::MAX as int,
            ;
        }
        let d: u64 = durs[k];
        if d < min_v {
            min_v = d;
        }
        if d > max_v {
            max_v = d;
        }
        sum = sum + d as u128;
        k = k + 1;
    }
    proof {
        assert(durs@.subrange(0, n as int) =~= durs@);
    }
    let denom: u128 = n as u128;
    let avg: u128 = sum / denom;
    proof {
        let s = sum as int;
        let c = n as int;
        vstd::arithmetic::div_mod::lemma_div_is_ordered(s, c * (u64::MAX as int), c);
        vstd::arithmetic::div_mod::lemma_div_multiples_vanish(u64::MAX as int, c);
        assert(c * (u64::MAX as int) == (u64::MAX as int) * c) by (nonlinear_arith);
        assert(avg <= u64::MAX);
    }
    let sorted: Vec<u64> = sort_durations(&durs);
    proof {
        broadcast use vstd::seq_lib::group_to_multiset_ensures;

        durs@.lemma_sort_by_ensures(dur_le());
        assert(sorted@.to_multiset().len() == durs@.to_multiset().len());
        assert(sorted@.len() == durs@.len());
        assert(n * 95 / 100 < n && n * 99 / 100 < n) by (nonlinear_arith)
            requires
                1 <= n,
        ;
    }
    let i50: usize = n / 2;
    let i95: usize = ((n as u128) * 95 / 100) as usize;
    let i99: usize = ((n as u128) * 99 / 100) as usize;
    MetricStats {
        count: n as u64,
        success_count: ok as u64,
        failure_count: (n - ok) as u64,
        min_duration_ms: min_v,
        max_duration_ms: max_v,
        avg_duration_ms: avg as u64,
        p50_duration_ms: sorted[i50],
        p95_duration_ms: sorted[i95],
        p99_duration_ms: sorted[i99],
    }
}

/// One endpoint's recorded samples, newest last.
#[derive(Debug)]
pub struct EndpointSamples {
    pub endpoint: String,
    pub samples: Vec<MetricSample>,
}

/// The index of the first entry for the given endpoint, if any.
pub open spec fn endpoint_find(s: Seq<EndpointSamples>, name: Seq<char>) -> Option<int>
    decreases s.len(),
{
    if s.len() == 0 {
        None
    } else if s[0].endpoint@ == name {
        Some(0)
    } else {
        match endpoint_find(s.drop_first(), name) {
            Some(i) => Some(i + 1),
            None => None,
        }
    }
}

/// What `endpoint_find` returns.
pub proof fn lemma_endpoint_find(s: Seq<EndpointSamples>, name: Seq<char>)
    ensures
        match endpoint_find(s, name) {
            Some(i) => 0 <= i < s.len() && s[i].endpoint@ == name && forall|j: int|
                0 <= j < i ==> s[j].endpoint@ != name,
            None => forall|j: int| 0 <= j < s.len() ==> s[j].endpoint@ != name,
        },
    decreases s.len(),
{
    if s.len() == 0 {
    } else if s[0].endpoint@ == name {
    } else {
        lemma_endpoint_find(s.drop_first(), name);
        assert forall|j: int| 1 <= j < s.len() implies s[j] == s.drop_first()[j - 1] by {}
    }
}

/// A sample list trimmed to its newest `max` entries.
pub open spec fn spec_trim_fifo(s: Seq<MetricSample>, max: int) -> Seq<MetricSample> {
    if s.len() <= max {
        s
    } else {
        s.subrange(s.len() - max, s.len() as int)
    }
}

/// The total number of samples across all endpoints.
pub open spec fn spec_total_samples(s: Seq<EndpointSamples>) -> nat
    decreases s.len(),
{
    if s.len() == 0 {
        0
    } else {
        spec_total_samples(s.drop_last()) + s.last().samples@.len()
    }
}

/// The total number of successful samples across all endpoints.
pub open spec fn spec_total_successes(s: Seq<EndpointSamples>) -> nat
    decreases s.len(),
{
    if s.len() == 0 {
        0
    } else {
        spec_total_successes(s.drop_last()) + s.last().samples@.filter(sample_ok()).len()
    }
}

/// A count clamped to the largest `u64`.
pub open spec fn spec_sat_u64(n: nat) -> u64 {
    if n <= u64::MAX {
        n as u64
    } else {
        u64::MAX
    }
}

/// Whether an endpoint entry holds any samples.
pub open spec fn has_samples() -> spec_fn(EndpointSamples) -> bool {
    |e: EndpointSamples| e.samples@.len() >= 1
}

/// Totals across every endpoint.
#[derive(Debug, Clone, Copy, PartialEq, Eq, Structural)]
pub struct MetricsSummary {
    pub total_requests: u64,
    pub total_success: u64,
    pub total_failures: u64,
    pub endpoint_count: usize,
}

/// A per-endpoint sample store with a FIFO cap per endpoint.
#[derive(Debug)]
pub struct MetricsCollector {
    pub max_samples: usize,
    pub entries: Vec<EndpointSamples>,
}

impl MetricsCollector {
    /// The collector invariant: one entry per endpoint, each within the
    /// sample cap, and a positive cap.
    pub open spec fn wf(self) -> bool {
        &&& forall|i: int, j: int|
            0 <= i < j < self.entries@.len() ==> self.entries@[i].endpoint@
                != self.entries@[j].endpoint@
        &&& forall|i: int|
            0 <= i < self.entries@.len() ==> #[trigger] self.entries@[i].samples@.len()
                <= self.max_samples
        &&& self.max_samples >= 1
    }

    pub fn new(max_samples: usize) -> (r: Self)
        requires
            max_samples >= 1,
        ensures
            r.entries@ == Seq::<EndpointSamples>::empty(),
            r.max_samples == max_samples,
            r.wf(),
    {
        MetricsCollector { max_samples, entries: Vec::new() }
    }

    /// A collector with the stock cap of a thousand samples per endpoint.
    pub fn default() -> (r: Self)
        ensures
            r.entries@ == Seq::<EndpointSamples>::empty(),
            r.max_samples == 1000,
            r.wf(),
    {
        Self::new(1000)
    }

    fn find_endpoint(&self, name: &str) -> (r: Option<usize>)
        ensures
            match r {
                Some(i) => endpoint_find(self.entries@, name@) == Some(i as int),
                None => endpoint_find(self.entries@, name@) is None,
            },
    {
        let n: usize = self.entries.len();
        let mut i: usize = 0;
        while i < n
            invariant
                i <= n,
                n == self.entries@.len(),
                forall|j: int| 0 <= j < i ==> self.entries@[j].endpoint@ != name@,
            decreases n - i,
        {
            if str_eq(self.entries[i].endpoint.as_str(), name) {
                proof {
                    lemma_endpoint_find(self.entries@, name@);
                }
                return Some(i);
            }
            i = i + 1;
        }
        proof {
            lemma_endpoint_find(self.entries@, name@);
        }
        None
    }

    /// Append a sample under its endpoint, dropping the oldest samples
    /// beyond the per-endpoint cap. A new endpoint gets a fresh entry.
    pub fn record(&mut self, endpoint: &str, duration_ms: u64, success: bool)
        requires
            old(self).wf(),
        ensures
            final(self).wf(),
            final(self).max_samples == old(self).max_samples,
            match endpoint_find(old(self).entries@, endpoint@) {
                Some(i) => {
                    let ns = final(self).entries@[i].samples@;
                    &&& final(self).entries@ == old(self).entries@.update(
                        i,
                        final(self).entries@[i],
                    )
                    &&& final(self).entries@[i].endpoint@ == endpoint@
                    &&& ns == spec_trim_fifo(
                        old(self).entries@[i].samples@.push(ns.last()),
                        old(self).max_samples as int,
                    )
                    &&& ns.len() >= 1
                    &&& ns.last().endpoint@ == endpoint@
                    &&& ns.last().duration_ms == duration_ms
                    &&& ns.last().success == success
                },
                None => {
                    let ns = final(self).entries@.last().samples@;
                    &&& final(self).entries@.drop_last() == old(self).entries@
                    &&& final(self).entries@.len() == old(self).entries@.len() + 1
                    &&& final(self).entries@.last().endpoint@ == endpoint@
                    &&& ns.len() == 1
                    &&& ns.last().endpoint@ == endpoint@
                    &&& ns.last().duration_ms == duration_ms
                    &&& ns.last().success == success
                },
            },
    {
        let sample = MetricSample { endpoint: endpoint.to_owned(), duration_ms, success };
        let found = self.find_endpoint(endpoint);
        proof {
            lemma_endpoint_find(self.entries@, endpoint@);
        }
        match found {
            Some(i) => {
                let ghost olds = self.entries@;
                let mut entry: EndpointSamples = self.entries.remove(i);
                entry.samples.push(sample);
                let ghost base = entry.samples@;
                proof {
                    assert(base.drop_last() =~= olds[i as int].samples@);
                    assert(base.subrange(0, base.len() as int) =~= base);
                }
                while entry.samples.len() > self.max_samples
                    invariant
                        entry.endpoint@ == endpoint@,
                        1 <= entry.samples@.len() <= base.len(),
                        entry.samples@ == base.subrange(
                            base.len() - entry.samples@.len(),
                            base.len() as int,
                        ),
                        entry.samples@.len() >= self.max_samples || entry.samples@.len()
                            == base.len(),
                        self.entries@ == olds.remove(i as int),
                        self.max_samples == old(self).max_samples,
                        self.max_samples >= 1,
                        0 <= i < olds.len(),
                    decreases entry.samples@.len(),
                {
                    let ghost blen = entry.samples@.len() as int;
                    entry.samples.remove(0);
                    proof {
                        assert(entry.samples@ =~= base.subrange(
                            base.len() - (blen - 1),
                            base.len() as int,
                        ));
                    }
                }
                proof {
                    let ns = entry.samples@;
                    assert(ns.last() == base.last());
                    let base2 = olds[i as int].samples@.push(ns.last());
                    assert(base2 =~= base);
                    if base.len() <= self.max_samples {
                        assert(ns =~= base);
                    } else {
                        assert(ns.len() == self.max_samples);
                    }
                    assert(ns == spec_trim_fifo(base2, self.max_samples as int));
                }
                self.entries.insert(i, entry);
                proof {
                    assert(self.entries@ =~= olds.update(i as int, self.entries@[i as int]));
                }
            },
            None => {
                let mut samples: Vec<MetricSample> = Vec::new();
                samples.push(sample);
                self.entries.push(EndpointSamples { endpoint: endpoint.to_owned(), samples });
            },
        }
    }

    /// The statistics for one endpoint, when it has samples.
    pub fn get_stats(&self, endpoint: &str) -> (r: Option<MetricStats>)
        ensures
            r == match endpoint_find(self.entries@, endpoint@) {
                Some(i) => {
                    if self.entries@[i].samples@.len() >= 1 {
                        Some(spec_stats(self.entries@[i].samples@))
                    } else {
                        None::<MetricStats>
                    }
                },
                None => None::<MetricStats>,
            },
    {
        let found = self.find_endpoint(endpoint);
        proof {
            lemma_endpoint_find(self.entries@, endpoint@);
        }
        match found {
            Some(i) => {
                if self.entries[i].samples.len() >= 1 {
                    Some(compute_stats(&self.entries[i].samples))
                } else {
                    None
                }
            },
            None => None,
        }
    }

    /// The statistics of every endpoint that has samples, in store order.
    pub fn get_all_stats(&self) -> (r: Vec<(String, MetricStats)>)
        ensures
            r@ == self.entries@.filter(has_samples()).map_values(
                |e: EndpointSamples| (e.endpoint, spec_stats(e.samples@)),
            ),
    {
        let ghost pred = has_samples();
        let ghost f = |e: EndpointSamples| (e.endpoint, spec_stats(e.samples@));
        let mut out: Vec<(String, MetricStats)> = Vec::new();
        let mut i: usize = 0;
        proof {
            reveal(Seq::filter);
            assert(self.entries@.subrange(0, 0).filter(pred) =~= Seq::<EndpointSamples>::empty());
            assert(out@ =~= self.entries@.subrange(0, 0).filter(pred).map_values(f));
        }
        while i < self.entries.len()
            invariant
                i <= self.entries@.len(),
                pred == has_samples(),
                f == (|e: EndpointSamples| (e.endpoint, spec_stats(e.samples@))),
                out@ == self.entries@.subrange(0, i as int).filter(pred).map_values(f),
            decreases self.entries@.len() - i,
        {
            proof {
                reveal(Seq::filter);
                assert(self.entries@.subrange(0, i + 1).drop_last() =~= self.entries@.subrange(
                    0,
                    i as int,
                ));
                assert(self.entries@.subrange(0, i + 1).last() == self.entries@[i as int]);
            }
            let e = &self.entries[i];
            if e.samples.len() >= 1 {
                let stats = compute_stats(&e.samples);
                out.push((e.endpoint.clone(), stats));
                proof {
                    assert(out@ =~= self.entries@.subrange(0, i + 1).filter(pred).map_values(f));
                }
            }
            i = i + 1;
        }
        proof {
            assert(self.entries@.subrange(0, self.entries@.len() as int) =~= self.entries@);
        }
        out
    }

    /// Totals across every endpoint, each clamped to the counter type.
    pub fn get_summary(&self) -> (r: MetricsSummary)
        ensures
            r.total_requests == spec_sat_u64(spec_total_samples(self.entries@)),
            r.total_success == spec_sat_u64(spec_total_successes(self.entries@)),
            r.total_failures == spec_sat_u64(spec_total_samples(self.entries@)) - spec_sat_u64(
                spec_total_successes(self.entries@),
            ),
            spec_total_samples(self.entries@) <= u64::MAX ==> r.total_failures
                == spec_total_samples(self.entries@) - spec_total_successes(self.entries@),
            r.endpoint_count == self.entries@.filter(has_samples()).len(),
    {
        let ghost pred = has_samples();
        let mut total: u64 = 0;
        let mut ok_total: u64 = 0;
        let mut nonempty: usize = 0;
        let mut i: usize = 0;
        proof {
            reveal(Seq::filter);
            assert(self.entries@.subrange(0, 0).filter(pred) =~= Seq::<EndpointSamples>::empty());
            assert(spec_total_samples(self.entries@.subrange(0, 0)) == 0);
            assert(spec_total_successes(self.entries@.subrange(0, 0)) == 0);
        }
        while i < self.entries.len()
            invariant
                i <= self.entries@.len(),
                pred == has_samples(),
                total == spec_sat_u64(spec_total_samples(self.entries@.subrange(0, i as int))),
                ok_total == spec_sat_u64(
                    spec_total_successes(self.entries@.subrange(0, i as int)),
                ),
                ok_total <= total,
                spec_total_successes(self.entries@.subrange(0, i as int)) <= spec_total_samples(
                    self.entries@.subrange(0, i as int),
                ),
                nonempty == self.entries@.subrange(0, i as int).filter(pred).len(),
                nonempty <= i,
            decreases self.entries@.len() - i,
        {
            proof {
                reveal(Seq::filter);
                assert(self.entries@.subrange(0, i + 1).drop_last() =~= self.entries@.subrange(
                    0,
                    i as int,
                ));
                assert(self.entries@.subrange(0, i + 1).last() == self.entries@[i as int]);
                self.entries@[i as int].samples@.lemma_filter_len(sample_ok());
            }
            let e = &self.entries[i];
            let cnt: usize = e.samples.len();
            let ok: usize = success_count(&e.samples);
            total = sat_add_u64(total, cnt as u64);
            ok_total = sat_add_u64(ok_total, ok as u64);
            proof {
                lemma_sat_add(
                    spec_total_samples(self.entries@.subrange(0, i as int)),
                    cnt as nat,
                );
                lemma_sat_add(
                    spec_total_successes(self.entries@.subrange(0, i as int)),
                    ok as nat,
                );
            }
            if cnt >= 1 {
                nonempty = nonempty + 1;
            }
            i = i + 1;
        }
        proof {
            assert(self.entries@.subrange(0, self.entries@.len() as int) =~= self.entries@);
        }
        let failures: u64 = total - ok_total;
        MetricsSummary {
            total_requests: total,
            total_success: ok_total,
            total_failures: failures,
            endpoint_count: nonempty,
        }
    }

    /// Drop every sample and endpoint.
    pub fn reset(&mut self)
        ensures
            old(self).wf() ==> final(self).wf(),
            final(self).entries@ == Seq::<EndpointSamples>::empty(),
            final(self).max_samples == old(self).max_samples,
    {
        self.entries = Vec::new();
    }
}

/// Saturating addition on the counter type.
fn sat_add_u64(a: u64, b: u64) -> (r: u64)
    ensures
        r as nat == if a + b <= u64::MAX {
            (a + b) as nat
        } else {
            u64::MAX as nat
        },
{
    if a <= u64::MAX - b {
        a + b
    } else {
        u64::MAX
    }
}

/// Clamped counters add the way their unclamped values do.
proof fn lemma_sat_add(a: nat, b: nat)
    requires
        b <= u64::MAX,
    ensures
        spec_sat_u64(a + b) == if spec_sat_u64(a) + b <= u64::MAX {
            (spec_sat_u64(a) + b) as u64
        } else {
            u64::MAX
        },
{
}

/// Measures one operation: created when the call starts, marked on
/// success, and recorded into a collector when the call ends.
#[derive(Debug)]
pub struct MetricsContext {
    pub endpoint: String,
    pub start_ms: u64,
    pub success: bool,
}

impl MetricsContext {
    pub fn new(endpoint: String, start_ms: u64) -> (r: Self)
        ensures
            r.endpoint@ == endpoint@,
            r.start_ms == start_ms,
            r.success == false,
    {
        MetricsContext { endpoint, start_ms, success: false }
    }

    /// Mark the measured operation as successful.
    pub fn mark_success(&mut self)
        ensures
            final(self).success == true,
            final(self).endpoint@ == old(self).endpoint@,
            final(self).start_ms == old(self).start_ms,
    {
        self.success = true;
    }

    /// Record the elapsed time and outcome into the collector.
    pub fn record(self, collector: &mut MetricsCollector, now_ms: u64)
        requires
            old(collector).wf(),
            now_ms >= self.start_ms,
        ensures
            final(collector).wf(),
            final(collector).max_samples == old(collector).max_samples,
            ({
                let recorded = match endpoint_find(old(collector).entries@, self.endpoint@) {
                    Some(i) => final(collector).entries@[i].samples@.last(),
                    None => final(collector).entries@.last().samples@.last(),
                };
                &&& recorded.endpoint@ == self.endpoint@
                &&& recorded.duration_ms == now_ms - self.start_ms
                &&& recorded.success == self.success
            }),
            match endpoint_find(old(collector).entries@, self.endpoint@) {
                Some(i) => final(collector).entries@[i].samples@.len() >= 1,
                None => final(collector).entries@.len() == old(collector).entries@.len() + 1
                    && final(collector).entries@.last().samples@.len() == 1,
            },
    {
        let duration: u64 = now_ms - self.start_ms;
        collector.record(self.endpoint.as_str(), duration, self.success);
    }
}

} // verus!
