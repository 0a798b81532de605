//! Bounded-memory latency statistics: sample storage, eviction, and
//! percentile computation over millisecond durations.

use vstd::prelude::*;
use vstd::arithmetic::div_mod::{lemma_div_is_ordered, lemma_div_multiples_vanish};
use vstd::arithmetic::mul::lemma_mul_inequality;
use vstd::multiset::Multiset;
use vstd::relations::sorted_by;

verus! {

/// One latency reading, in milliseconds. A reading that the boundary layer
/// could not represent as a finite number is kept as `NonFinite` and is
/// ignored by every statistic.
#[derive(Clone, Copy, Debug, PartialEq, Eq, Structural)]
pub enum Sample {
    Finite(u64),
    NonFinite,
}

/// Summary statistics of one sample sequence, in milliseconds.
#[derive(Clone, Copy, Debug, PartialEq, Eq, Structural)]
pub struct LatencyStats {
    pub avg: u64,
    pub min: u64,
    pub max: u64,
    pub p50: u64,
    pub p95: u64,
}

/// The finite readings of a sample sequence, in order.
pub open spec fn finite_values(s: Seq<Sample>) -> Seq<u64> {
    s.filter(|x: Sample| x is Finite).map_values(|x: Sample| x->Finite_0)
}

/// The all-zero summary reported for an empty (or all-non-finite) sequence.
pub open spec fn zero_stats() -> LatencyStats {
    LatencyStats { avg: 0, min: 0, max: 0, p50: 0, p95: 0 }
}

/// Extracts the finite readings of `data`, in order.
fn collect_finite(data: &Vec<Sample>) -> (r: Vec<u64>)
    ensures
        r@ == finite_values(data@),
{
    let mut r: Vec<u64> = Vec::new();
    let mut i: usize = 0;
    while i < data.len()
        invariant
            i <= data.len(),
            r@ == finite_values(data@.take(i as int)),
        decreases data.len() - i,
    {
        proof {
            assert(data@.take(i + 1 as int).drop_last() =~= data@.take(i as int));
            reveal_with_fuel(Seq::filter, 2);
        }
        match data[i] {
            Sample::Finite(v) => { r.push(v); }
            Sample::NonFinite => {}
        }
        i = i + 1;
    }
    proof {
        assert(data@.take(data@.len() as int) =~= data@);
    }
    r
}

/// The order in which samples are ranked for percentiles.
pub open spec fn u64_leq() -> spec_fn(u64, u64) -> bool {
    |x: u64, y: u64| x <= y
}

/// Index of a least element of a non-empty vector.
fn find_min_index(v: &Vec<u64>) -> (m: usize)
    requires
        v@.len() > 0,
    ensures
        m < v@.len(),
        forall|k: int| 0 <= k < v@.len() ==> v@[m as int] <= v@[k],
{
    let mut m: usize = 0;
    let mut j: usize = 1;
    while j < v.len()
        invariant
            m < j,
            j <= v@.len(),
            forall|k: int| 0 <= k < j ==> v@[m as int] <= v@[k],
        decreases v@.len() - j,
    {
        if v[j] < v[m] {
            m = j;
        }
        j = j + 1;
    }
    m
}

/// Two sequences that are sorted the same way and hold the same multiset of
/// values are equal.
proof fn lemma_sorted_unique(a: Seq<u64>, b: Seq<u64>)
    requires
        sorted_by(a, u64_leq()),
        sorted_by(b, u64_leq()),
        a.to_multiset() == b.to_multiset(),
    ensures
        a =~= b,
    decreases a.len(),
{
    a.to_multiset_ensures();
    b.to_multiset_ensures();
    assert(a.len() == b.len());
    if a.len() > 0 {
        assert(a.contains(a[0]));
        assert(b.to_multiset().count(a[0]) > 0);
        assert(b.contains(a[0]));
        let i = choose|i: int| 0 <= i < b.len() && b[i] == a[0];
        assert(u64_leq()(b[0], b[i]));
        assert(b.contains(b[0]));
        assert(a.to_multiset().count(b[0]) > 0);
        assert(a.contains(b[0]));
        let j = choose|j: int| 0 <= j < a.len() && a[j] == b[0];
        assert(u64_leq()(a[0], a[j]));
        assert(a[0] == b[0]);
        let at = a.drop_first();
        let bt = b.drop_first();
        assert(a.remove(0) =~= at);
        assert(b.remove(0) =~= bt);
        assert(at.to_multiset() =~= a.to_multiset().remove(a[0]));
        assert(bt.to_multiset() =~= b.to_multiset().remove(b[0]));
        assert forall|x: int, y: int| 0 <= x < y < at.len() implies #[trigger] u64_leq()(
            at[x],
            at[y],
        ) by {
            assert(u64_leq()(a[x + 1], a[y + 1]));
        }
        assert(sorted_by(at, u64_leq()));
        assert forall|x: int, y: int| 0 <= x < y < bt.len() implies #[trigger] u64_leq()(
            bt[x],
            bt[y],
        ) by {
            assert(u64_leq()(b[x + 1], b[y + 1]));
        }
        assert(sorted_by(bt, u64_leq()));
        lemma_sorted_unique(at, bt);
        assert forall|k: int| 0 <= k < a.len() implies a[k] == b[k] by {
            if k > 0 {
                assert(a[k] == at[k - 1]);
                assert(b[k] == bt[k - 1]);
            }
        }
    }
}

/// Sorts the values ascending; the result is exactly `sort_by` of the input.
fn sort_values(input: Vec<u64>) -> (r: Vec<u64>)
    ensures
        r@ == input@.sort_by(u64_leq()),
        sorted_by(r@, u64_leq()),
        r@.to_multiset() == input@.to_multiset(),
        r@.len() == input@.len(),
{
    broadcast use vstd::multiset::group_multiset_axioms;

    let ghost orig = input@;
    let mut rest = input;
    let mut out: Vec<u64> = Vec::new();
    proof {
        let e = Seq::<u64>::empty();
        e.to_multiset_ensures();
        assert forall|x: u64| e.to_multiset().count(x) == 0 by {
            assert(!e.contains(x));
        }
        assert(e.to_multiset() =~= Multiset::<u64>::empty());
        assert(out@.to_multiset().add(rest@.to_multiset()) =~= orig.to_multiset());
    }
    while rest.len() > 0
        invariant
            sorted_by(out@, u64_leq()),
            out@.to_multiset().add(rest@.to_multiset()) =~= orig.to_multiset(),
            out@.len() + rest@.len() == orig.len(),
            forall|i: int, j: int|
                0 <= i < out@.len() && 0 <= j < rest@.len() ==> out@[i] <= rest@[j],
        decreases rest@.len(),
    {
        let m = find_min_index(&rest);
        let v = rest[m];
        let ghost out0 = out@;
        let ghost rest0 = rest@;
        out.push(v);
        rest.remove(m);
        proof {
            out0.to_multiset_ensures();
            rest0.to_multiset_ensures();
            assert(out@ == out0.push(v));
            assert(rest@ =~= rest0.remove(m as int));
            assert(out0.push(v).to_multiset() =~= out0.to_multiset().insert(v));
            assert(rest0.remove(m as int).to_multiset() =~= rest0.to_multiset().remove(rest0[m as int]));
            assert(out@.to_multiset() =~= out0.to_multiset().insert(v));
            assert(rest@.to_multiset() =~= rest0.to_multiset().remove(v));
            assert(rest0.contains(v));
            assert(rest0.to_multiset().count(v) > 0);
            assert(out@.to_multiset().add(rest@.to_multiset()) =~= orig.to_multiset());
            assert forall|x: int, y: int| 0 <= x < y < out@.len() implies #[trigger] u64_leq()(
                out@[x],
                out@[y],
            ) by {
                if y < out0.len() {
                    assert(u64_leq()(out0[x], out0[y]));
                } else {
                    assert(out0[x] <= rest0[m as int]);
                }
            }
            assert(sorted_by(out@, u64_leq()));
            assert forall|i: int, j: int|
                0 <= i < out@.len() && 0 <= j < rest@.len() implies out@[i] <= rest@[j] by {
                assert(rest@[j] == rest0[if j < m { j } else { j + 1 }]);
                assert(v <= rest@[j]);
            }
        }
    }
    proof {
        let e = Seq::<u64>::empty();
        e.to_multiset_ensures();
        assert forall|x: u64| e.to_multiset().count(x) == 0 by {
            assert(!e.contains(x));
        }
        assert(rest@ =~= e);
        assert(rest@.to_multiset() =~= Multiset::<u64>::empty());
        assert(out@.to_multiset() =~= orig.to_multiset());
        orig.lemma_sort_by_ensures(u64_leq());
        lemma_sorted_unique(out@, orig.sort_by(u64_leq()));
    }
    out
}

/// Sum of a sequence of readings, as an unbounded integer.
pub open spec fn seq_sum(s: Seq<u64>) -> int
    decreases s.len(),
{
    if s.len() == 0 {
        0
    } else {
        seq_sum(s.drop_last()) + s.last()
    }
}

/// The sum of `s` lies between `len * lo` and `len * hi` when every element does.
proof fn lemma_sum_bounds(s: Seq<u64>, lo: u64, hi: u64)
    requires
        forall|i: int| 0 <= i < s.len() ==> lo <= #[trigger] s[i] <= hi,
    ensures
        s.len() * lo <= seq_sum(s) <= s.len() * hi,
    decreases s.len(),
{
    if s.len() > 0 {
        assert forall|i: int| 0 <= i < s.drop_last().len() implies lo <= #[trigger] s.drop_last()[i]
            <= hi by {
            assert(s.drop_last()[i] == s[i]);
        }
        lemma_sum_bounds(s.drop_last(), lo, hi);
        assert(lo <= s[s.len() - 1] <= hi);
        assert(s.len() * lo == (s.len() - 1) * lo + lo) by (nonlinear_arith);
        assert(s.len() * hi == (s.len() - 1) * hi + hi) by (nonlinear_arith);
    }
}

/// Sums the readings; a 128-bit accumulator cannot overflow here.
fn sum_values(v: &Vec<u64>) -> (r: u128)
    ensures
        r as int == seq_sum(v@),
{
    let mut r: u128 = 0;
    let mut i: usize = 0;
    while i < v.len()
        invariant
            i <= v@.len(),
            r as int == seq_sum(v@.take(i as int)),
            r as int <= (i as int) * (u64::MAX as int),
        decreases v@.len() - i,
    {
        proof {
            assert(v@.take(i as int + 1).drop_last() =~= v@.take(i as int));
            assert(v@.take(i as int + 1).last() == v@[i as int]);
            lemma_mul_inequality(i as int + 1, u64::MAX as int, u64::MAX as int);
            assert((i as int) * (u64::MAX as int) + (u64::MAX as int) == (i as int + 1) * (
            u64::MAX as int)) by (nonlinear_arith);
        }
        r = r + (v[i] as u128);
        i = i + 1;
    }
    proof {
        assert(v@.take(v@.len() as int) =~= v@);
    }
    r
}

/// The index used for the `pct`-th percentile of `n` sorted readings.
pub open spec fn pct_index(n: int, pct: int) -> int {
    if n <= 1 {
        0
    } else {
        (n - 1) * pct / 100
    }
}

fn pct_index_exec(n: usize, pct: u32) -> (r: usize)
    requires
        n >= 1,
        pct <= 100,
    ensures
        r as int == pct_index(n as int, pct as int),
        r < n,
{
    if n == 1 {
        0
    } else {
        proof {
            let nn = n as int - 1;
            let pp = pct as int;
            assert(nn <= u64::MAX as int);
            assert(nn * pp <= nn * 100) by (nonlinear_arith)
                requires
                    0 <= pp <= 100,
                    0 <= nn,
            ;
            assert(nn * 100 == 100 * nn) by (nonlinear_arith);
            lemma_div_multiples_vanish(nn, 100);
            lemma_div_is_ordered(nn * pp, 100 * nn, 100);
            assert(nn * pp <= (u64::MAX as int) * 100) by (nonlinear_arith)
                requires
                    0 <= pp <= 100,
                    0 <= nn <= u64::MAX as int,
            ;
        }
        let wide: u128 = ((n - 1) as u128) * (pct as u128);
        let idx: u128 = wide / 100;
        idx as usize
    }
}

/// The exact summary that `calculate_stats` reports: percentiles are read off
/// the ascending ordering of the finite readings, and the average is the
/// integer quotient of their sum.
pub open spec fn spec_latency_stats(data: Seq<Sample>) -> LatencyStats {
    let f = finite_values(data);
    if f.len() == 0 {
        zero_stats()
    } else {
        let s = f.sort_by(u64_leq());
        LatencyStats {
            avg: (seq_sum(s) / s.len() as int) as u64,
            min: s[0],
            max: s[s.len() - 1],
            p50: s[pct_index(s.len() as int, 50)],
            p95: s[pct_index(s.len() as int, 95)],
        }
    }
}

/// Summarises a sample sequence. Non-finite readings are ignored; an empty or
/// all-non-finite sequence reports all zeroes. The ordering
/// `min <= p50 <= p95 <= max` always holds, and the average lies in
/// `[min, max]`.
pub fn calculate_stats(data: &Vec<Sample>) -> (r: LatencyStats)
    ensures
        r == spec_latency_stats(data@),
        r.min <= r.p50 <= r.p95 <= r.max,
        r.min <= r.avg <= r.max,
{
    let finite = collect_finite(data);
    if finite.len() == 0 {
        return LatencyStats { avg: 0, min: 0, max: 0, p50: 0, p95: 0 };
    }
    let sorted = sort_values(finite);
    let n = sorted.len();
    let ghost s = sorted@;
    let sum = sum_values(&sorted);
    proof {
        assert forall|i: int| 0 <= i < s.len() implies s[0] <= #[trigger] s[i] <= s[s.len()
            - 1] by {
            if 0 < i {
                assert(u64_leq()(s[0], s[i]));
            }
            if i < s.len() - 1 {
                assert(u64_leq()(s[i], s[s.len() - 1]));
            }
        }
        lemma_sum_bounds(s, s[0], s[s.len() - 1]);
        lemma_div_is_ordered(s.len() * s[0], seq_sum(s), s.len() as int);
        lemma_div_is_ordered(seq_sum(s), s.len() * s[s.len() - 1], s.len() as int);
        lemma_div_multiples_vanish(s[0] as int, s.len() as int);
        lemma_div_multiples_vanish(s[s.len() - 1] as int, s.len() as int);
    }
    let avg = (sum / (n as u128)) as u64;
    let i50 = pct_index_exec(n, 50);
    let i95 = pct_index_exec(n, 95);
    proof {
        if n > 1 {
            lemma_mul_inequality(50, 95, n as int - 1);
            lemma_div_is_ordered((n as int - 1) * 50, (n as int - 1) * 95, 100);
        }
        if i50 < i95 {
            assert(u64_leq()(s[i50 as int], s[i95 as int]));
        }
        if 0 < i50 {
            assert(u64_leq()(s[0], s[i50 as int]));
        }
        if i95 < n - 1 {
            assert(u64_leq()(s[i95 as int], s[s.len() - 1]));
        }
    }
    LatencyStats { avg, min: sorted[0], max: sorted[n - 1], p50: sorted[i50], p95: sorted[i95] }
}

/// Average of the finite readings (integer quotient), zero when there are none.
pub open spec fn spec_avg(s: Seq<Sample>) -> u64 {
    let f = finite_values(s);
    if f.len() == 0 {
        0
    } else {
        (seq_sum(f) / f.len() as int) as u64
    }
}

/// The sequence with `v` appended when a reading is present.
pub open spec fn pushed_opt(s: Seq<Sample>, v: Option<Sample>) -> Seq<Sample> {
    match v {
        Some(x) => s.push(x),
        None => s,
    }
}

/// How many oldest readings leave the store once the primary sequence holds
/// `len` readings against a capacity of `max`: down to three quarters of
/// capacity, and only when over it.
pub open spec fn evict_count(len: int, max: int) -> int {
    if len > max {
        len - max * 3 / 4
    } else {
        0
    }
}

/// A secondary sequence is trimmed only when it is long enough.
pub open spec fn trim_secondary(s: Seq<Sample>, rc: int) -> Seq<Sample> {
    if s.len() > rc {
        s.skip(rc)
    } else {
        s
    }
}

/// Removes the first `count` readings.
fn drop_prefix(v: &mut Vec<Sample>, count: usize)
    requires
        count <= old(v)@.len(),
    ensures
        final(v)@ == old(v)@.skip(count as int),
{
    let ghost v0 = v@;
    let mut out: Vec<Sample> = Vec::new();
    let mut i: usize = count;
    while i < v.len()
        invariant
            v@ == v0,
            count <= i <= v0.len(),
            out@ == v0.subrange(count as int, i as int),
        decreases v0.len() - i,
    {
        let x = v[i];
        out.push(x);
        proof {
            assert(out@ =~= v0.subrange(count as int, i + 1 as int));
        }
        i = i + 1;
    }
    proof {
        assert(out@ =~= v0.skip(count as int));
    }
    *v = out;
}

/// Per-mode latency store: four parallel bounded sample sequences and a
/// monotonic request counter. The primary (first-response) sequence never
/// exceeds `max_entries`; the total-time sequence always has the primary's
/// length.
#[derive(Debug)]
pub struct StatsCollector {
    pub first_response_times: Vec<Sample>,
    pub total_response_times: Vec<Sample>,
    pub quick_response_times: Vec<Sample>,
    pub large_model_times: Vec<Sample>,
    pub request_count: u64,
    pub max_entries: usize,
}

/// One snapshot of a collector: the counter and a summary of each sequence.
#[derive(Clone, Copy, Debug, PartialEq, Eq, Structural)]
pub struct StatsSnapshot {
    pub total_requests: u64,
    pub first_response_latency: LatencyStats,
    pub total_response_latency: LatencyStats,
    pub quick_response_latency: LatencyStats,
    pub large_model_latency: LatencyStats,
}

impl StatsCollector {
    /// Structural invariant: the primary sequence is within capacity and the
    /// total-time sequence moves in step with it.
    pub open spec fn wf(self) -> bool {
        &&& self.first_response_times@.len() <= self.max_entries
        &&& self.total_response_times@.len() == self.first_response_times@.len()
    }

    /// What a snapshot of this state reports.
    pub open spec fn spec_snapshot(self) -> StatsSnapshot {
        StatsSnapshot {
            total_requests: self.request_count,
            first_response_latency: spec_latency_stats(self.first_response_times@),
            total_response_latency: spec_latency_stats(self.total_response_times@),
            quick_response_latency: spec_latency_stats(self.quick_response_times@),
            large_model_latency: spec_latency_stats(self.large_model_times@),
        }
    }

    /// An empty collector with the given capacity.
    pub fn new(max_entries: usize) -> (r: StatsCollector)
        ensures
            r.wf(),
            r.max_entries == max_entries,
            r.request_count == 0,
            r.first_response_times@ == Seq::<Sample>::empty(),
            r.total_response_times@ == Seq::<Sample>::empty(),
            r.quick_response_times@ == Seq::<Sample>::empty(),
            r.large_model_times@ == Seq::<Sample>::empty(),
    {
        StatsCollector {
            first_response_times: Vec::new(),
            total_response_times: Vec::new(),
            quick_response_times: Vec::new(),
            large_model_times: Vec::new(),
            request_count: 0,
            max_entries,
        }
    }

    /// Records one completed request: appends to each present sequence,
    /// increments the counter by exactly one, and evicts the oldest readings
    /// once the primary sequence exceeds capacity. The primary sequence ends
    /// at or under `max_entries` whatever the prior load.
    pub fn add_request(
        &mut self,
        first_response_time: Sample,
        total_time: Sample,
        quick_time: Option<Sample>,
        large_time: Option<Sample>,
    )
        requires
            old(self).wf(),
            old(self).request_count < u64::MAX,
        ensures
            final(self).wf(),
            final(self).max_entries == old(self).max_entries,
            final(self).request_count == old(self).request_count + 1,
            final(self).first_response_times@ == old(self).first_response_times@.push(
                first_response_time,
            ).skip(
                evict_count(
                    old(self).first_response_times@.len() as int + 1,
                    old(self).max_entries as int,
                ),
            ),
            final(self).total_response_times@ == old(self).total_response_times@.push(
                total_time,
            ).skip(
                evict_count(
                    old(self).first_response_times@.len() as int + 1,
                    old(self).max_entries as int,
                ),
            ),
            final(self).quick_response_times@ == trim_secondary(
                pushed_opt(old(self).quick_response_times@, quick_time),
                evict_count(
                    old(self).first_response_times@.len() as int + 1,
                    old(self).max_entries as int,
                ),
            ),
            final(self).large_model_times@ == trim_secondary(
                pushed_opt(old(self).large_model_times@, large_time),
                evict_count(
                    old(self).first_response_times@.len() as int + 1,
                    old(self).max_entries as int,
                ),
            ),
            final(self).first_response_times@.len() <= old(self).max_entries,
    {
        let ghost rc = evict_count(
            old(self).first_response_times@.len() as int + 1,
            old(self).max_entries as int,
        );
        self.first_response_times.push(first_response_time);
        self.total_response_times.push(total_time);
        if let Some(q) = quick_time {
            self.quick_response_times.push(q);
        }
        if let Some(l) = large_time {
            self.large_model_times.push(l);
        }
        self.request_count = self.request_count + 1;
        if self.first_response_times.len() > self.max_entries {
            proof {
                let mm = self.max_entries as int;
                assert(mm * 3 == 3 * mm) by (nonlinear_arith);
                assert(mm * 4 == 4 * mm) by (nonlinear_arith);
                assert(mm * 3 <= mm * 4) by (nonlinear_arith)
                    requires
                        0 <= mm,
                ;
                lemma_div_is_ordered(mm * 3, 4 * mm, 4);
                lemma_div_multiples_vanish(mm, 4);
            }
            let keep_count = ((self.max_entries as u128) * 3 / 4) as usize;
            let remove_count = self.first_response_times.len() - keep_count;
            drop_prefix(&mut self.first_response_times, remove_count);
            drop_prefix(&mut self.total_response_times, remove_count);
            proof {
                assert(remove_count as int == rc);
            }
            if self.quick_response_times.len() > remove_count {
                drop_prefix(&mut self.quick_response_times, remove_count);
            }
            if self.large_model_times.len() > remove_count {
                drop_prefix(&mut self.large_model_times, remove_count);
            }
        } else {
            proof {
                assert(self.first_response_times@.skip(0) =~= self.first_response_times@);
                assert(self.total_response_times@.skip(0) =~= self.total_response_times@);
            }
        }
    }

    /// A snapshot of the collector's statistics.
    pub fn get_stats(&self) -> (r: StatsSnapshot)
        ensures
            r == self.spec_snapshot(),
    {
        StatsSnapshot {
            total_requests: self.request_count,
            first_response_latency: calculate_stats(&self.first_response_times),
            total_response_latency: calculate_stats(&self.total_response_times),
            quick_response_latency: calculate_stats(&self.quick_response_times),
            large_model_latency: calculate_stats(&self.large_model_times),
        }
    }

    /// Clears every sequence and the counter; the capacity is kept.
    pub fn reset(&mut self)
        ensures
            final(self).wf(),
            final(self).max_entries == old(self).max_entries,
            final(self).request_count == 0,
            final(self).first_response_times@ == Seq::<Sample>::empty(),
            final(self).total_response_times@ == Seq::<Sample>::empty(),
            final(self).quick_response_times@ == Seq::<Sample>::empty(),
            final(self).large_model_times@ == Seq::<Sample>::empty(),
    {
        self.first_response_times = Vec::new();
        self.total_response_times = Vec::new();
        self.quick_response_times = Vec::new();
        self.large_model_times = Vec::new();
        self.request_count = 0;
    }

    /// The number of requests recorded since the last reset.
    pub fn get_request_count(&self) -> (r: u64)
        ensures
            r == self.request_count,
    {
        self.request_count
    }

    /// Average first-response time over the finite readings still stored;
    /// zero when none are.
    pub fn get_avg_first_response_time(&self) -> (r: u64)
        ensures
            r == spec_avg(self.first_response_times@),
    {
        let finite = collect_finite(&self.first_response_times);
        if finite.len() == 0 {
            return 0;
        }
        let sum = sum_values(&finite);
        proof {
            lemma_sum_bounds(finite@, 0, u64::MAX);
            lemma_div_is_ordered(
                seq_sum(finite@),
                finite@.len() * u64::MAX,
                finite@.len() as int,
            );
            assert(finite@.len() * (u64::MAX as int) == (u64::MAX as int) * finite@.len())
                by (nonlinear_arith);
            lemma_div_multiples_vanish(u64::MAX as int, finite@.len() as int);
            lemma_div_is_ordered(0, seq_sum(finite@), finite@.len() as int);
        }
        (sum / (finite.len() as u128)) as u64
    }
}

/// After a reset, a snapshot reports a zero request counter and all-zero
/// statistics, whatever load came before.
pub proof fn lemma_reset_then_snapshot(c: StatsCollector)
    requires
        c.request_count == 0,
        c.first_response_times@ == Seq::<Sample>::empty(),
        c.total_response_times@ == Seq::<Sample>::empty(),
        c.quick_response_times@ == Seq::<Sample>::empty(),
        c.large_model_times@ == Seq::<Sample>::empty(),
    ensures
        c.spec_snapshot() == (StatsSnapshot {
            total_requests: 0,
            first_response_latency: zero_stats(),
            total_response_latency: zero_stats(),
            quick_response_latency: zero_stats(),
            large_model_latency: zero_stats(),
        }),
{
    broadcast use vstd::seq_lib::group_filter_ensures;

    assert(finite_values(Seq::<Sample>::empty()).len() == 0);
}

} // verus!
