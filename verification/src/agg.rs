//! Per-stage duration aggregates: a ring of the most recent samples and the
//! mean and percentiles over it.

use vstd::prelude::*;
use vstd::relations::{sorted_by, total_ordering};

verus! {

broadcast use vstd::seq_lib::group_to_multiset_ensures;

/// How many samples each aggregate keeps.
pub const AGG_CAP: usize = 512;

/// The order by which samples are sorted.
pub open spec fn sample_leq() -> spec_fn(u32, u32) -> bool {
    |a: u32, b: u32| a <= b
}

/// The samples in ascending order.
pub open spec fn sorted_samples(s: Seq<u32>) -> Seq<u32> {
    s.sort_by(sample_leq())
}

/// The sum of the samples.
pub open spec fn sample_sum(s: Seq<u32>) -> nat
    decreases s.len(),
{
    if s.len() == 0 {
        0
    } else {
        sample_sum(s.drop_last()) + s.last() as nat
    }
}

/// The position in the sorted samples of the `q`-th percentile of `n` samples:
/// `(n - 1) * q / 100` rounded half up, at most `n - 1`.
pub open spec fn percentile_index(n: nat, q: nat) -> int {
    let i = (((n - 1) * q + 50) / 100) as int;
    if i < n - 1 {
        i
    } else {
        n - 1
    }
}

/// The last `AGG_CAP` elements of `s` (all of them when there are fewer).
pub open spec fn last_window(s: Seq<u32>) -> Seq<u32> {
    if s.len() > AGG_CAP {
        s.subrange(s.len() - AGG_CAP, s.len() as int)
    } else {
        s
    }
}

/// Samples are sorted by a total order.
pub proof fn lemma_sample_leq_total()
    ensures
        total_ordering(sample_leq()),
{
}

proof fn lemma_insert_sorted(r: Seq<u32>, p: int, x: u32)
    requires
        sorted_by(r, sample_leq()),
        0 <= p <= r.len(),
        forall|j: int| 0 <= j < p ==> r[j] <= x,
        forall|j: int| p <= j < r.len() ==> r[j] > x,
    ensures
        sorted_by(r.insert(p, x), sample_leq()),
{
    let r2 = r.insert(p, x);
    assert forall|i: int, j: int| 0 <= i < j < r2.len() implies #[trigger] sample_leq()(
        r2[i],
        r2[j],
    ) by {
        if j < p {
            assert(sample_leq()(r[i], r[j]));
        } else if j == p {
        } else if i < p {
            assert(r2[j] == r[j - 1]);
        } else if i == p {
            assert(r2[j] == r[j - 1]);
        } else {
            assert(sample_leq()(r[i - 1], r[j - 1]));
        }
    }
}

/// The samples of `s` in ascending order.
fn sort_ascending(s: &Vec<u32>) -> (r: Vec<u32>)
    ensures
        r@ == sorted_samples(s@),
{
    let mut r: Vec<u32> = Vec::new();
    let n = s.len();
    let mut i: usize = 0;
    while i < n
        invariant
            n == s@.len(),
            i <= n,
            r@.len() == i,
            sorted_by(r@, sample_leq()),
            r@.to_multiset() == s@.take(i as int).to_multiset(),
        decreases n - i,
    {
        let x = s[i];
        let mut p: usize = 0;
        while p < r.len() && r[p] <= x
            invariant
                p <= r@.len(),
                forall|j: int| 0 <= j < p ==> r@[j] <= x,
            decreases r@.len() - p,
        {
            p = p + 1;
        }
        proof {
            assert forall|j: int| p <= j < r@.len() implies r@[j] > x by {
                assert(sample_leq()(r@[p as int], r@[j]));
            }
            lemma_insert_sorted(r@, p as int, x);
            assert(s@.take(i + 1) =~= s@.take(i as int).push(x));
        }
        r.insert(p, x);
        i = i + 1;
    }
    proof {
        assert(s@.take(n as int) =~= s@);
        lemma_sample_leq_total();
        s@.lemma_sort_by_ensures(sample_leq());
        vstd::seq_lib::lemma_sorted_unique(r@, sorted_samples(s@), sample_leq());
    }
    r
}

/// The sum of the samples, which fits in 64 bits for at most `AGG_CAP` of them.
fn sum_samples(s: &Vec<u32>) -> (t: u64)
    requires
        s@.len() <= AGG_CAP,
    ensures
        t == sample_sum(s@),
        t <= s@.len() * (u32::MAX as nat),
{
    let mut acc: u64 = 0;
    let mut i: usize = 0;
    while i < s.len()
        invariant
            i <= s@.len() <= AGG_CAP,
            acc == sample_sum(s@.take(i as int)),
            acc <= i * (u32::MAX as nat),
        decreases s@.len() - i,
    {
        proof {
            assert(s@.take(i + 1).drop_last() =~= s@.take(i as int));
            assert(acc + s@[i as int] <= (i + 1) * (u32::MAX as nat)) by (nonlinear_arith)
                requires
                    acc <= i * (u32::MAX as nat),
                    s@[i as int] <= u32::MAX,
            ;
        }
        acc = acc + s[i] as u64;
        i = i + 1;
    }
    assert(s@.take(s@.len() as int) =~= s@);
    acc
}

fn pick_percentile(sorted: &Vec<u32>, q: u64) -> (v: u32)
    requires
        0 < sorted@.len() <= AGG_CAP,
        q <= 100,
    ensures
        v == sorted@[percentile_index(sorted@.len(), q as nat)],
{
    let n = sorted.len() as u64;
    assert((n - 1) * q <= 51100) by (nonlinear_arith)
        requires
            0 < n <= 512,
            q <= 100,
    ;
    let raw = ((n - 1) * q + 50) / 100;
    let idx = if raw < n - 1 { raw } else { n - 1 };
    sorted[idx as usize]
}

/// Percentiles over the same samples are ordered (p50 <= p95 <= p99), and each
/// of them is one of the samples.
pub proof fn lemma_percentiles_ordered(s: Seq<u32>)
    requires
        s.len() > 0,
    ensures
        ({
            let t = sorted_samples(s);
            let n = s.len();
            &&& t[percentile_index(n, 50)] <= t[percentile_index(n, 95)]
            &&& t[percentile_index(n, 95)] <= t[percentile_index(n, 99)]
            &&& s.contains(t[percentile_index(n, 50)])
            &&& s.contains(t[percentile_index(n, 95)])
            &&& s.contains(t[percentile_index(n, 99)])
        }),
{
    lemma_sample_leq_total();
    s.lemma_sort_by_ensures(sample_leq());
    let t = sorted_samples(s);
    let n = s.len();
    assert(t.to_multiset().len() == s.to_multiset().len());
    assert(t.len() == n);
    let m = (n - 1) as int;
    assert(((m * 50 + 50) / 100) <= ((m * 95 + 50) / 100) <= ((m * 99 + 50) / 100))
        by (nonlinear_arith)
        requires
            m >= 0,
    ;
    let i50 = percentile_index(n, 50);
    let i95 = percentile_index(n, 95);
    let i99 = percentile_index(n, 99);
    assert(0 <= i50 <= i95 <= i99 < n);
    if i50 < i95 {
        assert(sample_leq()(t[i50], t[i95]));
    }
    if i95 < i99 {
        assert(sample_leq()(t[i95], t[i99]));
    }
    assert(t.contains(t[i50]));
    assert(t.contains(t[i95]));
    assert(t.contains(t[i99]));
}

/// The rank (from 0) of the `q`-th percentile among `n` sorted samples:
/// `(n - 1) * q / 100` rounded to the nearest whole number, halves up.
pub open spec fn rank_of(n: nat, q: nat) -> int {
    let exact_times_100 = (n as int - 1) * q as int;
    let r = (exact_times_100 + 50) / 100;
    if r > n as int - 1 { n as int - 1 } else { r }
}

/// Every sample is at most `m`.
pub open spec fn all_at_most(s: Seq<u32>, m: u32) -> bool {
    forall|i: int| 0 <= i < s.len() ==> s[i] <= m
}

/// Every sample is at least `m`.
pub open spec fn all_at_least(s: Seq<u32>, m: u32) -> bool {
    forall|i: int| 0 <= i < s.len() ==> s[i] >= m
}

proof fn lemma_sum_upper(s: Seq<u32>, hi: u32)
    requires
        forall|i: int| 0 <= i < s.len() ==> s[i] <= hi,
    ensures
        sample_sum(s) <= s.len() * (hi as nat),
    decreases s.len(),
{
    if s.len() > 0 {
        let t = s.drop_last();
        assert forall|i: int| 0 <= i < t.len() implies t[i] <= hi by {
            assert(t[i] == s[i]);
        }
        lemma_sum_upper(t, hi);
        assert(s.last() == s[s.len() - 1]);
        let k = t.len();
        assert(k * (hi as nat) + hi as nat == (k + 1) * (hi as nat)) by (nonlinear_arith);
    }
}

proof fn lemma_sum_lower(s: Seq<u32>, lo: u32)
    requires
        forall|i: int| 0 <= i < s.len() ==> s[i] >= lo,
    ensures
        sample_sum(s) >= s.len() * (lo as nat),
    decreases s.len(),
{
    if s.len() > 0 {
        let t = s.drop_last();
        assert forall|i: int| 0 <= i < t.len() implies t[i] >= lo by {
            assert(t[i] == s[i]);
        }
        lemma_sum_lower(t, lo);
        assert(s.last() == s[s.len() - 1]);
        let k = t.len();
        assert(k * (lo as nat) + lo as nat == (k + 1) * (lo as nat)) by (nonlinear_arith);
    }
}

/// Duration samples (microseconds) of one stage, in a ring that keeps the last
/// `AGG_CAP` of them.
pub struct Agg {
    samples: Vec<u32>,
    write: usize,
    count: usize,
}

impl Agg {
    /// The aggregate's internal invariant.
    pub closed spec fn wf(&self) -> bool {
        &&& self.samples@.len() == AGG_CAP
        &&& self.count <= AGG_CAP
        &&& self.count < AGG_CAP ==> self.write == self.count
    }

    /// Number of samples held.
    pub closed spec fn spec_count(&self) -> nat {
        self.count as nat
    }

    /// Total number of samples ever pushed, modulo the word size.
    pub closed spec fn spec_write(&self) -> usize {
        self.write
    }

    /// The held samples in slot order, which is what the statistics read.
    pub closed spec fn window(&self) -> Seq<u32> {
        self.samples@.subrange(0, self.count as int)
    }

    /// The held samples from the oldest to the newest.
    pub closed spec fn history(&self) -> Seq<u32> {
        if self.count < AGG_CAP {
            self.samples@.subrange(0, self.count as int)
        } else {
            let w = (self.write % AGG_CAP) as int;
            self.samples@.subrange(w, AGG_CAP as int) + self.samples@.subrange(0, w)
        }
    }

    /// The statistics read the same samples as the history holds: whatever the
    /// ring's rotation, the held samples are exactly the most recent ones.
    pub proof fn lemma_window_is_history(&self)
        requires
            self.wf(),
        ensures
            self.window().to_multiset() == self.history().to_multiset(),
            self.window().len() == self.spec_count(),
            self.history().len() == self.spec_count(),
    {
        if self.count == AGG_CAP {
            let w = (self.write % AGG_CAP) as int;
            let a = self.samples@;
            assert(self.window() =~= a.subrange(0, w) + a.subrange(w, AGG_CAP as int));
            vstd::seq_lib::lemma_multiset_commutative(a.subrange(0, w), a.subrange(w, AGG_CAP as int));
            vstd::seq_lib::lemma_multiset_commutative(a.subrange(w, AGG_CAP as int), a.subrange(0, w));
            assert(a.subrange(0, w).to_multiset().add(a.subrange(w, AGG_CAP as int).to_multiset())
                =~= a.subrange(w, AGG_CAP as int).to_multiset().add(a.subrange(0, w).to_multiset()));
        }
    }

    /// What `percentiles_us` returns: mean, 50th, 95th and 99th percentile.
    pub closed spec fn spec_stats(&self) -> (u32, u32, u32, u32) {
        if self.count == 0 {
            (0u32, 0u32, 0u32, 0u32)
        } else {
            let n = self.count as nat;
            let s = sorted_samples(self.window());
            (
                (sample_sum(self.window()) / n) as u32,
                s[percentile_index(n, 50)],
                s[percentile_index(n, 95)],
                s[percentile_index(n, 99)],
            )
        }
    }

    /// What the statistics of a non-empty aggregate are, whatever the ring's
    /// rotation: the 50th, 95th and 99th percentiles are held samples in that
    /// (non-decreasing) order, and the mean lies between the smallest and the
    /// largest held sample: it is the sum of the held samples divided by their
    /// number, rounded down; the percentiles are the samples of those ranks.
    pub proof fn lemma_stats_law(&self)
        requires
            self.wf(),
            self.spec_count() > 0,
        ensures
            ({
                let (mean, p50, p95, p99) = self.spec_stats();
                let h = self.history();
                &&& mean as nat == sample_sum(self.window()) / self.spec_count()
                &&& p50 == sorted_samples(self.window())[rank_of(self.spec_count(), 50)]
                &&& p95 == sorted_samples(self.window())[rank_of(self.spec_count(), 95)]
                &&& p99 == sorted_samples(self.window())[rank_of(self.spec_count(), 99)]
                &&& p50 <= p95
                &&& p95 <= p99
                &&& h.contains(p50)
                &&& h.contains(p95)
                &&& h.contains(p99)
                &&& forall|m: u32| #[trigger] all_at_most(h, m) ==> mean <= m
                &&& forall|m: u32| #[trigger] all_at_least(h, m) ==> mean >= m
            }),
    {
        self.lemma_window_is_history();
        let w = self.window();
        let h = self.history();
        let n = self.spec_count();
        lemma_percentiles_ordered(w);
        let t = sorted_samples(w);
        let x50 = t[percentile_index(n, 50)];
        let x95 = t[percentile_index(n, 95)];
        let x99 = t[percentile_index(n, 99)];
        assert(w.to_multiset().count(x50) > 0);
        assert(w.to_multiset().count(x95) > 0);
        assert(w.to_multiset().count(x99) > 0);
        assert(h.contains(x50) && h.contains(x95) && h.contains(x99));
        let mean = (sample_sum(w) / n) as u32;
        assert(sample_sum(w) <= w.len() * (u32::MAX as nat)) by {
            lemma_sum_upper(w, u32::MAX);
        }
        assert(sample_sum(w) / n <= u32::MAX) by (nonlinear_arith)
            requires
                sample_sum(w) <= n * (u32::MAX as nat),
                n > 0,
        ;
        assert forall|m: u32| #[trigger] all_at_most(h, m) implies mean <= m by {
            assert forall|i: int| 0 <= i < w.len() implies w[i] <= m by {
                assert(w.to_multiset().count(w[i]) > 0);
                assert(h.contains(w[i]));
            }
            lemma_sum_upper(w, m);
            assert(sample_sum(w) / n <= m) by (nonlinear_arith)
                requires
                    sample_sum(w) <= n * (m as nat),
                    n > 0,
            ;
        }
        assert forall|m: u32| #[trigger] all_at_least(h, m) implies mean >= m by {
            assert forall|i: int| 0 <= i < w.len() implies w[i] >= m by {
                assert(w.to_multiset().count(w[i]) > 0);
                assert(h.contains(w[i]));
            }
            lemma_sum_lower(w, m);
            assert(sample_sum(w) / n >= m) by (nonlinear_arith)
                requires
                    sample_sum(w) >= n * (m as nat),
                    n > 0,
            ;
        }
    }

    /// `new` is `old` after pushing the sample `us`.
    pub open spec fn spec_pushed(old: Agg, new: Agg, us: u32) -> bool {
        &&& new.wf()
        &&& new.spec_write() == vstd::wrapping::usize_specs::wrapping_add(old.spec_write(), 1)
        &&& new.spec_count() == if old.spec_count() + 1 < AGG_CAP {
            old.spec_count() + 1
        } else {
            AGG_CAP as nat
        }
        &&& new.history() == last_window(old.history().push(us))
    }

    pub fn new() -> (a: Agg)
        ensures
            a.wf(),
            a.spec_count() == 0,
            a.spec_write() == 0,
            a.history() == Seq::<u32>::empty(),
    {
        let mut samples: Vec<u32> = Vec::new();
        let mut i: usize = 0;
        while i < AGG_CAP
            invariant
                i <= AGG_CAP,
                samples@.len() == i,
            decreases AGG_CAP - i,
        {
            samples.push(0);
            i = i + 1;
        }
        let a = Agg { samples, write: 0, count: 0 };
        assert(a.history() =~= Seq::<u32>::empty());
        a
    }

    /// Number of samples held (at most `AGG_CAP`).
    pub fn count(&self) -> (c: usize)
        ensures
            c == self.spec_count(),
    {
        self.count
    }

    /// Mean, 50th, 95th and 99th percentile of the held samples; all zero when
    /// there are none.
    pub fn percentiles_us(&self) -> (r: (u32, u32, u32, u32))
        requires
            self.wf(),
        ensures
            r == self.spec_stats(),
            self.spec_count() == 0 ==> r == (0u32, 0u32, 0u32, 0u32),
            self.spec_count() > 0 ==> {
                let n = self.spec_count();
                let s = sorted_samples(self.window());
                &&& r.0 == sample_sum(self.window()) / n
                &&& r.1 == s[percentile_index(n, 50)]
                &&& r.2 == s[percentile_index(n, 95)]
                &&& r.3 == s[percentile_index(n, 99)]
            },
    {
        if self.count == 0 {
            return (0, 0, 0, 0);
        }
        let mut tmp: Vec<u32> = Vec::new();
        let mut i: usize = 0;
        while i < self.count
            invariant
                self.wf(),
                i <= self.count,
                tmp@ == self.samples@.subrange(0, i as int),
            decreases self.count - i,
        {
            tmp.push(self.samples[i]);
            i = i + 1;
        }
        let sum = sum_samples(&tmp);
        let n = tmp.len() as u64;
        let mean = sum / n;
        assert(mean <= u32::MAX) by (nonlinear_arith)
            requires
                sum <= n * (u32::MAX as nat),
                n > 0,
                mean == sum / n,
        ;
        let sorted = sort_ascending(&tmp);
        proof {
            lemma_sample_leq_total();
            tmp@.lemma_sort_by_ensures(sample_leq());
            assert(sorted@.to_multiset().len() == tmp@.to_multiset().len());
            assert(sorted@.len() == tmp@.len());
        }
        let p50 = pick_percentile(&sorted, 50);
        let p95 = pick_percentile(&sorted, 95);
        let p99 = pick_percentile(&sorted, 99);
        (mean as u32, p50, p95, p99)
    }

    /// Records one duration sample, overwriting the oldest when full.
    pub fn push_us(&mut self, us: u32)
        requires
            old(self).wf(),
        ensures
            Agg::spec_pushed(*old(self), *final(self), us),
    {
        let ghost old_samples = self.samples@;
        let ghost old_hist = self.history();
        let slot = self.write % AGG_CAP;
        self.samples.set(slot, us);
        self.write = self.write.wrapping_add(1);
        let c = self.count + 1;
        self.count = if c < AGG_CAP { c } else { AGG_CAP };
        proof {
            let a = old_samples;
            let a2 = self.samples@;
            assert(a2 == a.update(slot as int, us));
            if old(self).count < AGG_CAP {
                assert(slot == old(self).count);
                assert(old_hist.push(us) =~= a2.subrange(0, c as int));
                if c < AGG_CAP {
                    assert(self.history() =~= last_window(old_hist.push(us)));
                } else {
                    assert(self.write == AGG_CAP);
                    assert(self.write % AGG_CAP == 0);
                    assert(self.history() =~= a2.subrange(0, AGG_CAP as int));
                    assert(last_window(old_hist.push(us)) =~= old_hist.push(us));
                }
            } else {
                let w = slot as int;
                assert(usize::MAX == 0xffff_ffff || usize::MAX == 0xffff_ffff_ffff_ffff);
                assert(self.write % AGG_CAP == (w + 1) % (AGG_CAP as int));
                let pushed = old_hist.push(us);
                assert(pushed.len() == AGG_CAP + 1);
                let lw = last_window(pushed);
                assert(lw =~= pushed.subrange(1, AGG_CAP as int + 1));
                if w + 1 < AGG_CAP {
                    assert(self.history() =~= a2.subrange(w + 1, AGG_CAP as int) + a2.subrange(
                        0,
                        w + 1,
                    ));
                    assert(lw =~= a.subrange(w + 1, AGG_CAP as int) + a.subrange(0, w).push(us));
                    assert(self.history() =~= lw);
                } else {
                    assert(self.history() =~= a2.subrange(0, AGG_CAP as int) + a2.subrange(0, 0));
                    assert(lw =~= a.subrange(0, w).push(us));
                    assert(self.history() =~= lw);
                }
            }
        }
    }
}

} // verus!
