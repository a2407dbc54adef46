use std::collections::VecDeque;
use vstd::prelude::*;

verus! {

broadcast use vstd::std_specs::vecdeque::group_vec_dequeue_axioms;

/// Number of elements of `s` below `v`.
pub open spec fn count_below(s: Seq<u64>, v: u64) -> nat
    decreases s.len(),
{
    if s.len() == 0 {
        0
    } else {
        count_below(s.drop_last(), v) + if s.last() < v {
            1nat
        } else {
            0nat
        }
    }
}

/// Number of elements of `s` at most `v`.
pub open spec fn count_at_most(s: Seq<u64>, v: u64) -> nat
    decreases s.len(),
{
    if s.len() == 0 {
        0
    } else {
        count_at_most(s.drop_last(), v) + if s.last() <= v {
            1nat
        } else {
            0nat
        }
    }
}

/// Whether `v` is what stands at index `k` once `s` is sorted: fewer than `k + 1`
/// elements lie below it and more than `k` lie at or below it.
pub open spec fn is_order_statistic(s: Seq<u64>, k: int, v: u64) -> bool {
    s.contains(v) && count_below(s, v) <= k && k < count_at_most(s, v)
}

/// The gaps between consecutive marks.
pub open spec fn gaps(marks: Seq<u64>) -> Seq<u64> {
    if marks.len() == 0 {
        Seq::empty()
    } else {
        Seq::new((marks.len() - 1) as nat, |i: int| (marks[i + 1] - marks[i]) as u64)
    }
}

/// Whether the marks never go back in time.
pub open spec fn monotone(marks: Seq<u64>) -> bool {
    forall|i: int, j: int| 0 <= i <= j < marks.len() ==> marks[i] <= marks[j]
}

/// The number of marks a counter made for `window_size` keeps.
pub open spec fn window_of(window_size: usize) -> nat {
    if window_size == 0 {
        1
    } else {
        window_size as nat
    }
}

/// Measures the rate of ticks from the times of the last few of them, in nanoseconds of
/// a monotonic clock.
pub struct Counter {
    marks: VecDeque<u64>,
    window: usize,
}

impl Counter {
    /// The marks kept, oldest first.
    pub closed spec fn marks(&self) -> Seq<u64> {
        self.marks@
    }

    /// The number of marks kept at most.
    pub closed spec fn window(&self) -> nat {
        self.window as nat
    }

    pub closed spec fn wf(&self) -> bool {
        &&& self.window >= 1
        &&& self.marks@.len() <= self.window
        &&& monotone(self.marks@)
    }

    /// A counter that keeps the last `window_size` marks.
    pub fn new(window_size: usize) -> (res: Counter)
        ensures
            res.wf(),
            res.marks() == Seq::<u64>::empty(),
            res.window() == window_of(window_size),
    {
        let window = if window_size == 0 {
            1
        } else {
            window_size
        };
        Counter { marks: VecDeque::new(), window }
    }

    /// Records a tick at `now`, dropping the oldest mark if the window is full.
    pub fn mark(&mut self, now: u64)
        requires
            old(self).wf(),
            old(self).marks().len() > 0 ==> old(self).marks().last() <= now,
        ensures
            final(self).wf(),
            final(self).window() == old(self).window(),
            final(self).marks() == if old(self).marks().len() == old(self).window() {
                old(self).marks().drop_first().push(now)
            } else {
                old(self).marks().push(now)
            },
    {
        if self.marks.len() == self.window {
            self.marks.pop_front();
        }
        self.marks.push_back(now);
        proof {
            let m = self.marks@;
            assert forall|i: int, j: int| 0 <= i <= j < m.len() implies m[i] <= m[j] by {
                if j == m.len() - 1 && i < j {
                    let o = old(self).marks();
                    assert(o[o.len() - 1] <= now);
                }
            }
        }
    }

    /// The median gap between consecutive marks (the one at index `len / 2` once the
    /// gaps are sorted); zero with fewer than two marks.
    pub fn median_duration(&self) -> (res: u64)
        requires
            self.wf(),
        ensures
            gaps(self.marks()).len() == 0 ==> res == 0,
            gaps(self.marks()).len() > 0 ==> is_order_statistic(
                gaps(self.marks()),
                (gaps(self.marks()).len() / 2) as int,
                res,
            ),
    {
        let n = self.marks.len();
        if n < 2 {
            return 0;
        }
        let mut durations: Vec<u64> = Vec::new();
        let mut i: usize = 1;
        while i < n
            invariant
                1 <= i <= n,
                n == self.marks@.len(),
                monotone(self.marks@),
                durations@ == gaps(self.marks@).subrange(0, (i - 1) as int),
            decreases n - i,
        {
            let prev = self.marks[i - 1];
            let cur = self.marks[i];
            durations.push(cur - prev);
            i = i + 1;
            assert(durations@ =~= gaps(self.marks@).subrange(0, (i - 1) as int));
        }
        assert(durations@ =~= gaps(self.marks@));
        let mid = durations.len() / 2;
        select_nth(&durations, mid)
    }
}

/// Counting below and at most `v` over `s` pushed with `x`.
proof fn lemma_counts_push(s: Seq<u64>, x: u64, v: u64)
    ensures
        count_below(s.push(x), v) == count_below(s, v) + if x < v {
            1nat
        } else {
            0nat
        },
        count_at_most(s.push(x), v) == count_at_most(s, v) + if x <= v {
            1nat
        } else {
            0nat
        },
{
    assert(s.push(x).drop_last() =~= s);
}

/// There are more elements at most `v` than below `v` when `v` occurs.
proof fn lemma_counts_contains(s: Seq<u64>, v: u64)
    ensures
        count_below(s, v) <= count_at_most(s, v),
        s.contains(v) ==> count_below(s, v) < count_at_most(s, v),
        count_at_most(s, v) <= s.len(),
    decreases s.len(),
{
    if s.len() > 0 {
        lemma_counts_contains(s.drop_last(), v);
        if s.contains(v) && s.last() != v {
            let k = choose|k: int| 0 <= k < s.len() && s[k] == v;
            assert(s.drop_last()[k] == v);
        }
    }
}

/// The element at index `k` of `v` once sorted.
fn select_nth(v: &Vec<u64>, k: usize) -> (res: u64)
    requires
        k < v@.len(),
    ensures
        is_order_statistic(v@, k as int, res),
{
    let n = v.len();
    let mut j: usize = 0;
    while j < n
        invariant
            j <= n,
            n == v@.len(),
            k < n,
            forall|t: int| 0 <= t < j ==> !is_order_statistic(v@, k as int, #[trigger] v@[t]),
        decreases n - j,
    {
        let cand = v[j];
        let mut below: usize = 0;
        let mut at_most: usize = 0;
        let mut i: usize = 0;
        while i < n
            invariant
                i <= n,
                n == v@.len(),
                below == count_below(v@.subrange(0, i as int), cand),
                at_most == count_at_most(v@.subrange(0, i as int), cand),
                below <= i,
                at_most <= i,
            decreases n - i,
        {
            proof {
                lemma_counts_push(v@.subrange(0, i as int), v@[i as int], cand);
                assert(v@.subrange(0, i as int).push(v@[i as int]) =~= v@.subrange(0, i + 1));
            }
            if v[i] < cand {
                below = below + 1;
            }
            if v[i] <= cand {
                at_most = at_most + 1;
            }
            i = i + 1;
        }
        assert(v@.subrange(0, n as int) =~= v@);
        if below <= k && k < at_most {
            assert(v@.contains(cand)) by {
                assert(v@[j as int] == cand);
            }
            return cand;
        }
        j = j + 1;
    }
    proof {
        lemma_order_statistic_exists(v@, k as int);
    }
    0
}

/// Some element of a sequence stands at index `k` once it is sorted.
proof fn lemma_order_statistic_exists(s: Seq<u64>, k: int)
    requires
        0 <= k < s.len(),
    ensures
        exists|t: int| 0 <= t < s.len() && is_order_statistic(s, k, #[trigger] s[t]),
{
    // The smallest element with more than `k` elements at or below it.
    let t = lemma_first_exceeding(s, k);
    let v = s[t];
    lemma_counts_contains(s, v);
    if count_below(s, v) > k {
        // Some element below `v` would already have more than `k` at or below it.
        let w = lemma_largest_below(s, v);
        assert(count_at_most(s, s[w]) == count_below(s, v)) by {
            lemma_no_gap(s, s[w], v);
        }
        assert(false);
    }
    assert(is_order_statistic(s, k, s[t]));
}

/// An index whose element has more than `k` elements at or below it, and is the
/// smallest such element.
proof fn lemma_first_exceeding(s: Seq<u64>, k: int) -> (t: int)
    requires
        0 <= k < s.len(),
    ensures
        0 <= t < s.len(),
        count_at_most(s, s[t]) > k,
        forall|u: int| 0 <= u < s.len() && s[u] < s[t] ==> count_at_most(s, #[trigger] s[u]) <= k,
{
    let m = lemma_max_index(s);
    lemma_count_at_most_all(s, s[m]);
    lemma_first_exceeding_from(s, k, m)
}

/// Descends from `t` to the smallest element with more than `k` at or below it.
proof fn lemma_first_exceeding_from(s: Seq<u64>, k: int, t: int) -> (r: int)
    requires
        0 <= k < s.len(),
        0 <= t < s.len(),
        count_at_most(s, s[t]) > k,
    ensures
        0 <= r < s.len(),
        count_at_most(s, s[r]) > k,
        forall|u: int| 0 <= u < s.len() && s[u] < s[r] ==> count_at_most(s, #[trigger] s[u]) <= k,
    decreases s[t],
{
    if exists|u: int| 0 <= u < s.len() && s[u] < s[t] && count_at_most(s, #[trigger] s[u]) > k {
        let u = choose|u: int| 0 <= u < s.len() && s[u] < s[t] && count_at_most(s, #[trigger] s[u]) > k;
        lemma_first_exceeding_from(s, k, u)
    } else {
        t
    }
}

/// An index of a largest element.
proof fn lemma_max_index(s: Seq<u64>) -> (m: int)
    requires
        s.len() > 0,
    ensures
        0 <= m < s.len(),
        forall|i: int| 0 <= i < s.len() ==> s[i] <= s[m],
    decreases s.len(),
{
    if s.len() == 1 {
        0
    } else {
        let m0 = lemma_max_index(s.drop_last());
        let r = if s.last() >= s[m0] {
            (s.len() - 1) as int
        } else {
            m0
        };
        assert forall|i: int| 0 <= i < s.len() implies s[i] <= s[r] by {
            if i < s.len() - 1 {
                assert(s.drop_last()[i] == s[i]);
            }
        }
        r
    }
}

/// Every element is at most the largest one.
proof fn lemma_count_at_most_all(s: Seq<u64>, v: u64)
    requires
        forall|i: int| 0 <= i < s.len() ==> s[i] <= v,
    ensures
        count_at_most(s, v) == s.len(),
    decreases s.len(),
{
    if s.len() > 0 {
        lemma_count_at_most_all(s.drop_last(), v);
    }
}

/// Where some element lies below `v`, an index of the largest of them.
proof fn lemma_largest_below(s: Seq<u64>, v: u64) -> (w: int)
    requires
        count_below(s, v) > 0,
    ensures
        0 <= w < s.len(),
        s[w] < v,
        forall|i: int| 0 <= i < s.len() && s[i] < v ==> s[i] <= s[w],
    decreases s.len(),
{
    if count_below(s.drop_last(), v) > 0 {
        let w0 = lemma_largest_below(s.drop_last(), v);
        let r = if s.last() < v && s.last() > s[w0] {
            (s.len() - 1) as int
        } else {
            w0
        };
        assert forall|i: int| 0 <= i < s.len() && s[i] < v implies s[i] <= s[r] by {
            if i < s.len() - 1 {
                assert(s.drop_last()[i] == s[i]);
            }
        }
        r
    } else {
        assert(s.last() < v);
        lemma_none_below(s.drop_last(), v);
        assert forall|i: int| 0 <= i < s.len() && #[trigger] s[i] < v implies s[i] <= s[s.len() - 1] by {
            if i < s.len() - 1 {
                assert(s.drop_last()[i] == s[i]);
            }
        }
        (s.len() - 1) as int
    }
}

/// With nothing below `v`, every element is at least `v`.
proof fn lemma_none_below(s: Seq<u64>, v: u64)
    requires
        count_below(s, v) == 0,
    ensures
        forall|i: int| 0 <= i < s.len() ==> s[i] >= v,
    decreases s.len(),
{
    if s.len() > 0 {
        lemma_none_below(s.drop_last(), v);
        assert forall|i: int| 0 <= i < s.len() implies s[i] >= v by {
            if i < s.len() - 1 {
                assert(s.drop_last()[i] == s[i]);
            }
        }
    }
}

/// When no element lies strictly between `a` and `b`, the elements at most `a` are the
/// ones below `b`.
proof fn lemma_no_gap(s: Seq<u64>, a: u64, b: u64)
    requires
        a < b,
        forall|i: int| 0 <= i < s.len() && s[i] < b ==> s[i] <= a,
    ensures
        count_at_most(s, a) == count_below(s, b),
    decreases s.len(),
{
    if s.len() > 0 {
        lemma_no_gap(s.drop_last(), a, b);
        assert(s.last() == s[s.len() - 1]);
    }
}

} // verus!
