use vstd::prelude::*;

verus! {

/// Sum of all the samples.
pub open spec fn seq_sum(s: Seq<u64>) -> int
    decreases s.len(),
{
    if s.len() == 0 {
        0
    } else {
        seq_sum(s.drop_last()) + s.last()
    }
}

/// Smallest sample of a non-empty sequence.
pub open spec fn seq_min(s: Seq<u64>) -> u64
    decreases s.len(),
{
    if s.len() <= 1 {
        s[0]
    } else {
        let m = seq_min(s.drop_last());
        if s.last() < m {
            s.last()
        } else {
            m
        }
    }
}

/// Largest sample of a non-empty sequence.
pub open spec fn seq_max(s: Seq<u64>) -> u64
    decreases s.len(),
{
    if s.len() <= 1 {
        s[0]
    } else {
        let m = seq_max(s.drop_last());
        if s.last() > m {
            s.last()
        } else {
            m
        }
    }
}

/// `seq_min` is a lower bound that the sequence reaches, `seq_max` an upper one.
pub proof fn lemma_min_max_bounds(s: Seq<u64>)
    requires
        s.len() > 0,
    ensures
        forall|i: int| 0 <= i < s.len() ==> seq_min(s) <= #[trigger] s[i] <= seq_max(s),
        exists|i: int| 0 <= i < s.len() && s[i] == seq_min(s),
        exists|j: int| 0 <= j < s.len() && s[j] == seq_max(s),
    decreases s.len(),
{
    if s.len() > 1 {
        let t = s.drop_last();
        lemma_min_max_bounds(t);
        assert forall|i: int| 0 <= i < s.len() implies seq_min(s) <= #[trigger] s[i] <= seq_max(s) by {
            if i < t.len() {
                assert(s[i] == t[i]);
            }
        }
        let a = choose|i: int| 0 <= i < t.len() && t[i] == seq_min(t);
        let b = choose|j: int| 0 <= j < t.len() && t[j] == seq_max(t);
        let k = s.len() - 1;
        assert(s[a] == t[a] && s[b] == t[b]);
        assert(s[k] == s.last());
        if s.last() < seq_min(t) {
            assert(s[k] == seq_min(s));
        } else {
            assert(s[a] == seq_min(s));
        }
        if s.last() > seq_max(t) {
            assert(s[k] == seq_max(s));
        } else {
            assert(s[b] == seq_max(s));
        }
    } else {
        assert(s[0] == seq_min(s) && s[0] == seq_max(s));
    }
}

/// Summary figures of one series.
#[derive(Debug, Clone, Copy, PartialEq, Eq, Structural)]
pub struct SeriesStats {
    /// Newest sample.
    pub last: u64,
    /// Largest sample.
    pub max: u64,
    /// Smallest sample.
    pub min: u64,
    /// Sum of the samples; with `count` it gives the average.
    pub sum: u128,
    /// Number of samples.
    pub count: usize,
    /// Newest sample minus oldest sample.
    pub delta: i128,
}

/// Direction in which a series moved from its oldest to its newest sample.
#[derive(Debug, Clone, Copy, PartialEq, Eq, Structural)]
pub enum Trend {
    Rising,
    Falling,
    Steady,
}

impl SeriesStats {
    /// The figures that describe `s`; all zero for an empty series.
    pub open spec fn describes(self, s: Seq<u64>) -> bool {
        &&& self.count == s.len()
        &&& self.sum == seq_sum(s)
        &&& if s.len() == 0 {
            self.last == 0 && self.max == 0 && self.min == 0 && self.delta == 0
        } else {
            &&& self.last == s.last()
            &&& self.min == seq_min(s)
            &&& self.max == seq_max(s)
            &&& self.delta == s.last() - s[0]
        }
    }

    /// Computes last, smallest, largest, sum and change of a series.
    pub fn from_series(series: &[u64]) -> (r: SeriesStats)
        ensures
            r.describes(series@),
    {
        let n = series.len();
        if n == 0 {
            return SeriesStats { last: 0, max: 0, min: 0, sum: 0, count: 0, delta: 0 };
        }
        let first = series[0];
        let mut min: u64 = first;
        let mut max: u64 = first;
        let mut sum: u128 = 0;
        let mut i: usize = 0;
        while i < n
            invariant
                n == series@.len(),
                0 < n,
                i <= n,
                first == series@[0],
                sum == seq_sum(series@.take(i as int)),
                sum <= i * 0xFFFF_FFFF_FFFF_FFFFu128,
                i == 0 ==> min == first && max == first,
                i > 0 ==> min == seq_min(series@.take(i as int)),
                i > 0 ==> max == seq_max(series@.take(i as int)),
            decreases n - i,
        {
            let value = series[i];
            let ghost prefix = series@.take(i as int);
            let ghost next = series@.take(i + 1);
            assert(next.drop_last() =~= prefix);
            assert(next.last() == value);
            if value < min {
                min = value;
            }
            if value > max {
                max = value;
            }
            proof {
                assert(i <= 0xFFFF_FFFF_FFFF_FFFFu128) by {
                    assert(i < n);
                }
                assert(sum + value <= (i + 1) * 0xFFFF_FFFF_FFFF_FFFFu128) by (nonlinear_arith)
                    requires
                        sum <= i * 0xFFFF_FFFF_FFFF_FFFFu128,
                        value <= 0xFFFF_FFFF_FFFF_FFFFu64,
                ;
                assert((i + 1) * 0xFFFF_FFFF_FFFF_FFFFu128 <= 0x1_0000_0000_0000_0000u128
                    * 0xFFFF_FFFF_FFFF_FFFFu128) by (nonlinear_arith)
                    requires
                        i + 1 <= 0x1_0000_0000_0000_0000u128,
                ;
                if i == 0 {
                    assert(next.len() == 1);
                    assert(next[0] == value);
                }
            }
            sum = sum + value as u128;
            i = i + 1;
        }
        assert(series@.take(n as int) =~= series@);
        let last = series[n - 1];
        SeriesStats { last, max, min, sum, count: n, delta: last as i128 - first as i128 }
    }

    /// Direction of the change from the oldest to the newest sample.
    pub fn trend(&self) -> (r: Trend)
        ensures
            self.delta > 0 <==> r == Trend::Rising,
            self.delta < 0 <==> r == Trend::Falling,
            self.delta == 0 <==> r == Trend::Steady,
    {
        if self.delta > 0 {
            Trend::Rising
        } else if self.delta < 0 {
            Trend::Falling
        } else {
            Trend::Steady
        }
    }

    /// An arrow for the direction of the change: up, down or level.
    pub fn trend_symbol(&self) -> (r: &'static str)
        ensures
            self.delta > 0 ==> r@ == "↑"@,
            self.delta < 0 ==> r@ == "↓"@,
            self.delta == 0 ==> r@ == "→"@,
    {
        match self.trend() {
            Trend::Rising => "↑",
            Trend::Falling => "↓",
            Trend::Steady => "→",
        }
    }

    /// Size of the change from the oldest to the newest sample.
    pub fn trend_magnitude(&self) -> (r: u64)
        requires
            -0xFFFF_FFFF_FFFF_FFFFi128 <= self.delta <= 0xFFFF_FFFF_FFFF_FFFFi128,
        ensures
            r == if self.delta < 0 {
                -self.delta
            } else {
                self.delta as int
            },
    {
        if self.delta < 0 {
            (-self.delta) as u64
        } else {
            self.delta as u64
        }
    }
}

/// Number of samples over all the series.
pub open spec fn total_len(s: Seq<Seq<u64>>) -> int
    decreases s.len(),
{
    if s.len() == 0 {
        0
    } else {
        total_len(s.drop_last()) + s.last().len()
    }
}

/// Sum of the newest sample of each non-empty series.
pub open spec fn latest_sum(s: Seq<Seq<u64>>) -> int
    decreases s.len(),
{
    if s.len() == 0 {
        0
    } else {
        latest_sum(s.drop_last()) + if s.last().len() > 0 {
            s.last().last() as int
        } else {
            0
        }
    }
}

/// Number of non-empty series.
pub open spec fn nonempty_count(s: Seq<Seq<u64>>) -> int
    decreases s.len(),
{
    if s.len() == 0 {
        0
    } else {
        nonempty_count(s.drop_last()) + if s.last().len() > 0 {
            1int
        } else {
            0
        }
    }
}

/// All samples of all the series, series after series.
pub open spec fn all_samples(s: Seq<Seq<u64>>) -> Seq<u64>
    decreases s.len(),
{
    if s.len() == 0 {
        Seq::empty()
    } else {
        all_samples(s.drop_last()) + s.last()
    }
}

/// Figures over several series at once.
#[derive(Debug, Clone, Copy, PartialEq, Eq, Structural)]
pub struct TelemetrySummary {
    /// Number of samples over all the series.
    pub total_samples: u128,
    /// Sum of the newest sample of each non-empty series.
    pub latest_sum: u128,
    /// Number of non-empty series; with `latest_sum` it gives the average
    /// newest sample.
    pub latest_count: usize,
    /// Largest sample minus smallest sample over all the series; zero when
    /// there is no sample.
    pub spread: u64,
}

impl TelemetrySummary {
    /// The figures that describe the series `s`.
    pub open spec fn describes(self, s: Seq<Seq<u64>>) -> bool {
        &&& self.total_samples == total_len(s)
        &&& self.latest_sum == latest_sum(s)
        &&& self.latest_count == nonempty_count(s)
        &&& self.spread == if all_samples(s).len() == 0 {
            0
        } else {
            seq_max(all_samples(s)) - seq_min(all_samples(s))
        }
    }

    /// Computes the figures over all the series.
    pub fn from_series(data: &[Vec<u64>]) -> (r: TelemetrySummary)
        ensures
            r.describes(data@.map_values(|v: Vec<u64>| v@)),
    {
        let ghost d = data@.map_values(|v: Vec<u64>| v@);
        let mut total: u128 = 0;
        let mut latest: u128 = 0;
        let mut count: usize = 0;
        let mut min: u64 = 0;
        let mut max: u64 = 0;
        let mut has_value = false;
        let mut i: usize = 0;
        while i < data.len()
            invariant
                d == data@.map_values(|v: Vec<u64>| v@),
                i <= data@.len(),
                total == total_len(d.take(i as int)),
                latest == latest_sum(d.take(i as int)),
                count == nonempty_count(d.take(i as int)),
                total <= i * 0x1_0000_0000_0000_0000u128,
                latest <= i * 0xFFFF_FFFF_FFFF_FFFFu128,
                count <= i,
                has_value == (all_samples(d.take(i as int)).len() > 0),
                has_value ==> min == seq_min(all_samples(d.take(i as int))),
                has_value ==> max == seq_max(all_samples(d.take(i as int))),
            decreases data@.len() - i,
        {
            let series = &data[i];
            let n = series.len();
            let ghost before = all_samples(d.take(i as int));
            assert(d.take(i + 1).drop_last() =~= d.take(i as int));
            assert(d.take(i + 1).last() == series@);
            let mut j: usize = 0;
            while j < n
                invariant
                    n == series@.len(),
                    j <= n,
                    has_value == ((before + series@.take(j as int)).len() > 0),
                    has_value ==> min == seq_min(before + series@.take(j as int)),
                    has_value ==> max == seq_max(before + series@.take(j as int)),
                decreases n - j,
            {
                let value = series[j];
                let ghost cur = before + series@.take(j as int);
                assert((before + series@.take(j + 1)).drop_last() =~= cur);
                if !has_value {
                    assert(cur.len() == 0);
                    assert((before + series@.take(j + 1)).len() == 1);
                    min = value;
                    max = value;
                    has_value = true;
                } else {
                    if value < min {
                        min = value;
                    }
                    if value > max {
                        max = value;
                    }
                }
                j = j + 1;
            }
            assert(series@.take(n as int) =~= series@);
            proof {
                assert(i <= 0xFFFF_FFFF_FFFF_FFFFu128) by {
                    assert(i < data@.len());
                }
                assert(total + n <= (i + 1) * 0x1_0000_0000_0000_0000u128) by (nonlinear_arith)
                    requires
                        total <= i * 0x1_0000_0000_0000_0000u128,
                        n < 0x1_0000_0000_0000_0000u128,
                ;
                assert((i + 1) * 0x1_0000_0000_0000_0000u128 <= 0x1_0000_0000_0000_0000u128
                    * 0x1_0000_0000_0000_0000u128) by (nonlinear_arith)
                    requires
                        i + 1 <= 0x1_0000_0000_0000_0000u128,
                ;
                assert((i + 1) * 0xFFFF_FFFF_FFFF_FFFFu128 <= (i + 1) * 0x1_0000_0000_0000_0000u128)
                    by (nonlinear_arith);
            }
            total = total + n as u128;
            if n > 0 {
                latest = latest + series[n - 1] as u128;
                count = count + 1;
            }
            i = i + 1;
        }
        assert(d.take(data@.len() as int) =~= d);
        TelemetrySummary {
            total_samples: total,
            latest_sum: latest,
            latest_count: count,
            spread: if has_value {
                max - min
            } else {
                0
            },
        }
    }
}

} // verus!

