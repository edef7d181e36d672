use vstd::prelude::*;

verus! {

/// Most samples a series keeps; older ones are dropped first.
pub const SERIES_CAPACITY: usize = 100;

/// What a series holds after `x` is appended to `s`: the oldest sample leaves
/// once the series would grow past its capacity.
pub open spec fn appended(s: Seq<u64>, x: u64) -> Seq<u64> {
    if s.len() + 1 > SERIES_CAPACITY {
        s.push(x).drop_first()
    } else {
        s.push(x)
    }
}

/// What a series holds after each of `xs` is appended in turn.
pub open spec fn appended_all(s: Seq<u64>, xs: Seq<u64>) -> Seq<u64>
    decreases xs.len(),
{
    if xs.len() == 0 {
        s
    } else {
        appended_all(appended(s, xs[0]), xs.drop_first())
    }
}

/// The newest `SERIES_CAPACITY` samples of `s` (all of them when there are fewer).
pub open spec fn newest(s: Seq<u64>) -> Seq<u64> {
    if s.len() > SERIES_CAPACITY {
        s.subrange(s.len() - SERIES_CAPACITY, s.len() as int)
    } else {
        s
    }
}

/// A bounded history of samples, oldest first.
#[derive(Debug)]
pub struct SeriesBuffer {
    samples: Vec<u64>,
}

impl View for SeriesBuffer {
    type V = Seq<u64>;

    closed spec fn view(&self) -> Seq<u64> {
        self.samples@
    }
}

impl SeriesBuffer {
    /// The history never holds more than its capacity.
    pub open spec fn wf(&self) -> bool {
        self@.len() <= SERIES_CAPACITY
    }

    /// An empty history.
    pub fn new() -> (r: SeriesBuffer)
        ensures
            r@ == Seq::<u64>::empty(),
            r.wf(),
    {
        SeriesBuffer { samples: Vec::new() }
    }

    /// Appends a sample and drops the oldest one if the history would exceed
    /// its capacity.
    pub fn push_sample(&mut self, x: u64)
        requires
            old(self).wf(),
        ensures
            final(self).wf(),
            final(self)@ == appended(old(self)@, x),
            final(self)@.len() == if old(self)@.len() + 1 <= SERIES_CAPACITY {
                old(self)@.len() + 1
            } else {
                SERIES_CAPACITY as nat
            },
    {
        self.samples.push(x);
        if self.samples.len() > SERIES_CAPACITY {
            self.samples.remove(0);
        }
        proof {
            assert(self.samples@ =~= appended(old(self)@, x));
        }
    }

    /// Number of samples held.
    pub fn len(&self) -> (r: usize)
        ensures
            r == self@.len(),
    {
        self.samples.len()
    }

    /// The samples, oldest first.
    pub fn as_slice(&self) -> (r: &[u64])
        ensures
            r@ == self@,
    {
        self.samples.as_slice()
    }
}

/// Appending samples one by one keeps the newest `SERIES_CAPACITY` of all the
/// samples seen, in the order they came.
pub proof fn lemma_appended_all_keeps_newest(s: Seq<u64>, xs: Seq<u64>)
    requires
        s.len() <= SERIES_CAPACITY,
    ensures
        appended_all(s, xs) == newest(s + xs),
    decreases xs.len(),
{
    if xs.len() == 0 {
        assert(s + xs =~= s);
    } else {
        let s1 = appended(s, xs[0]);
        lemma_appended_all_keeps_newest(s1, xs.drop_first());
        assert(s1 == newest(s.push(xs[0])));
        if s.len() + 1 > SERIES_CAPACITY {
            assert(newest(s1 + xs.drop_first()) =~= newest(s + xs));
        } else {
            assert(s1 + xs.drop_first() =~= s + xs);
        }
    }
}

/// After any run of appends the length is the initial length plus the number
/// of appends, capped at the capacity.
pub proof fn lemma_appended_all_len(s: Seq<u64>, xs: Seq<u64>)
    requires
        s.len() <= SERIES_CAPACITY,
    ensures
        appended_all(s, xs).len() == if s.len() + xs.len() <= SERIES_CAPACITY {
            s.len() + xs.len()
        } else {
            SERIES_CAPACITY as nat
        },
        appended_all(s, xs).len() <= SERIES_CAPACITY,
{
    lemma_appended_all_keeps_newest(s, xs);
}

/// Appending one sample more than the capacity leaves exactly the last
/// `SERIES_CAPACITY` of the appended samples, in their order.
pub proof fn lemma_overflow_keeps_last(s: Seq<u64>, xs: Seq<u64>)
    requires
        s.len() <= SERIES_CAPACITY,
        xs.len() == SERIES_CAPACITY + 1,
    ensures
        appended_all(s, xs) == xs.subrange(1, xs.len() as int),
{
    lemma_appended_all_keeps_newest(s, xs);
    assert(newest(s + xs) =~= xs.subrange(1, xs.len() as int));
}

} // verus!
