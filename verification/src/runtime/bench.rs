//! Timing of program steps. The first few steps warm up and do not count.

use vstd::prelude::*;

verus! {

pub const WARMUP_STEPS: usize = 3;

/// Step times, in nanoseconds.
#[derive(Debug)]
pub struct Bench {
    pub enabled: bool,
    pub start: Option<u64>,
    pub times: Vec<u64>,
}

/// Model of [`Bench`].
#[verifier::ext_equal]
pub struct BenchV {
    pub enabled: bool,
    pub start: Option<u64>,
    pub times: Seq<u64>,
}

impl View for Bench {
    type V = BenchV;

    open spec fn view(&self) -> BenchV {
        BenchV { enabled: self.enabled, start: self.start, times: self.times@ }
    }
}

/// Number, median, shortest and longest of the steps that count.
#[derive(Clone, Copy, Debug, PartialEq, Eq, Structural)]
pub struct BenchReport {
    pub warm_steps: usize,
    pub median: u64,
    pub min: u64,
    pub max: u64,
}

pub open spec fn ascending(s: Seq<u64>) -> bool {
    forall|i: int, j: int| 0 <= i <= j < s.len() ==> s[i] <= s[j]
}

/// Whether `w` holds the elements of `s` in ascending order.
pub open spec fn sorts(s: Seq<u64>, w: Seq<u64>) -> bool {
    s.to_multiset() == w.to_multiset() && ascending(w)
}

/// Middle element, or the mean of the two middle ones, rounded down.
pub open spec fn median_of(w: Seq<u64>) -> int {
    let n = w.len() as int;
    if n % 2 == 1 {
        w[n / 2] as int
    } else {
        (w[n / 2 - 1] + w[n / 2]) / 2
    }
}

/// There is only one way to sort.
pub proof fn sorting_is_unique(s: Seq<u64>, v: Seq<u64>, w: Seq<u64>)
    requires
        sorts(s, v),
        sorts(s, w),
    ensures
        v == w,
{
    vstd::seq_lib::lemma_sorted_unique(v, w, |a: u64, b: u64| a <= b);
}

fn sorted_copy(s: &Vec<u64>, from: usize) -> (r: Vec<u64>)
    requires
        from <= s.len(),
    ensures
        sorts(s@.skip(from as int), r@),
        r.len() == s.len() - from,
{
    let mut out: Vec<u64> = Vec::new();
    let mut i: usize = from;
    proof {
        assert(s@.subrange(from as int, from as int) =~= out@);
    }
    while i < s.len()
        invariant
            from <= i <= s.len(),
            out.len() == i - from,
            s@.subrange(from as int, i as int).to_multiset() == out@.to_multiset(),
            ascending(out@),
        decreases s.len() - i,
    {
        let x: u64 = s[i];
        let mut k: usize = 0;
        while k < out.len() && out[k] <= x
            invariant
                k <= out.len(),
                forall|j: int| 0 <= j < k ==> out@[j] <= x,
            decreases out.len() - k,
        {
            k = k + 1;
        }
        let ghost before = out@;
        out.insert(k, x);
        proof {
            let a = s@.subrange(from as int, i as int);
            let b = s@.subrange(from as int, i as int + 1);
            assert(b =~= a.push(x));
            vstd::seq_lib::to_multiset_insert(before, k as int, x);
            vstd::seq_lib::to_multiset_build(a, x);
            assert forall|p: int, q: int| 0 <= p <= q < out@.len() implies out@[p] <= out@[q] by {
                let p0 = if p < k {
                    p
                } else {
                    p - 1
                };
                let q0 = if q < k {
                    q
                } else {
                    q - 1
                };
                if p != k && q != k {
                    assert(before[p0] <= before[q0]);
                } else if p == k && q != k {
                    assert(before[k as int] <= before[q0]);
                }
            }
        }
        i = i + 1;
    }
    assert(s@.subrange(from as int, i as int) =~= s@.skip(from as int));
    out
}

impl Bench {
    pub fn new() -> (r: Self)
        ensures
            r@ == (BenchV { enabled: false, start: None, times: Seq::empty() }),
    {
        let r = Bench { enabled: false, start: None, times: Vec::new() };
        assert(r@ =~= (BenchV { enabled: false, start: None, times: Seq::empty() }));
        r
    }

    pub fn bench_enable(&mut self)
        ensures
            final(self)@ == (BenchV { enabled: true, ..old(self)@ }),
    {
        self.enabled = true;
    }

    /// Notes that a step starts now. Nothing happens unless timing is on.
    pub fn bench_step_begin(&mut self, now: u64)
        ensures
            final(self)@ == (if old(self)@.enabled {
                BenchV { start: Some(now), ..old(self)@ }
            } else {
                old(self)@
            }),
    {
        if self.enabled {
            self.start = Some(now);
        }
    }

    /// Notes that a step ends now, at or after its start. Nothing happens
    /// unless timing is on and a step was started.
    pub fn bench_step_end(&mut self, now: u64)
        requires
            old(self)@.start matches Some(t) ==> t <= now,
        ensures
            final(self)@ == (match old(self)@.start {
                Some(t) => if old(self)@.enabled {
                    BenchV {
                        start: None,
                        times: old(self)@.times.push((now - t) as u64),
                        ..old(self)@
                    }
                } else {
                    old(self)@
                },
                None => old(self)@,
            }),
    {
        if !self.enabled {
            return;
        }
        match self.start {
            Some(t) => {
                self.start = None;
                self.bench_record(now - t);
            },
            None => {},
        }
    }

    pub fn bench_record(&mut self, elapsed: u64)
        ensures
            final(self)@ == (BenchV { times: old(self)@.times.push(elapsed), ..old(self)@ }),
    {
        self.times.push(elapsed);
    }

    /// What was measured after the warm-up; nothing before it is over.
    pub fn bench_report(&self) -> (r: Option<BenchReport>)
        ensures
            match r {
                None => self@.times.len() <= WARMUP_STEPS,
                Some(b) => {
                    &&& self@.times.len() > WARMUP_STEPS
                    &&& exists|w: Seq<u64>|
                        {
                            &&& #[trigger] sorts(self@.times.skip(WARMUP_STEPS as int), w)
                            &&& b.warm_steps == w.len()
                            &&& b.median == median_of(w)
                            &&& b.min == w[0]
                            &&& b.max == w[w.len() - 1]
                        }
                },
            },
    {
        if self.times.len() <= WARMUP_STEPS {
            return None;
        }
        let w = sorted_copy(&self.times, WARMUP_STEPS);
        let n: usize = w.len();
        let median: u64 = if n % 2 == 1 {
            w[n / 2]
        } else {
            let a: u128 = w[n / 2 - 1] as u128;
            let b: u128 = w[n / 2] as u128;
            ((a + b) / 2) as u64
        };
        assert(sorts(self@.times.skip(WARMUP_STEPS as int), w@));
        Some(BenchReport { warm_steps: n, median, min: w[0], max: w[n - 1] })
    }

    pub fn bench_reset(&mut self)
        ensures
            final(self)@ == (BenchV { enabled: false, start: None, times: Seq::empty() }),
    {
        self.enabled = false;
        self.start = None;
        self.times = Vec::new();
        assert(self@ =~= (BenchV { enabled: false, start: None, times: Seq::empty() }));
    }
}

/// The median lies between the shortest and the longest step.
pub proof fn median_between(w: Seq<u64>)
    requires
        ascending(w),
        w.len() > 0,
    ensures
        w[0] <= median_of(w) <= w[w.len() - 1],
{
}

} // verus!
