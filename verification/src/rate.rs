//! Throughput over a trailing time window.
//!
//! A tracker keeps the most recent `(time, bytes so far)` samples of one
//! transfer. Times are milliseconds on a monotonic clock; the tracker never
//! reads a clock itself. From the oldest and the newest retained sample it
//! derives the current rate in bytes per second and the time a given number
//! of bytes will still take.

use vstd::prelude::*;

verus! {

/// Samples older than this, relative to the newest one, leave the window.
pub const WINDOW_MILLIS: u64 = 3000;

/// The span between two samples is never taken to be shorter than this.
pub const MIN_SPAN_MILLIS: u64 = 1;

pub const MILLIS_PER_SECOND: u64 = 1000;

/// One observation: `bytes` had been transferred at `at_millis`.
#[derive(Clone, Copy, Debug, PartialEq, Eq, Structural)]
pub struct Sample {
    pub at_millis: u64,
    pub bytes: u64,
}

/// How long before `now` the sample was taken; zero if it is not older.
pub open spec fn age_millis(s: Sample, now: u64) -> nat {
    if now >= s.at_millis {
        (now - s.at_millis) as nat
    } else {
        0
    }
}

/// `samples` without its longest prefix of samples older than the window.
pub open spec fn evicted(samples: Seq<Sample>, now: u64) -> Seq<Sample>
    decreases samples.len(),
{
    if samples.len() > 0 && age_millis(samples[0], now) > WINDOW_MILLIS {
        evicted(samples.drop_first(), now)
    } else {
        samples
    }
}

/// The window after `s` has been recorded into `samples`.
pub open spec fn window_after(samples: Seq<Sample>, s: Sample) -> Seq<Sample> {
    evicted(samples.push(s), s.at_millis)
}

/// The window after each of `incoming` has been recorded in turn.
pub open spec fn window_after_all(samples: Seq<Sample>, incoming: Seq<Sample>) -> Seq<Sample>
    decreases incoming.len(),
{
    if incoming.len() == 0 {
        samples
    } else {
        window_after_all(window_after(samples, incoming[0]), incoming.drop_first())
    }
}

/// Times never go backwards along `samples`.
pub open spec fn time_ordered(samples: Seq<Sample>) -> bool {
    forall|i: int, j: int| 0 <= i <= j < samples.len() ==> samples[i].at_millis <= samples[j].at_millis
}

/// Every sample lies within the window of the last one.
pub open spec fn all_recent(samples: Seq<Sample>) -> bool {
    forall|i: int|
        0 <= i < samples.len() ==> age_millis(#[trigger] samples[i], samples.last().at_millis)
            <= WINDOW_MILLIS
}

/// Bytes gained from `first` to `last`; zero if the count went down.
pub open spec fn gained_bytes(first: Sample, last: Sample) -> int {
    if last.bytes >= first.bytes {
        last.bytes - first.bytes
    } else {
        0
    }
}

/// Milliseconds from `first` to `last`, at least `MIN_SPAN_MILLIS`.
pub open spec fn span_millis(first: Sample, last: Sample) -> int {
    if last.at_millis >= first.at_millis + MIN_SPAN_MILLIS {
        last.at_millis - first.at_millis
    } else {
        MIN_SPAN_MILLIS as int
    }
}

/// Bytes per second between the oldest and the newest sample, rounded down
/// and capped at `u64::MAX`; zero with fewer than two samples.
pub open spec fn rate_of(samples: Seq<Sample>) -> nat {
    if samples.len() < 2 {
        0
    } else {
        let exact = gained_bytes(samples.first(), samples.last()) * MILLIS_PER_SECOND
            / span_millis(samples.first(), samples.last());
        if exact > u64::MAX {
            u64::MAX as nat
        } else {
            exact as nat
        }
    }
}

/// Whole seconds that `remaining` bytes take at the current rate; unknown
/// while the rate is zero.
pub open spec fn eta_of(samples: Seq<Sample>, remaining: u64) -> Option<nat> {
    if rate_of(samples) > 0 {
        Some(remaining as nat / rate_of(samples))
    } else {
        None
    }
}

/// The samples of the trailing window, oldest first.
pub struct SlidingRateTracker {
    samples: Vec<Sample>,
}

impl View for SlidingRateTracker {
    type V = Seq<Sample>;

    closed spec fn view(&self) -> Seq<Sample> {
        self.samples@
    }
}

impl SlidingRateTracker {
    pub fn new() -> (t: Self)
        ensures
            t@ == Seq::<Sample>::empty(),
    {
        SlidingRateTracker { samples: Vec::new() }
    }

    /// Appends the sample, then drops from the front every sample that is
    /// older than the window relative to it.
    pub fn record(&mut self, at_millis: u64, bytes: u64)
        ensures
            final(self)@ == window_after(old(self)@, Sample { at_millis, bytes }),
    {
        let newest = Sample { at_millis, bytes };
        self.samples.push(newest);
        let ghost pushed = self.samples@;
        let mut stale: usize = 0;
        assert(pushed.skip(0) == pushed);
        while stale < self.samples.len() && at_millis >= self.samples[stale].at_millis
            && at_millis - self.samples[stale].at_millis > WINDOW_MILLIS
            invariant
                self.samples@ == pushed,
                stale <= pushed.len(),
                evicted(pushed, at_millis) == evicted(pushed.skip(stale as int), at_millis),
            decreases pushed.len() - stale,
        {
            proof {
                let rest = pushed.skip(stale as int);
                assert(rest[0] == pushed[stale as int]);
                assert(rest.drop_first() == pushed.skip(stale + 1));
            }
            stale = stale + 1;
        }
        proof {
            let rest = pushed.skip(stale as int);
            if stale < pushed.len() {
                assert(rest[0] == pushed[stale as int]);
            }
            assert(evicted(rest, at_millis) == rest);
        }
        if stale > 0 {
            let kept = self.samples.split_off(stale);
            self.samples = kept;
            assert(self.samples@ == pushed.skip(stale as int));
        } else {
            assert(pushed.skip(0) == pushed);
        }
    }

    /// Current throughput in bytes per second.
    pub fn rate(&self) -> (r: u64)
        ensures
            r == rate_of(self@),
    {
        let n: usize = self.samples.len();
        if n < 2 {
            return 0;
        }
        let first = self.samples[0];
        let last = self.samples[n - 1];
        let gained: u64 = last.bytes.saturating_sub(first.bytes);
        let elapsed: u64 = last.at_millis.saturating_sub(first.at_millis);
        let span: u64 = if elapsed < MIN_SPAN_MILLIS {
            MIN_SPAN_MILLIS
        } else {
            elapsed
        };
        assert(gained * MILLIS_PER_SECOND <= u128::MAX) by (nonlinear_arith)
            requires
                gained <= u64::MAX,
                MILLIS_PER_SECOND == 1000,
        ;
        let scaled: u128 = (gained as u128) * (MILLIS_PER_SECOND as u128);
        let exact: u128 = scaled / (span as u128);
        if exact > u64::MAX as u128 {
            u64::MAX
        } else {
            exact as u64
        }
    }

    /// Whole seconds until `remaining` bytes are through, `None` while the
    /// rate is zero.
    pub fn eta(&self, remaining: u64) -> (e: Option<u64>)
        ensures
            e matches Some(secs) ==> eta_of(self@, remaining) == Some(secs as nat),
            e is None ==> eta_of(self@, remaining) is None,
            e is Some <==> rate_of(self@) > 0,
    {
        let r: u64 = self.rate();
        if r > 0 {
            Some(remaining / r)
        } else {
            None
        }
    }

    /// Forgets every sample.
    pub fn clear(&mut self)
        ensures
            final(self)@ == Seq::<Sample>::empty(),
    {
        self.samples.clear();
    }

    /// Number of retained samples.
    pub fn len(&self) -> (n: usize)
        ensures
            n == self@.len(),
    {
        self.samples.len()
    }

    /// The retained sample at `index`, oldest first.
    pub fn sample(&self, index: usize) -> (s: Option<Sample>)
        ensures
            s == if index < self@.len() {
                Some(self@[index as int])
            } else {
                None
            },
    {
        if index < self.samples.len() {
            Some(self.samples[index])
        } else {
            None
        }
    }
}

/// Recording never empties the window: the sample just recorded stays, as
/// its last element, and what precedes it is a suffix of the old window.
pub proof fn lemma_window_keeps_newest(samples: Seq<Sample>, s: Sample)
    ensures
        window_after(samples, s).len() >= 1,
        window_after(samples, s).last() == s,
        exists|k: int|
            0 <= k <= samples.len() && window_after(samples, s) == #[trigger] samples.skip(k).push(
                s,
            ),
{
    lemma_evicted_suffix(samples, s, 0);
    assert(samples.skip(0) == samples);
    let k = choose|k: int|
        0 <= k <= samples.len() && evicted(samples.skip(0).push(s), s.at_millis)
            == #[trigger] samples.skip(k).push(s);
    assert(window_after(samples, s) == samples.skip(k).push(s));
}

proof fn lemma_evicted_suffix(samples: Seq<Sample>, s: Sample, from: int)
    requires
        0 <= from <= samples.len(),
    ensures
        exists|k: int|
            from <= k <= samples.len() && evicted(samples.skip(from).push(s), s.at_millis)
                == #[trigger] samples.skip(k).push(s),
    decreases samples.len() - from,
{
    let cur = samples.skip(from).push(s);
    if from < samples.len() && age_millis(samples[from], s.at_millis) > WINDOW_MILLIS {
        assert(cur[0] == samples[from]);
        assert(cur.drop_first() == samples.skip(from + 1).push(s));
        lemma_evicted_suffix(samples, s, from + 1);
    } else {
        if from == samples.len() {
            assert(cur[0] == s);
        } else {
            assert(cur[0] == samples[from]);
        }
        assert(evicted(cur, s.at_millis) == cur);
        assert(cur == samples.skip(from).push(s));
    }
}

/// Whatever the clock did, the oldest retained sample, from which the rate
/// is taken, is not older than the window relative to the newest.
pub proof fn lemma_oldest_is_recent(samples: Seq<Sample>, s: Sample)
    ensures
        window_after(samples, s).len() >= 1,
        age_millis(window_after(samples, s).first(), s.at_millis) <= WINDOW_MILLIS,
{
    lemma_evicted_front(samples.push(s), s.at_millis);
}

proof fn lemma_evicted_front(samples: Seq<Sample>, now: u64)
    requires
        samples.len() > 0,
        age_millis(samples.last(), now) <= WINDOW_MILLIS,
    ensures
        evicted(samples, now).len() >= 1,
        age_millis(evicted(samples, now).first(), now) <= WINDOW_MILLIS,
    decreases samples.len(),
{
    if age_millis(samples[0], now) > WINDOW_MILLIS {
        assert(samples.len() > 1);
        assert(samples.drop_first().last() == samples.last());
        lemma_evicted_front(samples.drop_first(), now);
    }
}

/// With a clock that never goes backwards, no retained sample is older than
/// the window relative to the newest one, and the window stays in time order.
pub proof fn lemma_window_is_recent(samples: Seq<Sample>, s: Sample)
    requires
        time_ordered(samples),
        samples.len() > 0 ==> samples.last().at_millis <= s.at_millis,
    ensures
        time_ordered(window_after(samples, s)),
        all_recent(window_after(samples, s)),
{
    let pushed = samples.push(s);
    assert(time_ordered(pushed)) by {
        assert forall|i: int, j: int| 0 <= i <= j < pushed.len() implies pushed[i].at_millis
            <= pushed[j].at_millis by {
            if j < samples.len() {
                assert(pushed[i] == samples[i] && pushed[j] == samples[j]);
            } else if i < samples.len() {
                assert(pushed[i] == samples[i]);
                assert(samples[i].at_millis <= samples.last().at_millis);
            }
        }
    }
    lemma_evicted_of_ordered(pushed, s.at_millis);
}

proof fn lemma_evicted_of_ordered(samples: Seq<Sample>, now: u64)
    requires
        time_ordered(samples),
        samples.len() > 0,
        samples.last().at_millis == now,
    ensures
        time_ordered(evicted(samples, now)),
        all_recent(evicted(samples, now)),
        evicted(samples, now).len() > 0,
        evicted(samples, now).last() == samples.last(),
    decreases samples.len(),
{
    if age_millis(samples[0], now) > WINDOW_MILLIS {
        let rest = samples.drop_first();
        assert(samples.len() > 1);
        assert(rest.last() == samples.last());
        assert forall|i: int, j: int| 0 <= i <= j < rest.len() implies rest[i].at_millis
            <= rest[j].at_millis by {
            assert(rest[i] == samples[i + 1] && rest[j] == samples[j + 1]);
        }
        lemma_evicted_of_ordered(rest, now);
    } else {
        assert(evicted(samples, now) == samples);
        assert forall|i: int| 0 <= i < samples.len() implies age_millis(
            #[trigger] samples[i],
            samples.last().at_millis,
        ) <= WINDOW_MILLIS by {
            assert(samples[0].at_millis <= samples[i].at_millis);
        }
    }
}

/// Samples taken in time order that all lie within one window are all
/// retained, so the rate is the bytes gained from the first to the last of
/// them over the time between the two.
pub proof fn lemma_rate_within_window(samples: Seq<Sample>)
    requires
        samples.len() >= 2,
        time_ordered(samples),
        all_recent(samples),
        samples.first().bytes <= samples.last().bytes,
        samples.first().at_millis < samples.last().at_millis,
        (samples.last().bytes - samples.first().bytes) * MILLIS_PER_SECOND / (
        samples.last().at_millis - samples.first().at_millis) <= u64::MAX,
    ensures
        window_after_all(Seq::empty(), samples) == samples,
        rate_of(window_after_all(Seq::empty(), samples)) == (samples.last().bytes
            - samples.first().bytes) * MILLIS_PER_SECOND / (samples.last().at_millis
            - samples.first().at_millis),
{
    lemma_retained_from(samples, 0, samples.len() as int);
    assert(samples.take(0) == Seq::<Sample>::empty());
    assert(samples.subrange(0, samples.len() as int) == samples);
    assert(samples.take(samples.len() as int) == samples);
}

proof fn lemma_retained_from(samples: Seq<Sample>, from: int, upto: int)
    requires
        time_ordered(samples),
        all_recent(samples),
        0 <= from <= upto <= samples.len(),
    ensures
        window_after_all(samples.take(from), samples.subrange(from, upto)) == samples.take(upto),
    decreases upto - from,
{
    let incoming = samples.subrange(from, upto);
    if from == upto {
        assert(incoming.len() == 0);
    } else {
        let s = samples[from];
        assert(incoming[0] == s);
        assert(incoming.drop_first() == samples.subrange(from + 1, upto));
        let pushed = samples.take(from).push(s);
        assert(pushed == samples.take(from + 1));
        assert(evicted(pushed, s.at_millis) == pushed) by {
            assert(pushed[0] == samples[0]);
            assert(samples[0].at_millis <= s.at_millis);
            assert(s.at_millis <= samples.last().at_millis);
            assert(age_millis(samples[0], samples.last().at_millis) <= WINDOW_MILLIS);
        }
        lemma_retained_from(samples, from + 1, upto);
    }
}

/// An estimate exists exactly while the rate is positive, and it is the
/// remaining bytes divided by the rate.
pub proof fn lemma_eta_is_quotient(samples: Seq<Sample>, remaining: u64)
    ensures
        rate_of(samples) > 0 ==> eta_of(samples, remaining) == Some(
            remaining as nat / rate_of(samples),
        ),
        rate_of(samples) == 0 ==> eta_of(samples, remaining) is None,
        eta_of(samples, remaining) matches Some(secs) ==> secs <= remaining,
{
    if rate_of(samples) > 0 {
        let r = rate_of(samples) as int;
        assert(remaining as int / r <= remaining as int) by (nonlinear_arith)
            requires
                r > 0,
                remaining >= 0,
        ;
    }
}

} // verus!
