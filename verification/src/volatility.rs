use vstd::prelude::*;

use std::collections::VecDeque;

verus! {

/// A sample at time `ts` is stale at time `now` when it is more than
/// `window_ms` milliseconds older than `now` (a sample stamped after `now`
/// is never stale).
pub open spec fn is_stale(ts: u64, now: u64, window_ms: u64) -> bool {
    now as int - ts as int > window_ms as int
}

/// The samples left after dropping stale samples from the front, stopping at
/// the first one that is still fresh.
pub open spec fn purge_front<T>(s: Seq<(u64, T)>, now: u64, window_ms: u64) -> Seq<(u64, T)>
    decreases s.len(),
{
    if s.len() > 0 && is_stale(s[0].0, now, window_ms) {
        purge_front(s.drop_first(), now, window_ms)
    } else {
        s
    }
}

/// Timestamps that never go backwards.
pub open spec fn ts_sorted<T>(s: Seq<(u64, T)>) -> bool {
    forall|i: int, j: int| 0 <= i <= j < s.len() ==> s[i].0 <= s[j].0
}

/// Every sample is within `window_ms` of `now`.
pub open spec fn all_fresh<T>(s: Seq<(u64, T)>, now: u64, window_ms: u64) -> bool {
    forall|i: int| 0 <= i < s.len() ==> !is_stale(#[trigger] s[i].0, now, window_ms)
}

/// The sliding time window behind the volatility estimate: samples in
/// arrival order, each with its millisecond timestamp, from which those
/// older than the window are dropped as newer ones arrive.
pub struct TimeWindow<T> {
    window_ms: u64,
    history: VecDeque<(u64, T)>,
}

impl<T> View for TimeWindow<T> {
    type V = Seq<(u64, T)>;

    closed spec fn view(&self) -> Seq<(u64, T)> {
        self.history@
    }
}

impl<T> TimeWindow<T> {
    /// The window's length in milliseconds.
    pub closed spec fn spec_window_ms(&self) -> u64 {
        self.window_ms
    }

    /// An empty window of the given length.
    pub fn new(window_ms: u64) -> (w: Self)
        ensures
            w@ == Seq::<(u64, T)>::empty(),
            w.spec_window_ms() == window_ms,
    {
        TimeWindow { window_ms, history: VecDeque::with_capacity(256) }
    }

    /// The window's length in milliseconds.
    pub fn window_ms(&self) -> (ms: u64)
        ensures
            ms == self.spec_window_ms(),
    {
        self.window_ms
    }

    /// Appends a sample taken at `ts_ms`, then drops from the front every
    /// sample more than the window older than `ts_ms`, stopping at the first
    /// one that is not.
    pub fn push(&mut self, ts_ms: u64, value: T)
        ensures
            final(self)@ == purge_front(old(self)@.push((ts_ms, value)), ts_ms, old(self).spec_window_ms()),
            final(self).spec_window_ms() == old(self).spec_window_ms(),
    {
        let ghost full = self.history@.push((ts_ms, value));
        self.history.push_back((ts_ms, value));
        while self.history.len() > 0
            invariant
                self.window_ms == old(self).window_ms,
                full == old(self)@.push((ts_ms, value)),
                purge_front(full, ts_ms, self.window_ms) == purge_front(self.history@, ts_ms, self.window_ms),
            ensures
                purge_front(full, ts_ms, self.window_ms) == self.history@,
            decreases self.history@.len(),
        {
            let ts = self.history[0].0;
            if ts_ms.saturating_sub(ts) > self.window_ms {
                let ghost before = self.history@;
                self.history.pop_front();
                assert(self.history@ =~= before.drop_first());
            } else {
                break;
            }
        }
    }

    /// Number of samples in the window.
    pub fn len(&self) -> (n: usize)
        ensures
            n == self@.len(),
    {
        self.history.len()
    }

    /// The sample at position `i`, oldest first.
    pub fn get(&self, i: usize) -> (e: &(u64, T))
        requires
            i < self@.len(),
        ensures
            *e == self@[i as int],
    {
        &self.history[i]
    }

    /// Milliseconds from the oldest to the newest sample (0 when the newest
    /// is not later, and for an empty window).
    pub fn span_ms(&self) -> (ms: u64)
        ensures
            self@.len() == 0 ==> ms == 0,
            self@.len() > 0 ==> ms == (if self@.last().0 >= self@[0].0 {
                (self@.last().0 - self@[0].0) as u64
            } else {
                0u64
            }),
    {
        let n = self.history.len();
        if n == 0 {
            0
        } else {
            self.history[n - 1].0.saturating_sub(self.history[0].0)
        }
    }
}

/// Purging drops only a prefix: what is left is a suffix of the samples,
/// every dropped sample was stale, and the first kept one (if any) is fresh.
pub proof fn lemma_purge_drops_stale_prefix<T>(s: Seq<(u64, T)>, now: u64, window_ms: u64)
    ensures
        ({
            let r = purge_front(s, now, window_ms);
            let k = s.len() - r.len();
            &&& r.len() <= s.len()
            &&& r == s.subrange(k, s.len() as int)
            &&& forall|i: int| 0 <= i < k ==> is_stale(#[trigger] s[i].0, now, window_ms)
            &&& r.len() > 0 ==> !is_stale(r[0].0, now, window_ms)
        }),
    decreases s.len(),
{
    if s.len() > 0 && is_stale(s[0].0, now, window_ms) {
        let t = s.drop_first();
        lemma_purge_drops_stale_prefix(t, now, window_ms);
        let r = purge_front(s, now, window_ms);
        assert(r == purge_front(t, now, window_ms));
        let k = s.len() - r.len();
        assert forall|i: int| 0 <= i < k implies is_stale(#[trigger] s[i].0, now, window_ms) by {
            if i > 0 {
                assert(s[i] == t[i - 1]);
            }
        }
        assert(r =~= s.subrange(k, s.len() as int));
    } else {
        assert(s =~= s.subrange(0, s.len() as int));
    }
}

/// A sample pushed at `ts` is never dropped by the purge that follows it:
/// it is the newest sample left in the window.
pub proof fn lemma_push_keeps_newest<T>(s: Seq<(u64, T)>, ts: u64, value: T, window_ms: u64)
    ensures
        purge_front(s.push((ts, value)), ts, window_ms).len() > 0,
        purge_front(s.push((ts, value)), ts, window_ms).last() == (ts, value),
{
    let full = s.push((ts, value));
    lemma_purge_drops_stale_prefix(full, ts, window_ms);
    let r = purge_front(full, ts, window_ms);
    let k = full.len() - r.len();
    if r.len() == 0 {
        assert(is_stale(full[full.len() - 1].0, ts, window_ms));
    }
    assert(r.last() == r[r.len() - 1]);
    assert(r[r.len() - 1] == full[k + r.len() - 1]);
}

/// When timestamps never go backwards, the purge leaves only samples within
/// the window of `now`, still in timestamp order.
pub proof fn lemma_sorted_purge_is_fresh<T>(s: Seq<(u64, T)>, now: u64, window_ms: u64)
    requires
        ts_sorted(s),
    ensures
        ts_sorted(purge_front(s, now, window_ms)),
        all_fresh(purge_front(s, now, window_ms), now, window_ms),
{
    lemma_purge_drops_stale_prefix(s, now, window_ms);
    let r = purge_front(s, now, window_ms);
    let k = s.len() - r.len();
    assert forall|i: int, j: int| 0 <= i <= j < r.len() implies r[i].0 <= r[j].0 by {
        assert(r[i] == s[k + i]);
        assert(r[j] == s[k + j]);
    }
    assert forall|i: int| 0 <= i < r.len() implies !is_stale(#[trigger] r[i].0, now, window_ms) by {
        assert(r[0] == s[k]);
        assert(r[i] == s[k + i]);
        assert(s[k].0 <= s[k + i].0);
    }
}

/// The window law: if the samples so far are in timestamp order and a new
/// sample is not older than any of them, then after pushing it the window
/// is still in timestamp order, ends with the new sample, and holds only
/// samples within the window length of the new sample's time.
pub proof fn lemma_push_keeps_window<T>(s: Seq<(u64, T)>, ts: u64, value: T, window_ms: u64)
    requires
        ts_sorted(s),
        forall|i: int| 0 <= i < s.len() ==> #[trigger] s[i].0 <= ts,
    ensures
        ({
            let r = purge_front(s.push((ts, value)), ts, window_ms);
            &&& ts_sorted(r)
            &&& all_fresh(r, ts, window_ms)
            &&& r.len() > 0
            &&& r.last() == (ts, value)
        }),
{
    let full = s.push((ts, value));
    assert forall|i: int, j: int| 0 <= i <= j < full.len() implies full[i].0 <= full[j].0 by {
        if j < s.len() as int {
            assert(full[i] == s[i] && full[j] == s[j]);
        } else if i < s.len() as int {
            assert(full[i] == s[i]);
        }
    }
    lemma_sorted_purge_is_fresh(full, ts, window_ms);
    lemma_push_keeps_newest(s, ts, value, window_ms);
}

/// Consecutive samples at least `gap_ms` apart.
pub open spec fn spaced_by<T>(s: Seq<(u64, T)>, gap_ms: u64) -> bool {
    forall|i: int| 0 <= i < s.len() - 1 ==> s[i].0 + gap_ms <= #[trigger] s[i + 1].0
}

proof fn lemma_spaced_distance<T>(s: Seq<(u64, T)>, gap_ms: u64, j: int)
    requires
        spaced_by(s, gap_ms),
        0 <= j < s.len(),
    ensures
        s[0].0 + j * gap_ms <= s[j].0,
    decreases j,
{
    if j > 0 {
        lemma_spaced_distance(s, gap_ms, j - 1);
        assert(s[j - 1].0 + gap_ms <= s[(j - 1) + 1].0);
        assert((j - 1) * gap_ms + gap_ms == j * gap_ms) by (nonlinear_arith);
    } else {
        assert(j * gap_ms == 0) by (nonlinear_arith)
            requires
                j == 0,
        ;
    }
}

/// How many samples a window can hold: when samples are at least `gap_ms`
/// apart, none is later than `now` and all are within the window of `now`,
/// there are at most `window_ms / gap_ms + 1` of them.
pub proof fn lemma_spaced_window_len<T>(s: Seq<(u64, T)>, now: u64, window_ms: u64, gap_ms: u64)
    requires
        gap_ms > 0,
        spaced_by(s, gap_ms),
        all_fresh(s, now, window_ms),
        forall|i: int| 0 <= i < s.len() ==> #[trigger] s[i].0 <= now,
    ensures
        s.len() <= window_ms / gap_ms + 1,
{
    if s.len() > 0 {
        let j = s.len() - 1;
        lemma_spaced_distance(s, gap_ms, j);
        assert(!is_stale(s[0].0, now, window_ms));
        assert(s[j].0 <= now);
        let k = j as int;
        let g = gap_ms as int;
        let w = window_ms as int;
        assert(k * g <= w);
        assert(k <= w / g) by (nonlinear_arith)
            requires
                k * g <= w,
                g > 0,
                k >= 0,
        {
            if k > w / g {
                assert(k >= w / g + 1);
                assert(k * g >= (w / g + 1) * g);
                assert((w / g + 1) * g == (w / g) * g + g);
                assert(w == (w / g) * g + w % g);
            }
        }
    }
}

} // verus!
