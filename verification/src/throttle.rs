//! A calling throttle: at most `limit` calls are let through in any window of time. The
//! caller reads the clock and sleeps; the throttle decides, from the times of the calls it
//! let through, whether a call may go now or how long it must wait.
use vstd::prelude::*;

verus! {

/// The number of times in `h` that fall in the window ending at `now`: those less than
/// `window` before it.
pub open spec fn count_recent(h: Seq<u64>, now: int, window: int) -> nat
    decreases h.len(),
{
    if h.len() == 0 {
        0
    } else {
        count_recent(h.drop_last(), now, window) + if h.last() + window > now {
            1nat
        } else {
            0nat
        }
    }
}

/// The outcome of asking the throttle at some time.
#[derive(Clone, Copy, Debug, PartialEq, Eq, Structural)]
pub enum ThrottleStep {
    /// The call may go now; it is recorded.
    Admitted,
    /// The window is full: wait this many nanoseconds and ask again.
    Wait(u64),
}

/// A throttle letting through at most `limit` calls per window of `window` nanoseconds.
pub struct CallingThrottle {
    limit: usize,
    window: u64,
    timestamps: Vec<u64>,
    /// Every time a call was let through, in order.
    history: Ghost<Seq<u64>>,
    /// The latest time the throttle was asked at.
    clock: Ghost<u64>,
}

impl CallingThrottle {
    /// The throttle's invariant: it remembers the last calls it let through, at most
    /// `limit`, in order; every call it forgot is at least a window older than the clock.
    pub closed spec fn wf(&self) -> bool {
        let h = self.history@;
        let n = self.timestamps@.len();
        &&& n <= self.limit
        &&& n <= h.len()
        &&& self.timestamps@ == h.subrange(h.len() - n, h.len() as int)
        &&& forall|i: int, j: int| 0 <= i <= j < h.len() ==> h[i] <= h[j]
        &&& forall|i: int| 0 <= i < h.len() ==> h[i] <= self.clock@
        &&& forall|i: int| 0 <= i < h.len() - n ==> h[i] + self.window <= self.clock@
        &&& forall|i: int| 0 <= i && i + self.limit < h.len() ==> h[i] + self.window <= #[trigger] h[i + self.limit]
    }

    /// The most calls let through per window.
    pub closed spec fn limit(&self) -> nat {
        self.limit as nat
    }

    /// The window, in nanoseconds.
    pub closed spec fn window(&self) -> nat {
        self.window as nat
    }

    /// Every time a call was let through, in order.
    pub closed spec fn history(&self) -> Seq<u64> {
        self.history@
    }

    /// The latest time the throttle was asked at.
    pub closed spec fn clock(&self) -> u64 {
        self.clock@
    }

    /// A throttle for `limit` calls per `window` nanoseconds that has let nothing through.
    pub fn new(limit: usize, window: u64) -> (r: Self)
        ensures
            r.wf(),
            r.limit() == limit,
            r.window() == window,
            r.history() == Seq::<u64>::empty(),
            r.clock() == 0,
    {
        let r = CallingThrottle {
            limit,
            window,
            timestamps: Vec::new(),
            history: Ghost(Seq::empty()),
            clock: Ghost(0),
        };
        assert(r.timestamps@ =~= r.history@.subrange(0, 0));
        r
    }

    /// Ten calls per second.
    pub fn default_throttle() -> (r: Self)
        ensures
            r.wf(),
            r.limit() == 10,
            r.window() == 1_000_000_000,
            r.history() == Seq::<u64>::empty(),
    {
        Self::new(10, 1_000_000_000)
    }

    /// Asks whether a call may go at time `now`. When the throttle remembers `limit` calls,
    /// it first forgets those a full window old; if `limit` calls are still in the window,
    /// the call must wait until the oldest leaves it. Otherwise the call goes and is
    /// recorded. A call that goes never has `limit` other calls in its window before it.
    pub fn step(&mut self, now: u64) -> (r: ThrottleStep)
        requires
            old(self).wf(),
            old(self).limit() > 0,
            now >= old(self).clock(),
            now + old(self).window() <= u64::MAX,
        ensures
            final(self).wf(),
            final(self).limit() == old(self).limit(),
            final(self).window() == old(self).window(),
            final(self).clock() == now,
            match r {
                ThrottleStep::Admitted => {
                    &&& final(self).history() == old(self).history().push(now)
                    &&& count_recent(final(self).history(), now as int, final(self).window() as int)
                        <= final(self).limit()
                },
                ThrottleStep::Wait(d) => {
                    &&& final(self).history() == old(self).history()
                    &&& d > 0
                    &&& count_recent(old(self).history(), (now + d) as int - 1, old(self).window() as int)
                        >= old(self).limit()
                },
            },
    {
        let ghost h = self.history@;
        self.clock = Ghost(now);
        if self.timestamps.len() == self.limit {
            self.retain_recent(now);
        }
        if self.timestamps.len() >= self.limit {
            // Every remembered call is in the window: wait until the oldest leaves it.
            let oldest = self.timestamps[0];
            proof {
                assert(oldest == h[h.len() - self.limit]);
                assert(oldest + self.window > now);
            }
            let d = oldest + self.window - now;
            proof {
                lemma_count_recent_suffix(h, (h.len() - self.limit) as int, (now + d) as int - 1, self.window as int);
            }
            ThrottleStep::Wait(d)
        } else {
            proof {
                lemma_count_recent_bound(h, (h.len() - self.timestamps@.len()) as int, now as int, self.window as int);
                if h.len() >= self.limit {
                    let i = h.len() - self.limit;
                    assert(h[i] + self.window <= now);
                }
            }
            self.timestamps.push(now);
            self.history = Ghost(h.push(now));
            proof {
                let h2 = h.push(now);
                assert(h2.drop_last() =~= h);
                assert(self.timestamps@ =~= h2.subrange(h2.len() - self.timestamps@.len(), h2.len() as int));
                assert forall|i: int| 0 <= i && i + self.limit < h2.len() implies h2[i] + self.window
                    <= #[trigger] h2[i + self.limit] by {
                    if i + self.limit < h.len() {
                        assert(h2[i] == h[i] && h2[i + self.limit] == h[i + self.limit]);
                    } else {
                        assert(h2[i] == h[i]);
                    }
                }
            }
            ThrottleStep::Admitted
        }
    }

    /// Forgets the remembered calls that are a full window old at `now`.
    fn retain_recent(&mut self, now: u64)
        requires
            old(self).wf(),
            now == old(self).clock(),
            now + old(self).window <= u64::MAX,
        ensures
            final(self).wf(),
            final(self).limit == old(self).limit,
            final(self).window == old(self).window,
            final(self).history == old(self).history,
            final(self).clock == old(self).clock,
            forall|i: int|
                0 <= i < final(self).timestamps@.len() ==> final(self).timestamps@[i] + final(self).window > now,
    {
        let ghost h = self.history@;
        let ghost n0 = self.timestamps@.len();
        assert forall|i: int| 0 <= i < n0 implies self.timestamps@[i] <= now by {
            assert(self.timestamps@[i] == h[h.len() - n0 + i]);
        }
        // The remembered times are in order, so the old ones form a prefix.
        let mut k: usize = 0;
        while k < self.timestamps.len() && self.timestamps[k] + self.window <= now
            invariant
                self.wf(),
                self.history@ == h,
                self.clock@ == now,
                self.timestamps@.len() == n0,
                now + self.window <= u64::MAX,
                forall|i: int| 0 <= i < n0 ==> self.timestamps@[i] <= now,
                0 <= k <= n0,
                forall|i: int| 0 <= i < k ==> self.timestamps@[i] + self.window <= now,
            decreases n0 - k,
        {
            k = k + 1;
        }
        let ghost kept = self.timestamps@.subrange(k as int, n0 as int);
        let mut rest: Vec<u64> = Vec::new();
        let mut j: usize = k;
        while j < self.timestamps.len()
            invariant
                self.wf(),
                self.history@ == h,
                self.clock@ == now,
                self.timestamps@.len() == n0,
                k <= j <= n0,
                rest@ == self.timestamps@.subrange(k as int, j as int),
            decreases n0 - j,
        {
            rest.push(self.timestamps[j]);
            assert(rest@ =~= self.timestamps@.subrange(k as int, j + 1));
            j = j + 1;
        }
        proof {
            let n = n0 as int;
            assert forall|i: int| 0 <= i < h.len() - (n - k) implies h[i] + self.window <= now by {
                if i >= h.len() - n {
                    assert(h[i] == self.timestamps@[i - (h.len() - n)]);
                }
            }
            assert forall|i: int| 0 <= i < rest@.len() implies rest@[i] + self.window > now by {
                if k < n {
                    let first = self.timestamps@[k as int];
                    assert(first + self.window > now);
                    assert(first == h[h.len() - n + k]);
                    assert(rest@[i] == h[h.len() - n + k + i]);
                }
            }
            assert(rest@ =~= h.subrange(h.len() - (n - k), h.len() as int));
        }
        self.timestamps = rest;
    }
}

/// With every time before position `k` a full window old, at most the times from `k` on
/// are recent.
proof fn lemma_count_recent_bound(h: Seq<u64>, k: int, now: int, window: int)
    requires
        0 <= k <= h.len(),
        forall|i: int| 0 <= i < k ==> h[i] + window <= now,
    ensures
        count_recent(h, now, window) <= h.len() - k,
    decreases h.len(),
{
    if h.len() > 0 {
        if k == h.len() {
            lemma_count_recent_bound(h.drop_last(), k - 1, now, window);
        } else {
            lemma_count_recent_bound(h.drop_last(), k, now, window);
        }
    }
}

/// When every time from position `k` on is recent, at least that many are.
proof fn lemma_count_recent_suffix(h: Seq<u64>, k: int, now: int, window: int)
    requires
        0 <= k <= h.len(),
        forall|i: int| k <= i < h.len() ==> h[i] + window > now,
    ensures
        count_recent(h, now, window) >= h.len() - k,
    decreases h.len(),
{
    if h.len() > k {
        lemma_count_recent_suffix(h.drop_last(), k, now, window);
    }
}

/// Of any `limit + 1` successive calls the throttle let through, the last went at least a
/// window after the first: never more than `limit` calls in a window.
pub proof fn lemma_calls_span_window(t: &CallingThrottle, i: int)
    requires
        t.wf(),
        0 <= i,
        i + t.limit() < t.history().len(),
    ensures
        t.history()[i] + t.window() <= t.history()[i + t.limit()],
{
    assert(t.history()[i + t.limit()] == t.history()[i + t.limit as int]);
}

} // verus!
