//! Sliding-window rate limiting keyed by text (an e-mail address, a token,
//! a session hash, `rec_send:<user>`, ...). Times are monotonic instants
//! in any fixed unit; a request at `now` is counted against the accepted
//! requests of the same key that happened less than `window` before it.

use vstd::prelude::*;
use crate::text::str_eq;

verus! {

/// Time elapsed from `then` to `now`, zero when `then` is later
/// (`Instant::duration_since`).
pub open spec fn elapsed(now: u64, then: u64) -> int {
    if now >= then {
        now - then
    } else {
        0
    }
}

/// The accepted instants of `log` that are still inside the window at `now`.
pub open spec fn recent(log: Seq<u64>, now: u64, window: u64) -> Seq<u64>
    decreases log.len(),
{
    if log.len() == 0 {
        Seq::empty()
    } else {
        let prev = recent(log.drop_last(), now, window);
        if elapsed(now, log.last()) < window {
            prev.push(log.last())
        } else {
            prev
        }
    }
}

/// Whether a request at `now` is refused, given the key's log.
pub open spec fn refused(log: Seq<u64>, now: u64, max: nat, window: u64) -> bool {
    recent(log, now, window).len() >= max
}

/// The key's log after a request at `now`: pruned to the window, with `now`
/// added when the request is accepted.
pub open spec fn next_log(log: Seq<u64>, now: u64, max: nat, window: u64) -> Seq<u64> {
    if refused(log, now, max, window) {
        recent(log, now, window)
    } else {
        recent(log, now, window).push(now)
    }
}

/// Per-key logs of accepted request instants.
pub struct RateLimiter {
    keys: Vec<String>,
    logs: Vec<Vec<u64>>,
}

impl RateLimiter {
    /// Internal consistency: one log per key, no key twice.
    pub closed spec fn wf(&self) -> bool {
        &&& self.keys@.len() == self.logs@.len()
        &&& forall|i: int, j: int|
            0 <= i < j < self.keys@.len() ==> self.keys@[i]@ != self.keys@[j]@
    }

    /// The log of accepted instants kept for `key` (empty for an unseen key).
    pub closed spec fn log_of(&self, key: Seq<char>) -> Seq<u64> {
        if exists|i: int| 0 <= i < self.keys@.len() && self.keys@[i]@ == key {
            let i = choose|i: int| 0 <= i < self.keys@.len() && self.keys@[i]@ == key;
            self.logs@[i]@
        } else {
            Seq::empty()
        }
    }

    /// An empty limiter.
    pub fn new() -> (r: Self)
        ensures
            r.wf(),
            forall|k: Seq<char>| r.log_of(k) == Seq::<u64>::empty(),
    {
        RateLimiter { keys: Vec::new(), logs: Vec::new() }
    }

    proof fn lemma_log_at(&self, i: int)
        requires
            self.wf(),
            0 <= i < self.keys@.len(),
        ensures
            self.log_of(self.keys@[i]@) == self.logs@[i]@,
    {
        let key = self.keys@[i]@;
        let j = choose|j: int| 0 <= j < self.keys@.len() && self.keys@[j]@ == key;
        if j != i {
            if j < i {
                assert(self.keys@[j]@ != self.keys@[i]@);
            } else {
                assert(self.keys@[i]@ != self.keys@[j]@);
            }
        }
    }

    fn find(&self, key: &str) -> (r: Option<usize>)
        requires
            self.wf(),
        ensures
            match r {
                Some(i) => i < self.keys@.len() && self.keys@[i as int]@ == key@,
                None => forall|i: int| 0 <= i < self.keys@.len() ==> self.keys@[i]@ != key@,
            },
    {
        let mut i: usize = 0;
        while i < self.keys.len()
            invariant
                self.wf(),
                i <= self.keys@.len(),
                forall|k: int| 0 <= k < i ==> self.keys@[k]@ != key@,
            decreases self.keys.len() - i,
        {
            if str_eq(self.keys[i].as_str(), key) {
                return Some(i);
            }
            i = i + 1;
        }
        None
    }

    /// Records a request for `key` at `now` and reports whether it is over
    /// the limit: `true` when `max` or more accepted requests of the key lie
    /// within `window` before `now` (the request is then not counted).
    pub fn over_limit(&mut self, key: &str, now: u64, max: usize, window: u64) -> (r: bool)
        requires
            old(self).wf(),
        ensures
            final(self).wf(),
            r == refused(old(self).log_of(key@), now, max as nat, window),
            final(self).log_of(key@) == next_log(old(self).log_of(key@), now, max as nat, window),
            forall|k: Seq<char>| k != key@ ==> final(self).log_of(k) == old(self).log_of(k),
    {
        let idx = match self.find(key) {
            Some(i) => {
                proof {
                    self.lemma_log_at(i as int);
                }
                i
            },
            None => {
                let ghost before = *self;
                self.keys.push(key.to_owned());
                self.logs.push(Vec::new());
                let n = self.keys.len() - 1;
                assert(self.wf());
                proof {
                    self.lemma_log_at(n as int);
                    assert forall|k: Seq<char>| k != key@ implies self.log_of(k) == before.log_of(
                        k,
                    ) by {
                        self.lemma_same_other_keys(before, n as int, k);
                    }
                }
                n
            },
        };
        let ghost mid = *self;
        let ghost old_log = self.logs@[idx as int]@;
        let kept = prune(&self.logs[idx], now, window);
        let refuse = kept.len() >= max;
        let mut new_log = kept;
        if !refuse {
            new_log.push(now);
        }
        self.logs.set(idx, new_log);
        proof {
            assert(self.wf());
            self.lemma_log_at(idx as int);
            assert forall|k: Seq<char>| k != key@ implies self.log_of(k) == mid.log_of(k) by {
                self.lemma_replace_other(mid, idx as int, k);
            }
        }
        refuse
    }

    proof fn lemma_same_other_keys(&self, before: Self, n: int, k: Seq<char>)
        requires
            before.wf(),
            self.wf(),
            n == before.keys@.len(),
            self.keys@ == before.keys@.push(self.keys@[n]),
            self.logs@ == before.logs@.push(self.logs@[n]),
            k != self.keys@[n]@,
        ensures
            self.log_of(k) == before.log_of(k),
    {
        if exists|i: int| 0 <= i < before.keys@.len() && before.keys@[i]@ == k {
            let i = choose|i: int| 0 <= i < before.keys@.len() && before.keys@[i]@ == k;
            before.lemma_log_at(i);
            assert(self.keys@[i] == before.keys@[i]);
            self.lemma_log_at(i);
        } else {
            assert forall|i: int| 0 <= i < self.keys@.len() implies self.keys@[i]@ != k by {
                if i < n {
                    assert(self.keys@[i] == before.keys@[i]);
                }
            }
        }
    }

    proof fn lemma_replace_other(&self, mid: Self, idx: int, k: Seq<char>)
        requires
            mid.wf(),
            self.wf(),
            0 <= idx < mid.keys@.len(),
            self.keys@ == mid.keys@,
            self.logs@ == mid.logs@.update(idx, self.logs@[idx]),
            k != self.keys@[idx]@,
        ensures
            self.log_of(k) == mid.log_of(k),
    {
        if exists|i: int| 0 <= i < mid.keys@.len() && mid.keys@[i]@ == k {
            let i = choose|i: int| 0 <= i < mid.keys@.len() && mid.keys@[i]@ == k;
            mid.lemma_log_at(i);
            self.lemma_log_at(i);
        }
    }
}

/// The instants of `log` still inside the window at `now`.
pub fn prune(log: &Vec<u64>, now: u64, window: u64) -> (r: Vec<u64>)
    ensures
        r@ == recent(log@, now, window),
{
    let mut r: Vec<u64> = Vec::new();
    let mut i: usize = 0;
    while i < log.len()
        invariant
            i <= log@.len(),
            r@ == recent(log@.subrange(0, i as int), now, window),
        decreases log.len() - i,
    {
        let ghost next = log@.subrange(0, i + 1);
        assert(next.drop_last() == log@.subrange(0, i as int));
        let t = log[i];
        let age: u64 = if now >= t {
            now - t
        } else {
            0
        };
        if age < window {
            r.push(t);
        }
        i = i + 1;
    }
    assert(log@.subrange(0, log@.len() as int) == log@);
    r
}

/// Whether something created at `created` is still live at `now` under a
/// time-to-live of `ttl` (pending passkey challenges, cached lists).
pub open spec fn is_live(created: u64, now: u64, ttl: u64) -> bool {
    elapsed(now, created) < ttl
}

/// Whether an item created at `created` is still live at `now`.
pub fn live(created: u64, now: u64, ttl: u64) -> (r: bool)
    ensures
        r == is_live(created, now, ttl),
{
    let age: u64 = if now >= created {
        now - created
    } else {
        0
    };
    age < ttl
}

// ─────────────────────────── the sliding-window guarantee ───────────────────────────

/// Instants of the accepted requests among the first `k` of `times`, all
/// sent for one key, replaying the limiter from an empty log.
pub open spec fn accepted_times(times: Seq<u64>, k: int, max: nat, window: u64) -> Seq<u64>
    decreases k,
{
    if k <= 0 {
        Seq::empty()
    } else {
        let prev = accepted_times(times, k - 1, max, window);
        if recent(prev, times[k - 1], window).len() < max {
            prev.push(times[k - 1])
        } else {
            prev
        }
    }
}

/// The key's log after the first `k` requests of `times`.
pub open spec fn log_after(times: Seq<u64>, k: int, max: nat, window: u64) -> Seq<u64>
    decreases k,
{
    if k <= 0 {
        Seq::empty()
    } else {
        next_log(log_after(times, k - 1, max, window), times[k - 1], max, window)
    }
}

proof fn lemma_recent_push(log: Seq<u64>, x: u64, now: u64, window: u64)
    ensures
        recent(log.push(x), now, window) == if elapsed(now, x) < window {
            recent(log, now, window).push(x)
        } else {
            recent(log, now, window)
        },
{
    assert(log.push(x).drop_last() == log);
}

/// Pruning at an earlier instant and then at a later one is the same as
/// pruning at the later one.
proof fn lemma_recent_twice(log: Seq<u64>, t1: u64, t2: u64, window: u64)
    requires
        t1 <= t2,
    ensures
        recent(recent(log, t1, window), t2, window) == recent(log, t2, window),
    decreases log.len(),
{
    if log.len() > 0 {
        let p = log.drop_last();
        lemma_recent_twice(p, t1, t2, window);
        let x = log.last();
        if elapsed(t1, x) < window {
            lemma_recent_push(recent(p, t1, window), x, t2, window);
        } else {
            assert(elapsed(t2, x) >= elapsed(t1, x));
        }
    }
}

proof fn lemma_log_after(times: Seq<u64>, k: int, max: nat, window: u64)
    requires
        1 <= k <= times.len(),
        window > 0,
        forall|i: int, j: int| 0 <= i <= j < times.len() ==> times[i] <= times[j],
    ensures
        log_after(times, k, max, window) == recent(
            accepted_times(times, k, max, window),
            times[k - 1],
            window,
        ),
    decreases k,
{
    let now = times[k - 1];
    let acc = accepted_times(times, k - 1, max, window);
    let prev_log = log_after(times, k - 1, max, window);
    if k == 1 {
        assert(prev_log == Seq::<u64>::empty());
        assert(acc == Seq::<u64>::empty());
        assert(recent(prev_log, now, window) == Seq::<u64>::empty());
        assert(recent(acc, now, window) == Seq::<u64>::empty());
    } else {
        lemma_log_after(times, k - 1, max, window);
        let before = times[k - 2];
        assert(before <= now);
        lemma_recent_twice(acc, before, now, window);
    }
    assert(recent(prev_log, now, window) == recent(acc, now, window));
    lemma_recent_push(acc, now, now, window);
    assert(elapsed(now, now) == 0);
    if recent(acc, now, window).len() < max {
        assert(accepted_times(times, k, max, window) == acc.push(now));
        assert(log_after(times, k, max, window) == recent(acc, now, window).push(now));
    } else {
        assert(accepted_times(times, k, max, window) == acc);
        assert(log_after(times, k, max, window) == recent(acc, now, window));
    }
}

/// The limiter's promise: replaying any sequence of requests for one key
/// at non-decreasing instants, when the request at `times[k]` is accepted,
/// at most `max` accepted requests (itself included) lie within `window`
/// before it; and a request is refused exactly when `max` accepted ones
/// already do.
pub proof fn lemma_window_limit(times: Seq<u64>, k: int, max: nat, window: u64)
    requires
        0 <= k < times.len(),
        window > 0,
        forall|i: int, j: int| 0 <= i <= j < times.len() ==> times[i] <= times[j],
    ensures
        refused(log_after(times, k, max, window), times[k], max, window) == (recent(
            accepted_times(times, k, max, window),
            times[k],
            window,
        ).len() >= max),
        !refused(log_after(times, k, max, window), times[k], max, window) ==> recent(
            accepted_times(times, k + 1, max, window),
            times[k],
            window,
        ).len() <= max,
{
    let now = times[k];
    let acc = accepted_times(times, k, max, window);
    if k >= 1 {
        lemma_log_after(times, k, max, window);
        lemma_recent_twice(acc, times[k - 1], now, window);
    } else {
        assert(log_after(times, 0, max, window) == Seq::<u64>::empty());
        assert(acc == Seq::<u64>::empty());
        assert(recent(Seq::<u64>::empty(), now, window) == Seq::<u64>::empty());
    }
    lemma_recent_push(acc, now, now, window);
    assert(elapsed(now, now) == 0);
    if recent(acc, now, window).len() < max {
        assert(accepted_times(times, k + 1, max, window) == acc.push(now));
    }
}

} // verus!
