//! Pending sign-in challenges (passkey registration and authentication),
//! keyed by a user id or a session key. A challenge is good for five
//! minutes; expired ones are dropped whenever a new one is stored, and a
//! challenge is used at most once.

use vstd::prelude::*;
use crate::ratelimit::elapsed;
use crate::text::str_eq;

verus! {

/// How long a challenge stays usable, in milliseconds.
pub const CHALLENGE_TTL_MS: u64 = 300000;

/// Whether a challenge created at `created` is still usable at `now`.
pub open spec fn fresh(created: u64, now: u64) -> bool {
    elapsed(now, created) < CHALLENGE_TTL_MS
}

/// The stored entries in the model: key, challenge state, creation instant.
pub type EntryView<T> = (Seq<char>, T, u64);

/// The entry stored under `key`, searching from the newest.
pub open spec fn lookup<T>(s: Seq<EntryView<T>>, key: Seq<char>) -> Option<(T, u64)>
    decreases s.len(),
{
    if s.len() == 0 {
        None
    } else if s.last().0 == key {
        Some((s.last().1, s.last().2))
    } else {
        lookup(s.drop_last(), key)
    }
}

/// The entries that survive storing a new challenge under `key` at `now`:
/// the fresh ones under other keys, in order.
pub open spec fn kept<T>(s: Seq<EntryView<T>>, now: u64, key: Seq<char>) -> Seq<EntryView<T>>
    decreases s.len(),
{
    if s.len() == 0 {
        s
    } else if fresh(s.last().2, now) && s.last().0 != key {
        kept(s.drop_last(), now, key).push(s.last())
    } else {
        kept(s.drop_last(), now, key)
    }
}

/// The entries under keys other than `key`, in order.
pub open spec fn without<T>(s: Seq<EntryView<T>>, key: Seq<char>) -> Seq<EntryView<T>>
    decreases s.len(),
{
    if s.len() == 0 {
        s
    } else if s.last().0 != key {
        without(s.drop_last(), key).push(s.last())
    } else {
        without(s.drop_last(), key)
    }
}

/// No key occurs twice.
pub open spec fn distinct_keys<T>(s: Seq<EntryView<T>>) -> bool {
    forall|i: int, j: int| 0 <= i < j < s.len() ==> s[i].0 != s[j].0
}

proof fn lemma_lookup_absent<T>(s: Seq<EntryView<T>>, key: Seq<char>)
    requires
        forall|i: int| 0 <= i < s.len() ==> s[i].0 != key,
    ensures
        lookup(s, key) is None,
    decreases s.len(),
{
    if s.len() > 0 {
        assert(s.last().0 != key);
        lemma_lookup_absent(s.drop_last(), key);
    }
}

proof fn lemma_kept<T>(s: Seq<EntryView<T>>, now: u64, key: Seq<char>)
    requires
        distinct_keys(s),
    ensures
        distinct_keys(kept(s, now, key)),
        forall|i: int| 0 <= i < kept(s, now, key).len() ==> #[trigger] kept(s, now, key)[i].0 != key,
        forall|k: Seq<char>|
            k != key ==> #[trigger] lookup(kept(s, now, key), k) == match lookup(s, k) {
                Some(e) => if fresh(e.1, now) {
                    Some(e)
                } else {
                    None
                },
                None => None,
            },
        forall|i: int|
            0 <= i < kept(s, now, key).len() ==> exists|j: int|
                0 <= j < s.len() && #[trigger] kept(s, now, key)[i] == s[j],
    decreases s.len(),
{
    if s.len() > 0 {
        let p = s.drop_last();
        assert(distinct_keys(p));
        lemma_kept(p, now, key);
        let kp = kept(p, now, key);
        let ks = kept(s, now, key);
        assert forall|i: int| 0 <= i < ks.len() implies exists|j: int|
            0 <= j < s.len() && #[trigger] ks[i] == s[j] by {
            if i < kp.len() {
                assert(ks[i] == kp[i]);
                let j = choose|j: int| 0 <= j < p.len() && kp[i] == p[j];
                assert(ks[i] == s[j]);
            } else {
                assert(ks[i] == s[s.len() - 1]);
            }
        }
        assert forall|k: Seq<char>| k != key implies #[trigger] lookup(ks, k) == match lookup(s, k) {
            Some(e) => if fresh(e.1, now) {
                Some(e)
            } else {
                None
            },
            None => None,
        } by {
            if s.last().0 == k {
                assert forall|i: int| 0 <= i < kp.len() implies kp[i].0 != k by {
                    let j = choose|j: int| 0 <= j < p.len() && kp[i] == p[j];
                    assert(s[j].0 != s[s.len() - 1].0);
                }
                lemma_lookup_absent(kp, k);
                if fresh(s.last().2, now) {
                    assert(ks == kp.push(s.last()));
                } else {
                    assert(ks == kp);
                }
            } else {
                if fresh(s.last().2, now) && s.last().0 != key {
                    assert(ks == kp.push(s.last()));
                    assert(ks.drop_last() =~= kp);
                    assert(lookup(ks, k) == lookup(kp, k));
                }
            }
        }
        if fresh(s.last().2, now) && s.last().0 != key {
            assert forall|a: int, b: int| 0 <= a < b < ks.len() implies ks[a].0 != ks[b].0 by {
                if b == ks.len() - 1 {
                    let j = choose|j: int| 0 <= j < p.len() && kp[a] == p[j];
                    assert(s[j].0 != s[s.len() - 1].0);
                } else {
                    assert(ks[a] == kp[a] && ks[b] == kp[b]);
                }
            }
        }
    }
}

proof fn lemma_without<T>(s: Seq<EntryView<T>>, key: Seq<char>)
    requires
        distinct_keys(s),
    ensures
        distinct_keys(without(s, key)),
        lookup(without(s, key), key) is None,
        forall|k: Seq<char>| k != key ==> #[trigger] lookup(without(s, key), k) == lookup(s, k),
        forall|i: int|
            0 <= i < without(s, key).len() ==> exists|j: int|
                0 <= j < s.len() && #[trigger] without(s, key)[i] == s[j],
        forall|i: int| 0 <= i < without(s, key).len() ==> #[trigger] without(s, key)[i].0 != key,
    decreases s.len(),
{
    if s.len() > 0 {
        let p = s.drop_last();
        assert(distinct_keys(p));
        lemma_without(p, key);
        let wp = without(p, key);
        let ws = without(s, key);
        assert forall|i: int| 0 <= i < ws.len() implies exists|j: int|
            0 <= j < s.len() && #[trigger] ws[i] == s[j] by {
            if i < wp.len() {
                assert(ws[i] == wp[i]);
                let j = choose|j: int| 0 <= j < p.len() && wp[i] == p[j];
                assert(ws[i] == s[j]);
            } else {
                assert(ws[i] == s[s.len() - 1]);
            }
        }
        assert forall|k: Seq<char>| k != key implies #[trigger] lookup(ws, k) == lookup(s, k) by {
            if s.last().0 == k {
                assert forall|i: int| 0 <= i < wp.len() implies wp[i].0 != k by {
                    let j = choose|j: int| 0 <= j < p.len() && wp[i] == p[j];
                    assert(s[j].0 != s[s.len() - 1].0);
                }
                lemma_lookup_absent(wp, k);
                assert(ws == wp.push(s.last()));
            } else if s.last().0 != key {
                assert(ws == wp.push(s.last()));
                assert(ws.drop_last() =~= wp);
                assert(lookup(ws, k) == lookup(wp, k));
                assert(lookup(s, k) == lookup(p, k));
            } else {
                assert(ws == wp);
                assert(lookup(s, k) == lookup(p, k));
            }
        }
        if s.last().0 != key {
            assert(ws == wp.push(s.last()));
            assert forall|a: int, b: int| 0 <= a < b < ws.len() implies ws[a].0 != ws[b].0 by {
                if b == ws.len() - 1 {
                    let j = choose|j: int| 0 <= j < p.len() && wp[a] == p[j];
                    assert(s[j].0 != s[s.len() - 1].0);
                } else {
                    assert(ws[a] == wp[a] && ws[b] == wp[b]);
                }
            }
        }
        lemma_lookup_absent(ws, key);
    }
}

/// One pending challenge.
pub struct Pending<T> {
    key: String,
    state: T,
    created: u64,
}

/// The pending challenges of one kind.
pub struct ChallengeStore<T> {
    entries: Vec<Pending<T>>,
}

/// What taking a challenge out of the store found.
pub enum Taken<T> {
    /// Nothing is pending under the key.
    Missing,
    /// The challenge under the key is too old; it is dropped all the same.
    Expired,
    /// The challenge, usable.
    Fresh(T),
}

impl<T> ChallengeStore<T> {
    /// The stored entries, oldest first.
    pub closed spec fn entries_view(&self) -> Seq<EntryView<T>> {
        Seq::new(
            self.entries@.len(),
            |i: int| (self.entries@[i].key@, self.entries@[i].state, self.entries@[i].created),
        )
    }

    /// The challenge stored under `key` and when it was created.
    pub open spec fn pending(&self, key: Seq<char>) -> Option<(T, u64)> {
        lookup(self.entries_view(), key)
    }

    /// Internal consistency: one entry per key.
    pub closed spec fn wf(&self) -> bool {
        distinct_keys(self.entries_view())
    }

    /// An empty store.
    pub fn new() -> (r: Self)
        ensures
            r.wf(),
            forall|k: Seq<char>| r.pending(k) is None,
    {
        let r = ChallengeStore { entries: Vec::new() };
        assert(r.entries_view() =~= Seq::<EntryView<T>>::empty());
        r
    }

    /// Stores `state` under `key` at `now`, replacing what the key held,
    /// after dropping every expired challenge.
    pub fn insert(&mut self, key: &str, state: T, now: u64)
        requires
            old(self).wf(),
        ensures
            final(self).wf(),
            final(self).pending(key@) == Some((state, now)),
            forall|k: Seq<char>|
                k != key@ ==> #[trigger] final(self).pending(k) == match old(self).pending(k) {
                    Some(e) => if fresh(e.1, now) {
                        Some(e)
                    } else {
                        None
                    },
                    None => None,
                },
    {
        let ghost s = self.entries_view();
        proof {
            lemma_kept(s, now, key@);
        }
        let mut rest: Vec<Pending<T>> = Vec::new();
        std::mem::swap(&mut rest, &mut self.entries);
        let mut kept_entries: Vec<Pending<T>> = Vec::new();
        let n0 = rest.len();
        let ghost total = rest@.len();
        assert(total == n0);
        let mut done: usize = 0;
        while rest.len() > 0
            invariant
                done + rest@.len() == total,
                total == s.len(),
                total <= usize::MAX,
                forall|i: int|
                    0 <= i < rest@.len() ==> (#[trigger] rest@[i]).key@ == s[done + i].0
                        && rest@[i].state == s[done + i].1 && rest@[i].created == s[done + i].2,
                Seq::new(
                    kept_entries@.len(),
                    |i: int| (kept_entries@[i].key@, kept_entries@[i].state, kept_entries@[i].created),
                ) == kept(s.subrange(0, done as int), now, key@),
            decreases rest.len(),
        {
            let e = rest.remove(0);
            let ghost pre = s.subrange(0, done as int);
            let ghost next = s.subrange(0, done + 1);
            assert(next.drop_last() == pre);
            assert(next.last() == s[done as int]);
            let ghost before = kept_entries@;
            let age_ok = now < e.created || now - e.created < CHALLENGE_TTL_MS;
            if age_ok && !str_eq(e.key.as_str(), key) {
                kept_entries.push(e);
                assert(Seq::new(
                    kept_entries@.len(),
                    |i: int| (kept_entries@[i].key@, kept_entries@[i].state, kept_entries@[i].created),
                ) =~= kept(next, now, key@));
            } else {
                assert(Seq::new(
                    kept_entries@.len(),
                    |i: int| (kept_entries@[i].key@, kept_entries@[i].state, kept_entries@[i].created),
                ) =~= kept(next, now, key@));
            }
            done = done + 1;
        }
        assert(s.subrange(0, done as int) == s);
        kept_entries.push(Pending { key: key.to_string(), state, created: now });
        self.entries = kept_entries;
        assert(self.entries_view() =~= kept(s, now, key@).push((key@, state, now)));
        proof {
            let ks = kept(s, now, key@);
            let v = self.entries_view();
            assert forall|a: int, b: int| 0 <= a < b < v.len() implies v[a].0 != v[b].0 by {
                if b == v.len() - 1 {
                    assert(ks[a].0 != key@);
                } else {
                    assert(v[a] == ks[a] && v[b] == ks[b]);
                }
            }
            assert forall|k: Seq<char>| k != key@ implies #[trigger] lookup(v, k) == lookup(ks, k) by {
                assert(v.drop_last() == ks);
            }
        }
    }

    /// Takes the challenge under `key` out of the store (it cannot be used
    /// twice) and reports whether it is still usable at `now`.
    pub fn take(&mut self, key: &str, now: u64) -> (r: Taken<T>)
        requires
            old(self).wf(),
        ensures
            final(self).wf(),
            final(self).pending(key@) is None,
            forall|k: Seq<char>| k != key@ ==> #[trigger] final(self).pending(k) == old(self).pending(k),
            match old(self).pending(key@) {
                None => r is Missing,
                Some(e) => if fresh(e.1, now) {
                    r matches Taken::Fresh(t) && t == e.0
                } else {
                    r is Expired
                },
            },
    {
        let ghost s = self.entries_view();
        proof {
            lemma_without(s, key@);
        }
        let mut rest: Vec<Pending<T>> = Vec::new();
        std::mem::swap(&mut rest, &mut self.entries);
        let mut others: Vec<Pending<T>> = Vec::new();
        let mut found: Option<(T, u64)> = None;
        let n0 = rest.len();
        let ghost total = rest@.len();
        assert(total == n0);
        let mut done: usize = 0;
        while rest.len() > 0
            invariant
                done + rest@.len() == total,
                total == s.len(),
                total <= usize::MAX,
                forall|i: int|
                    0 <= i < rest@.len() ==> (#[trigger] rest@[i]).key@ == s[done + i].0
                        && rest@[i].state == s[done + i].1 && rest@[i].created == s[done + i].2,
                Seq::new(
                    others@.len(),
                    |i: int| (others@[i].key@, others@[i].state, others@[i].created),
                ) == without(s.subrange(0, done as int), key@),
                found == lookup(s.subrange(0, done as int), key@),
                distinct_keys(s),
            decreases rest.len(),
        {
            let e = rest.remove(0);
            let ghost pre = s.subrange(0, done as int);
            let ghost next = s.subrange(0, done + 1);
            assert(next.drop_last() == pre);
            assert(next.last() == s[done as int]);
            if str_eq(e.key.as_str(), key) {
                proof {
                    assert forall|i: int| 0 <= i < pre.len() implies pre[i].0 != key@ by {
                        assert(s[i].0 != s[done as int].0);
                    }
                    lemma_lookup_absent(pre, key@);
                }
                found = Some((e.state, e.created));
                assert(Seq::new(
                    others@.len(),
                    |i: int| (others@[i].key@, others@[i].state, others@[i].created),
                ) =~= without(next, key@));
            } else {
                others.push(e);
                assert(Seq::new(
                    others@.len(),
                    |i: int| (others@[i].key@, others@[i].state, others@[i].created),
                ) =~= without(next, key@));
            }
            done = done + 1;
        }
        assert(s.subrange(0, done as int) == s);
        self.entries = others;
        assert(self.entries_view() =~= without(s, key@));
        match found {
            None => Taken::Missing,
            Some((st, created)) => {
                if now < created || now - created < CHALLENGE_TTL_MS {
                    Taken::Fresh(st)
                } else {
                    Taken::Expired
                }
            },
        }
    }
}

} // verus!
