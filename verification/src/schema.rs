//! Schema migrations: which of the numbered migrations still have to run,
//! in version order, given the versions already recorded.

use vstd::prelude::*;

verus! {

/// The newest schema version; migrations are numbered from 1 to this.
pub const LATEST_SCHEMA_VERSION: i64 = 9;

/// The versions from 1 to `n` that are not among `applied`, ascending.
pub open spec fn pending_upto(applied: Seq<i64>, n: int) -> Seq<i64>
    decreases n,
{
    if n <= 0 {
        Seq::empty()
    } else if applied.contains(n as i64) {
        pending_upto(applied, n - 1)
    } else {
        pending_upto(applied, n - 1).push(n as i64)
    }
}

/// The migrations still to run, in the order they run.
pub open spec fn pending_spec(applied: Seq<i64>) -> Seq<i64> {
    pending_upto(applied, LATEST_SCHEMA_VERSION as int)
}

/// The migrations still to run, given the recorded versions, ascending.
pub fn pending_migrations(applied: &Vec<i64>) -> (r: Vec<i64>)
    ensures
        r@ == pending_spec(applied@),
{
    let mut r: Vec<i64> = Vec::new();
    let mut v: i64 = 1;
    while v <= LATEST_SCHEMA_VERSION
        invariant
            1 <= v <= LATEST_SCHEMA_VERSION + 1,
            r@ == pending_upto(applied@, v - 1),
        decreases LATEST_SCHEMA_VERSION + 1 - v,
    {
        let mut seen = false;
        let mut i: usize = 0;
        while i < applied.len()
            invariant
                i <= applied@.len(),
                seen == exists|k: int| 0 <= k < i && applied@[k] == v,
            decreases applied.len() - i,
        {
            if applied[i] == v {
                seen = true;
            }
            i = i + 1;
        }
        assert(seen == applied@.contains(v));
        if !seen {
            r.push(v);
        }
        v = v + 1;
    }
    r
}

proof fn lemma_pending_members(applied: Seq<i64>, n: int)
    requires
        0 <= n <= LATEST_SCHEMA_VERSION,
    ensures
        forall|k: int|
            0 <= k < pending_upto(applied, n).len() ==> 1 <= #[trigger] pending_upto(applied, n)[k]
                <= n && !applied.contains(pending_upto(applied, n)[k]),
        forall|a: int, b: int|
            0 <= a < b < pending_upto(applied, n).len() ==> pending_upto(applied, n)[a]
                < pending_upto(applied, n)[b],
        forall|v: int|
            1 <= v <= n && !applied.contains(v as i64) ==> #[trigger] pending_upto(applied, n).contains(
                v as i64,
            ),
    decreases n,
{
    if n > 0 {
        lemma_pending_members(applied, n - 1);
        let p = pending_upto(applied, n - 1);
        let q = pending_upto(applied, n);
        assert forall|v: int| 1 <= v <= n && !applied.contains(v as i64) implies #[trigger] pending_upto(
            applied,
            n,
        ).contains(v as i64) by {
            if v < n {
                assert(p.contains(v as i64));
                let k = choose|k: int| 0 <= k < p.len() && p[k] == v as i64;
                if applied.contains(n as i64) {
                    assert(q == p);
                } else {
                    assert(q == p.push(n as i64));
                    assert(q[k] == p[k]);
                }
                assert(q[k] == v as i64);
            } else {
                assert(q == p.push(n as i64));
                assert(q[p.len() as int] == v as i64);
            }
        }
    }
}

proof fn lemma_pending_none(applied: Seq<i64>, n: int)
    requires
        0 <= n <= LATEST_SCHEMA_VERSION,
        forall|v: int| 1 <= v <= n ==> #[trigger] applied.contains(v as i64),
    ensures
        pending_upto(applied, n) == Seq::<i64>::empty(),
    decreases n,
{
    if n > 0 {
        assert(applied.contains(n as i64));
        lemma_pending_none(applied, n - 1);
    }
}

/// Running the pending migrations and recording them leaves nothing
/// pending, so running migrations again does nothing; the pending ones run
/// in ascending order, each is a version from 1 to the latest that was not
/// recorded, and every unrecorded version is among them.
pub proof fn lemma_migrations_once(applied: Seq<i64>)
    ensures
        pending_spec(applied + pending_spec(applied)) == Seq::<i64>::empty(),
        forall|a: int, b: int|
            0 <= a < b < pending_spec(applied).len() ==> pending_spec(applied)[a] < pending_spec(
                applied,
            )[b],
        forall|k: int|
            0 <= k < pending_spec(applied).len() ==> 1 <= #[trigger] pending_spec(applied)[k]
                <= LATEST_SCHEMA_VERSION && !applied.contains(pending_spec(applied)[k]),
        forall|v: int|
            1 <= v <= LATEST_SCHEMA_VERSION && !applied.contains(v as i64) ==> #[trigger] pending_spec(
                applied,
            ).contains(v as i64),
{
    let p = pending_spec(applied);
    lemma_pending_members(applied, LATEST_SCHEMA_VERSION as int);
    let all = applied + p;
    assert forall|v: int| 1 <= v <= LATEST_SCHEMA_VERSION implies #[trigger] all.contains(v as i64) by {
        if applied.contains(v as i64) {
            let k = choose|k: int| 0 <= k < applied.len() && applied[k] == v as i64;
            assert(all[k] == v as i64);
        } else {
            assert(p.contains(v as i64));
            let k = choose|k: int| 0 <= k < p.len() && p[k] == v as i64;
            assert(all[applied.len() + k] == v as i64);
        }
    }
    lemma_pending_none(all, LATEST_SCHEMA_VERSION as int);
}

} // verus!
