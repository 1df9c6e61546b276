//! Public movie identifiers: `mv` followed by the row id in lower-case
//! base 36 (`42` is `mv16`, `1000` is `mvrs`).

use vstd::prelude::*;
use crate::text::{chars_of, is_digit, push_char};

verus! {

/// Whether `c` is a base-36 digit (`0`–`9`, `a`–`z`).
pub open spec fn is_b36(c: char) -> bool {
    is_digit(c) || (97 <= (c as u32) <= 122)
}

/// The value of a base-36 digit.
pub open spec fn b36_val(c: char) -> int {
    if is_digit(c) {
        (c as u32) - 48
    } else {
        (c as u32) - 87
    }
}

/// The base-36 digit for a value below 36.
pub open spec fn b36_char(d: int) -> char {
    if d < 10 {
        (d + 48) as char
    } else {
        (d + 87) as char
    }
}

/// The value of a string of base-36 digits, most significant first.
pub open spec fn b36_value(s: Seq<char>) -> int
    decreases s.len(),
{
    if s.len() == 0 {
        0
    } else {
        b36_value(s.drop_last()) * 36 + b36_val(s.last())
    }
}

/// Base-36 notation of a natural number, without leading zeros.
pub open spec fn base36(n: nat) -> Seq<char>
    decreases n,
{
    if n < 36 {
        seq![b36_char(n as int)]
    } else {
        base36(n / 36).push(b36_char((n % 36) as int))
    }
}

/// The public identifier of the movie with row id `id`.
pub open spec fn movie_id_text(id: nat) -> Seq<char> {
    seq!['m', 'v'] + base36(id)
}

/// The row id a public identifier stands for: `mv` and at least one
/// base-36 digit, with a value that fits in `i64`.
pub open spec fn movie_id_value(s: Seq<char>) -> Option<int> {
    let d = s.skip(2);
    if s.len() > 2 && s[0] == 'm' && s[1] == 'v' && (forall|i: int|
        0 <= i < d.len() ==> is_b36(#[trigger] d[i])) && b36_value(d) <= i64::MAX {
        Some(b36_value(d))
    } else {
        None
    }
}

fn b36_char_exec(d: u64) -> (c: char)
    requires
        d < 36,
    ensures
        c == b36_char(d as int),
{
    if d < 10 {
        ((d as u8) + 48) as char
    } else {
        ((d as u8) + 87) as char
    }
}

fn push_base36(out: &mut String, n: u64)
    ensures
        final(out)@ == old(out)@ + base36(n as nat),
    decreases n,
{
    if n >= 36 {
        push_base36(out, n / 36);
    }
    push_char(out, b36_char_exec(n % 36));
    if n >= 36 {
        assert(base36(n as nat) == base36((n / 36) as nat).push(b36_char((n % 36) as int)));
    }
}

/// Encodes a movie row id as its public identifier.
pub fn encode_movie_id(id: i64) -> (r: String)
    requires
        id >= 0,
    ensures
        r@ == movie_id_text(id as nat),
{
    let mut r = String::new();
    push_char(&mut r, 'm');
    push_char(&mut r, 'v');
    push_base36(&mut r, id as u64);
    assert(r@ =~= movie_id_text(id as nat));
    r
}

/// Decodes a public identifier back to the movie row id; `None` for
/// anything that is not `mv` followed by base-36 digits fitting in `i64`.
pub fn decode_movie_id(s: &str) -> (r: Option<i64>)
    ensures
        match r {
            Some(v) => movie_id_value(s@) == Some(v as int),
            None => movie_id_value(s@) is None,
        },
{
    let cs = chars_of(s);
    let n = cs.len();
    if n <= 2 || cs[0] != 'm' || cs[1] != 'v' {
        return None;
    }
    let ghost d = cs@.skip(2);
    let limit: u64 = 0x7fff_ffff_ffff_ffff;
    let mut acc: u64 = 0;
    let mut i: usize = 2;
    while i < n
        invariant
            2 < n == cs@.len(),
            cs@ == s@,
            d == cs@.skip(2),
            2 <= i <= n,
            forall|k: int| 0 <= k < i - 2 ==> is_b36(#[trigger] d[k]),
            acc == b36_value(d.subrange(0, i - 2)),
            acc <= limit,
            limit == 0x7fff_ffff_ffff_ffffu64,
        decreases n - i,
    {
        let c = cs[i];
        let x = c as u32;
        let v: u64;
        if 48 <= x && x <= 57 {
            v = (x - 48) as u64;
        } else if 97 <= x && x <= 122 {
            v = (x - 87) as u64;
        } else {
            assert(!is_b36(d[i - 2]));
            return None;
        }
        let ghost pre = d.subrange(0, i - 2);
        let ghost next = d.subrange(0, i - 1);
        assert(next.drop_last() == pre);
        assert(next.last() == c);
        assert(b36_value(next) == acc * 36 + v);
        if acc > (limit - v) / 36 {
            assert(acc * 36 + v > limit) by (nonlinear_arith)
                requires
                    acc > (limit - v) / 36,
                    v <= 35,
                    limit >= 35,
            ;
            proof {
                if forall|k: int| 0 <= k < d.len() ==> is_b36(#[trigger] d[k]) {
                    lemma_b36_value_grows(d, i - 1);
                }
            }
            return None;
        }
        assert(acc * 36 + v <= limit) by (nonlinear_arith)
            requires
                acc <= (limit - v) / 36,
                v <= limit,
        ;
        acc = acc * 36 + v;
        i = i + 1;
    }
    assert(d.subrange(0, n - 2) == d);
    Some(acc as i64)
}

proof fn lemma_b36_value_grows(s: Seq<char>, k: int)
    requires
        0 <= k <= s.len(),
        forall|i: int| 0 <= i < s.len() ==> is_b36(#[trigger] s[i]),
    ensures
        b36_value(s) >= b36_value(s.subrange(0, k)),
    decreases s.len() - k,
{
    if k < s.len() {
        lemma_b36_value_grows(s, k + 1);
        let p = s.subrange(0, k + 1);
        assert(p.drop_last() == s.subrange(0, k));
        assert(is_b36(s[k]));
        lemma_b36_value_nonneg(s.subrange(0, k));
    } else {
        assert(s.subrange(0, k) == s);
    }
}

proof fn lemma_b36_value_nonneg(s: Seq<char>)
    requires
        forall|i: int| 0 <= i < s.len() ==> is_b36(#[trigger] s[i]),
    ensures
        b36_value(s) >= 0,
    decreases s.len(),
{
    if s.len() > 0 {
        let p = s.drop_last();
        assert forall|i: int| 0 <= i < p.len() implies is_b36(#[trigger] p[i]) by {
            assert(p[i] == s[i]);
        }
        assert(is_b36(s[s.len() - 1]));
        lemma_b36_value_nonneg(p);
    }
}

proof fn lemma_base36_reads_back(n: nat)
    ensures
        base36(n).len() >= 1,
        forall|i: int| 0 <= i < base36(n).len() ==> is_b36(#[trigger] base36(n)[i]),
        b36_value(base36(n)) == n,
    decreases n,
{
    if n >= 36 {
        lemma_base36_reads_back(n / 36);
        let p = base36(n / 36);
        let d = (n % 36) as int;
        assert(base36(n).drop_last() == p);
        assert(base36(n).last() == b36_char(d));
        assert(is_b36(b36_char(d)) && b36_val(b36_char(d)) == d);
        assert forall|i: int| 0 <= i < base36(n).len() implies is_b36(#[trigger] base36(n)[i]) by {
            if i < p.len() {
                assert(base36(n)[i] == p[i]);
            }
        }
        assert(b36_value(base36(n)) == b36_value(p) * 36 + d);
        assert((n / 36) * 36 + n % 36 == n) by (nonlinear_arith);
    } else {
        assert(base36(n).drop_last() =~= Seq::<char>::empty());
        assert(b36_value(Seq::<char>::empty()) == 0);
        assert(base36(n).last() == b36_char(n as int));
        assert(is_b36(b36_char(n as int)) && b36_val(b36_char(n as int)) == n);
    }
}

/// Decoding the identifier of any movie row id gives that id back.
pub proof fn lemma_movie_id_round_trip(id: int)
    requires
        0 <= id <= i64::MAX,
    ensures
        movie_id_value(movie_id_text(id as nat)) == Some(id),
{
    lemma_base36_reads_back(id as nat);
    let s = movie_id_text(id as nat);
    assert(s.skip(2) == base36(id as nat));
}

/// Two different row ids never share a public identifier.
pub proof fn lemma_movie_id_injective(a: int, b: int)
    requires
        0 <= a <= i64::MAX,
        0 <= b <= i64::MAX,
        movie_id_text(a as nat) == movie_id_text(b as nat),
    ensures
        a == b,
{
    lemma_movie_id_round_trip(a);
    lemma_movie_id_round_trip(b);
}

} // verus!
