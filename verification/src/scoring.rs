//! The integer side of hidden-gem scoring: who may be scored at all (vote
//! floor, minimum age, critic gate), the age that drives year decay, and
//! whether a film came out in the shadow of a blockbuster.
//!
//! The weighted floating-point score built from these signals lives in the
//! application around this library.

use vstd::prelude::*;
use crate::text::{
    chars_of, contains_chars, contains_seq, find_char, first_index, parse_i64, parse_i64_spec,
    slice_chars, string_views,
};

verus! {

/// Fewest votes (the larger of the IMDb and TMDB counts) a film needs.
pub const MIN_IMDB_VOTES: i64 = 500;

/// Youngest a film may be, in years, to count as undiscovered.
pub const MIN_GEM_AGE_YEARS: i32 = 3;

/// First release year the catalogue covers.
pub const DATA_START_YEAR: i32 = 1960;

/// A blockbuster released this many weeks before or after a film obscures it.
pub const OBSCURED_WINDOW_WEEKS: i64 = 6;

/// Critic score (Rotten Tomatoes, percent) below which a film is no gem.
pub const MIN_RT_CRITIC_SCORE: i32 = 65;

/// Calculator for hidden-gem scores.
#[derive(Clone, Copy, Debug)]
pub struct GemScoreCalculator;

impl Default for GemScoreCalculator {
    fn default() -> (r: Self) {
        Self::new()
    }
}

/// The vote count scoring uses: the larger of the IMDb and TMDB counts
/// (a missing count reads as zero).
pub open spec fn effective_votes_spec(imdb: Option<i64>, tmdb: Option<i64>) -> int {
    let a: int = match imdb {
        Some(v) => v as int,
        None => 0,
    };
    let b: int = match tmdb {
        Some(v) => v as int,
        None => 0,
    };
    if a >= b {
        a
    } else {
        b
    }
}

/// Whether a film passes the checks that do not involve its rating: enough
/// votes, old enough if its year is recorded, and a critic score, if there
/// is one, at or above the critic minimum.
pub open spec fn passes_gates(
    imdb_votes: Option<i64>,
    tmdb_votes: Option<i64>,
    year: Option<i32>,
    rt_critic: Option<i32>,
    current_year: i32,
) -> bool {
    &&& effective_votes_spec(imdb_votes, tmdb_votes) >= MIN_IMDB_VOTES
    &&& (year matches Some(y) ==> current_year - y >= MIN_GEM_AGE_YEARS)
    &&& (rt_critic matches Some(rt) ==> rt >= MIN_RT_CRITIC_SCORE)
}

/// The age year decay works from: years since release, for release years
/// between the catalogue start and now; none otherwise.
pub open spec fn decay_age(year: Option<i32>, current_year: i32) -> Option<int> {
    match year {
        Some(y) => if DATA_START_YEAR <= y <= current_year {
            Some(current_year - y)
        } else {
            None
        },
        None => None,
    }
}

// ─────────────────────────── dates ───────────────────────────

/// The text before the first `-`, then (when present) the text between the
/// first and second `-`, then (when present) everything after the second
/// `-` (`splitn(3, '-')`).
#[verifier::opaque]
pub open spec fn date_parts(s: Seq<char>) -> (Seq<char>, Option<Seq<char>>, Option<Seq<char>>) {
    match first_index(s, '-') {
        None => (s, None, None),
        Some(i) => {
            let rest = s.subrange(i + 1, s.len() as int);
            match first_index(rest, '-') {
                None => (s.subrange(0, i), Some(rest), None),
                Some(j) => (
                    s.subrange(0, i),
                    Some(rest.subrange(0, j)),
                    Some(rest.subrange(j + 1, rest.len() as int)),
                ),
            }
        },
    }
}

/// A date part read as a number, `1` when absent or not a number.
pub open spec fn part_or_one(p: Option<Seq<char>>) -> int {
    match p {
        Some(t) => match parse_i64_spec(t) {
            Some(v) => v,
            None => 1,
        },
        None => 1,
    }
}

/// Approximate day count of a `YYYY-MM-DD` date (`year*365 + month*30 +
/// day`), month and day defaulting to 1; none when the year is not a number.
pub open spec fn approx_days(s: Seq<char>) -> Option<int> {
    let (y, m, d) = date_parts(s);
    match parse_i64_spec(y) {
        Some(year) => Some(year * 365 + part_or_one(m) * 30 + part_or_one(d)),
        None => None,
    }
}

/// Whether computing the day count of `s` stays within `i64`.
pub open spec fn approx_days_fits(s: Seq<char>) -> bool {
    let (y, m, d) = date_parts(s);
    match parse_i64_spec(y) {
        Some(year) => {
            let a = year * 365;
            let b = part_or_one(m) * 30;
            &&& i64::MIN <= a <= i64::MAX
            &&& i64::MIN <= b <= i64::MAX
            &&& i64::MIN <= a + b <= i64::MAX
            &&& i64::MIN <= a + b + part_or_one(d) <= i64::MAX
        },
        None => true,
    }
}

fn date_parts_exec(s: &[char]) -> (r: (Vec<char>, Option<Vec<char>>, Option<Vec<char>>))
    ensures
        ({
            let (y, m, d) = date_parts(s@);
            &&& r.0@ == y
            &&& match r.1 {
                Some(v) => m == Some(v@),
                None => m is None,
            }
            &&& match r.2 {
                Some(v) => d == Some(v@),
                None => d is None,
            }
        }),
{
    reveal(date_parts);
    match find_char(s, '-') {
        None => {
            let all = slice_chars(s, 0, s.len());
            assert(s@.subrange(0, s@.len() as int) == s@);
            (all, None, None)
        },
        Some(i) => {
            assert(s@.len() == s.len());
            let rest = slice_chars(s, i + 1, s.len());
            let head = slice_chars(s, 0, i);
            match find_char(rest.as_slice(), '-') {
                None => (head, Some(rest), None),
                Some(j) => {
                    let mid = slice_chars(rest.as_slice(), 0, j);
                    let tail = slice_chars(rest.as_slice(), j + 1, rest.len());
                    (head, Some(mid), Some(tail))
                },
            }
        },
    }
}

fn part_or_one_exec(p: &Option<Vec<char>>) -> (r: i64)
    ensures
        r == part_or_one(
            match p {
                Some(v) => Some(v@),
                None => None,
            },
        ),
{
    match p {
        Some(v) => match parse_i64(v.as_slice()) {
            Some(x) => x,
            None => 1,
        },
        None => 1,
    }
}

/// Whether the day count of a date stays within `i64` (checked before
/// converting it).
pub fn days_fit(date: &str) -> (r: bool)
    ensures
        r == approx_days_fits(date@),
{
    let cs = chars_of(date);
    let (y, m, d) = date_parts_exec(cs.as_slice());
    match parse_i64(y.as_slice()) {
        None => true,
        Some(year) => {
            let a: i128 = (year as i128) * 365;
            let b: i128 = (part_or_one_exec(&m) as i128) * 30;
            let c: i128 = part_or_one_exec(&d) as i128;
            let lo: i128 = -9223372036854775808;
            let hi: i128 = 9223372036854775807;
            lo <= a && a <= hi && lo <= b && b <= hi && lo <= a + b && a + b <= hi && lo <= a + b + c
                && a + b + c <= hi
        },
    }
}

/// Whether the blockbuster proximity check of a film stays within `i64`
/// (checked before running it).
pub fn proximity_fits(release_date: Option<&str>, big_hit_dates: &Vec<String>) -> (r: bool)
    ensures
        r == obscured_fits(
            match release_date {
                Some(d) => Some(d@),
                None => None,
            },
            string_views(big_hit_dates@),
        ),
{
    let ghost hits = string_views(big_hit_dates@);
    let d = match release_date {
        None => return true,
        Some(d) => d,
    };
    if !days_fit(d) {
        return false;
    }
    let mut i: usize = 0;
    while i < big_hit_dates.len()
        invariant
            hits == string_views(big_hit_dates@),
            release_date == Some(d),
            approx_days_fits(d@),
            i <= big_hit_dates@.len(),
            forall|k: int| 0 <= k < i ==> approx_days_fits(#[trigger] hits[k]),
        decreases big_hit_dates.len() - i,
    {
        assert(hits[i as int] == big_hit_dates@[i as int]@);
        if !days_fit(big_hit_dates[i].as_str()) {
            assert(!approx_days_fits(hits[i as int]));
            return false;
        }
        i = i + 1;
    }
    let movie_days = match date_to_approx_days(d) {
        None => return true,
        Some(v) => v,
    };
    let mut j: usize = 0;
    while j < big_hit_dates.len()
        invariant
            hits == string_views(big_hit_dates@),
            release_date == Some(d),
            approx_days_fits(d@),
            j <= big_hit_dates@.len(),
            approx_days(d@) == Some(movie_days as int),
            forall|k: int| 0 <= k < hits.len() ==> approx_days_fits(#[trigger] hits[k]),
            forall|k: int|
                0 <= k < j ==> (#[trigger] approx_days(hits[k]) matches Some(h) ==> (i64::MIN
                    < movie_days - h <= i64::MAX)),
        decreases big_hit_dates.len() - j,
    {
        assert(hits[j as int] == big_hit_dates@[j as int]@);
        match date_to_approx_days(big_hit_dates[j].as_str()) {
            None => {},
            Some(h) => {
                let diff: i128 = (movie_days as i128) - (h as i128);
                if !(-9223372036854775808i128 < diff && diff <= 9223372036854775807i128) {
                    assert(approx_days(hits[j as int]) == Some(h as int));
                    assert(!(i64::MIN < movie_days - h <= i64::MAX));
                    return false;
                }
            },
        }
        j = j + 1;
    }
    true
}

/// Converts a `YYYY-MM-DD` date to an approximate day count for proximity checks.
pub fn date_to_approx_days(date: &str) -> (r: Option<i64>)
    requires
        approx_days_fits(date@),
    ensures
        match r {
            Some(v) => approx_days(date@) == Some(v as int),
            None => approx_days(date@) is None,
        },
{
    let cs = chars_of(date);
    let (y, m, d) = date_parts_exec(cs.as_slice());
    let year = match parse_i64(y.as_slice()) {
        Some(v) => v,
        None => return None,
    };
    let month = part_or_one_exec(&m);
    let day = part_or_one_exec(&d);
    Some(year * 365 + month * 30 + day)
}

// ─────────────────────────── obscured by a blockbuster ───────────────────────────

/// Width, in days either side, of the blockbuster window.
pub open spec fn window_days() -> int {
    OBSCURED_WINDOW_WEEKS * 7
}

/// Whether a blockbuster date lies within the window of a film's day count.
pub open spec fn near(movie_days: int, hit: Seq<char>) -> bool {
    match approx_days(hit) {
        Some(h) => {
            let diff = movie_days - h;
            (if diff < 0 {
                -diff
            } else {
                diff
            }) <= window_days()
        },
        None => false,
    }
}

/// Whether a film with this release date was obscured: it has a non-empty
/// date that reads as a day count, and some blockbuster date lies within
/// the window of it.
pub open spec fn obscured(release_date: Option<Seq<char>>, hits: Seq<Seq<char>>) -> bool {
    match release_date {
        Some(d) => d.len() > 0 && match approx_days(d) {
            Some(m) => exists|i: int| 0 <= i < hits.len() && near(m, #[trigger] hits[i]),
            None => false,
        },
        None => false,
    }
}

/// Whether the proximity check of a film and the blockbuster dates stays
/// within `i64` arithmetic.
pub open spec fn obscured_fits(release_date: Option<Seq<char>>, hits: Seq<Seq<char>>) -> bool {
    match release_date {
        Some(d) => approx_days_fits(d) && (forall|i: int|
            0 <= i < hits.len() ==> approx_days_fits(#[trigger] hits[i])) && match approx_days(d) {
            Some(m) => forall|i: int|
                0 <= i < hits.len() ==> (#[trigger] approx_days(hits[i]) matches Some(h) ==> (
                i64::MIN < m - h <= i64::MAX)),
            None => true,
        },
        None => true,
    }
}

impl GemScoreCalculator {
    pub fn new() -> (r: Self) {
        GemScoreCalculator
    }

    /// The vote count scoring uses: the larger of the two counts.
    pub fn effective_votes(&self, imdb: Option<i64>, tmdb: Option<i64>) -> (r: i64)
        ensures
            r == effective_votes_spec(imdb, tmdb),
    {
        let a = match imdb {
            Some(v) => v,
            None => 0,
        };
        let b = match tmdb {
            Some(v) => v,
            None => 0,
        };
        if a >= b {
            a
        } else {
            b
        }
    }

    /// Whether a film passes the vote floor, the minimum age and the
    /// critic gate (the rating sweet spot is checked with the rating itself).
    pub fn passes_gates(
        &self,
        imdb_votes: Option<i64>,
        tmdb_votes: Option<i64>,
        year: Option<i32>,
        rt_critic: Option<i32>,
        current_year: i32,
    ) -> (r: bool)
        requires
            year matches Some(y) ==> i32::MIN <= current_year - y <= i32::MAX,
        ensures
            r == passes_gates(imdb_votes, tmdb_votes, year, rt_critic, current_year),
    {
        let votes = self.effective_votes(imdb_votes, tmdb_votes);
        if votes < MIN_IMDB_VOTES {
            return false;
        }
        match year {
            Some(y) => {
                if current_year - y < MIN_GEM_AGE_YEARS {
                    return false;
                }
            },
            None => {},
        }
        match rt_critic {
            Some(rt) => {
                if rt < MIN_RT_CRITIC_SCORE {
                    return false;
                }
            },
            None => {},
        }
        true
    }

    /// Years since release that year decay is computed from.
    pub fn decay_age(&self, year: Option<i32>, current_year: i32) -> (r: Option<i32>)
        ensures
            match r {
                Some(a) => decay_age(year, current_year) == Some(a as int),
                None => decay_age(year, current_year) is None,
            },
    {
        match year {
            Some(y) => {
                if DATA_START_YEAR <= y && y <= current_year {
                    Some(current_year - y)
                } else {
                    None
                }
            },
            None => None,
        }
    }

    /// Whether a blockbuster was released within the window around the
    /// film's release date.
    pub fn obscured_by_big_hit(&self, release_date: Option<&str>, big_hit_dates: &Vec<String>) -> (r:
        bool)
        requires
            obscured_fits(
                match release_date {
                    Some(d) => Some(d@),
                    None => None,
                },
                string_views(big_hit_dates@),
            ),
        ensures
            r == obscured(
                match release_date {
                    Some(d) => Some(d@),
                    None => None,
                },
                string_views(big_hit_dates@),
            ),
    {
        let ghost hits = string_views(big_hit_dates@);
        let d = match release_date {
            Some(d) => d,
            None => return false,
        };
        if d.unicode_len() == 0 {
            return false;
        }
        let movie_days = match date_to_approx_days(d) {
            Some(v) => v,
            None => return false,
        };
        let window: i64 = OBSCURED_WINDOW_WEEKS * 7;
        let mut i: usize = 0;
        while i < big_hit_dates.len()
            invariant
                hits == string_views(big_hit_dates@),
                approx_days(d@) == Some(movie_days as int),
                d@.len() > 0,
                release_date == Some(d),
                window == window_days(),
                forall|k: int| 0 <= k < hits.len() ==> approx_days_fits(#[trigger] hits[k]),
                forall|k: int|
                    0 <= k < hits.len() ==> (#[trigger] approx_days(hits[k]) matches Some(h) ==> (
                    i64::MIN < movie_days - h <= i64::MAX)),
                i <= big_hit_dates@.len(),
                forall|k: int| 0 <= k < i ==> !near(movie_days as int, #[trigger] hits[k]),
            decreases big_hit_dates.len() - i,
        {
            assert(hits[i as int] == big_hit_dates@[i as int]@);
            assert(approx_days_fits(hits[i as int]));
            match date_to_approx_days(big_hit_dates[i].as_str()) {
                Some(h) => {
                    assert(approx_days(hits[i as int]) == Some(h as int));
                    let diff = movie_days - h;
                    let dist = if diff < 0 {
                        assert(diff > i64::MIN);
                        -diff
                    } else {
                        diff
                    };
                    if dist <= window {
                        assert(near(movie_days as int, hits[i as int]));
                        assert(d@.len() > 0);
                        assert(exists|k: int|
                            0 <= k < hits.len() && near(movie_days as int, #[trigger] hits[k]));
                        return true;
                    }
                },
                None => {},
            }
            i = i + 1;
        }
        false
    }

    /// Whether a genre list mentions a genre name (a substring test, as the
    /// genre-boost table is matched).
    pub fn genre_mentions(&self, genre: &str, name: &str) -> (r: bool)
        ensures
            r == contains_seq(genre@, name@),
    {
        let g = chars_of(genre);
        let n = chars_of(name);
        contains_chars(g.as_slice(), n.as_slice())
    }
}

/// More blockbuster dates can only add shadows: a film obscured by some
/// list stays obscured when further dates are added.
pub proof fn lemma_obscured_monotone(
    release_date: Option<Seq<char>>,
    hits: Seq<Seq<char>>,
    more: Seq<Seq<char>>,
)
    requires
        obscured(release_date, hits),
    ensures
        obscured(release_date, hits + more),
{
    let d = release_date->0;
    let m = approx_days(d)->0;
    let i = choose|i: int| 0 <= i < hits.len() && near(m, #[trigger] hits[i]);
    assert((hits + more)[i] == hits[i]);
}

/// The critic gate refuses only a film whose critic score is known and
/// below `MIN_RT_CRITIC_SCORE`: without a critic score the gates are the
/// vote floor (either vote count at least `MIN_IMDB_VOTES`) and the minimum
/// age (when the year is known) alone, and a known score changes the
/// verdict only by requiring it to reach the minimum.
pub proof fn lemma_critic_gate(
    imdb_votes: Option<i64>,
    tmdb_votes: Option<i64>,
    year: Option<i32>,
    rt: i32,
    current_year: i32,
)
    ensures
        passes_gates(imdb_votes, tmdb_votes, year, None, current_year) == ({
            &&& ((imdb_votes matches Some(v) && v >= MIN_IMDB_VOTES) || (tmdb_votes matches Some(
                v,
            ) && v >= MIN_IMDB_VOTES))
            &&& (year matches Some(y) ==> current_year - y >= MIN_GEM_AGE_YEARS)
        }),
        passes_gates(imdb_votes, tmdb_votes, year, Some(rt), current_year) == (passes_gates(
            imdb_votes,
            tmdb_votes,
            year,
            None,
            current_year,
        ) && rt >= MIN_RT_CRITIC_SCORE),
{
}

} // verus!
