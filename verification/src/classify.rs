//! Which scored films are listed where: the acclaimed list (critic-certified
//! or audience-canonized classics, franchise entries left out), the
//! wildcards (films critics rejected), and the hidden gems (the rest).

use vstd::prelude::*;
use crate::text::{chars_of, contains_chars, contains_seq};

verus! {

/// Critic score from which an excellent film counts as critic-certified.
pub const ACCLAIMED_MIN_RT: i32 = 80;

/// Years after release from which a film can count as canonized by its audience.
pub const CANON_MIN_AGE_YEARS: i32 = 20;

/// Votes from which an old excellent film counts as canonized by its audience.
pub const CANON_MIN_VOTES: i64 = 1000000;

/// Critic scores below this mark a scored film as a wildcard.
pub const WILDCARD_RT_BELOW: i32 = 50;

/// `s` with ASCII capitals made small (how the store's `LIKE` compares).
pub open spec fn ascii_lower(s: Seq<char>) -> Seq<char> {
    Seq::new(
        s.len(),
        |i: int|
            if 'A' <= s[i] && s[i] <= 'Z' {
                ((s[i] as u32) + 32) as char
            } else {
                s[i]
            },
    )
}

fn ascii_lower_exec(s: &str) -> (r: Vec<char>)
    ensures
        r@ == ascii_lower(s@),
{
    let cs = chars_of(s);
    let mut out: Vec<char> = Vec::new();
    let mut i: usize = 0;
    while i < cs.len()
        invariant
            i <= cs@.len(),
            out@ == ascii_lower(cs@).subrange(0, i as int),
        decreases cs.len() - i,
    {
        let c = cs[i];
        if 'A' <= c && c <= 'Z' {
            out.push(((c as u32) + 32) as u8 as char);
        } else {
            out.push(c);
        }
        i = i + 1;
    }
    assert(ascii_lower(cs@).subrange(0, i as int) == ascii_lower(cs@));
    out
}

/// Whether the keywords mark a film of a franchise kept out of the
/// acclaimed list: the Marvel cinematic universe (`mcu`, `avengers`),
/// Spider-Man except the Spider-Verse films, Deadpool, and the big
/// animation studios. Letters compare without regard to ASCII case; no
/// keywords means no franchise.
pub open spec fn franchise_spec(keywords: Option<Seq<char>>) -> bool {
    match keywords {
        None => false,
        Some(k) => {
            let l = ascii_lower(k);
            ||| contains_seq(l, "marvel cinematic universe"@)
            ||| contains_seq(l, "mcu"@)
            ||| contains_seq(l, "avengers"@)
            ||| (contains_seq(l, "spider-man"@) && !contains_seq(l, "spider-verse"@))
            ||| contains_seq(l, "deadpool"@)
            ||| contains_seq(l, "walt disney animation"@)
            ||| contains_seq(l, "dreamworks animation"@)
        },
    }
}

fn mentions(l: &Vec<char>, needle: &str) -> (r: bool)
    ensures
        r == contains_seq(l@, needle@),
{
    let n = chars_of(needle);
    contains_chars(l.as_slice(), n.as_slice())
}

/// Whether a film's keywords keep it out of the acclaimed list.
pub fn franchise_excluded(keywords: Option<&str>) -> (r: bool)
    ensures
        r == franchise_spec(
            match keywords {
                Some(k) => Some(k@),
                None => None,
            },
        ),
{
    match keywords {
        None => false,
        Some(k) => {
            let l = ascii_lower_exec(k);
            let spider = mentions(&l, "spider-man") && !mentions(&l, "spider-verse");
            mentions(&l, "marvel cinematic universe") || mentions(&l, "mcu") || mentions(&l, "avengers")
                || spider || mentions(&l, "deadpool") || mentions(&l, "walt disney animation")
                || mentions(&l, "dreamworks animation")
        },
    }
}

/// Whether critics certified a film: a critic score of at least `ACCLAIMED_MIN_RT`.
pub open spec fn critic_certified(rt: Option<i32>) -> bool {
    match rt {
        Some(r) => r >= ACCLAIMED_MIN_RT,
        None => false,
    }
}

/// Whether a film's audience canonized it: released at least
/// `CANON_MIN_AGE_YEARS` years ago, with at least `CANON_MIN_VOTES` votes.
pub open spec fn audience_canonized(year: Option<i32>, votes: Option<i64>, current_year: i32) -> bool {
    match (year, votes) {
        (Some(y), Some(v)) => current_year - y >= CANON_MIN_AGE_YEARS && v >= CANON_MIN_VOTES,
        _ => false,
    }
}

/// Whether a film belongs on the acclaimed list. `imdb_excellent` tells
/// whether its IMDb rating is at least 8.0. It must then be certified by
/// critics (score at least `ACCLAIMED_MIN_RT`) or canonized by its audience
/// (released at least `CANON_MIN_AGE_YEARS` years ago with at least
/// `CANON_MIN_VOTES` votes), and not be a franchise entry.
pub open spec fn acclaimed_spec(
    imdb_excellent: bool,
    rt: Option<i32>,
    year: Option<i32>,
    votes: Option<i64>,
    keywords: Option<Seq<char>>,
    current_year: i32,
) -> bool {
    &&& imdb_excellent
    &&& (critic_certified(rt) || audience_canonized(year, votes, current_year))
    &&& !franchise_spec(keywords)
}

/// Whether a film belongs on the acclaimed list.
pub fn is_acclaimed(
    imdb_excellent: bool,
    rt: Option<i32>,
    year: Option<i32>,
    votes: Option<i64>,
    keywords: Option<&str>,
    current_year: i32,
) -> (r: bool)
    ensures
        r == acclaimed_spec(
            imdb_excellent,
            rt,
            year,
            votes,
            match keywords {
                Some(k) => Some(k@),
                None => None,
            },
            current_year,
        ),
{
    if !imdb_excellent {
        return false;
    }
    let critic = match rt {
        Some(r) => r >= ACCLAIMED_MIN_RT,
        None => false,
    };
    let canon = match (year, votes) {
        (Some(y), Some(v)) => (current_year as i64) - (y as i64) >= CANON_MIN_AGE_YEARS as i64 && v
            >= CANON_MIN_VOTES,
        _ => false,
    };
    (critic || canon) && !franchise_excluded(keywords)
}

/// Whether a scored film is a wildcard: critics scored it below
/// `WILDCARD_RT_BELOW`.
pub open spec fn wildcard_spec(scored: bool, rt: Option<i32>) -> bool {
    scored && match rt {
        Some(r) => r < WILDCARD_RT_BELOW,
        None => false,
    }
}

/// Whether a film is a wildcard.
pub fn is_wildcard(scored: bool, rt: Option<i32>) -> (r: bool)
    ensures
        r == wildcard_spec(scored, rt),
{
    match rt {
        Some(r) => scored && r < WILDCARD_RT_BELOW,
        None => false,
    }
}

/// Whether a film is listed among the hidden gems: scored, and without a
/// critic score below `WILDCARD_RT_BELOW` (no critic score gets the benefit
/// of the doubt).
pub open spec fn gem_listed_spec(scored: bool, rt: Option<i32>) -> bool {
    scored && match rt {
        Some(r) => r >= WILDCARD_RT_BELOW,
        None => true,
    }
}

/// Whether a film is listed among the hidden gems.
pub fn is_listed_gem(scored: bool, rt: Option<i32>) -> (r: bool)
    ensures
        r == gem_listed_spec(scored, rt),
{
    scored && match rt {
        Some(r) => r >= WILDCARD_RT_BELOW,
        None => true,
    }
}

/// Every scored film is listed in exactly one of the hidden gems and the
/// wildcards; an unscored film in neither.
pub proof fn lemma_gems_and_wildcards_partition(scored: bool, rt: Option<i32>)
    ensures
        scored ==> (gem_listed_spec(scored, rt) != wildcard_spec(scored, rt)),
        !scored ==> !gem_listed_spec(scored, rt) && !wildcard_spec(scored, rt),
{
}

/// Classifying again changes nothing: the acclaimed verdict depends only on
/// the film's own data and the year, so a film that qualified stays
/// (the removal of stale entries uses the same rule as the insertion).
pub proof fn lemma_acclaimed_stable(
    imdb_excellent: bool,
    rt: Option<i32>,
    year: Option<i32>,
    votes: Option<i64>,
    keywords: Option<Seq<char>>,
    current_year: i32,
)
    requires
        acclaimed_spec(imdb_excellent, rt, year, votes, keywords, current_year),
    ensures
        imdb_excellent,
        !franchise_spec(keywords),
        forall|later: i32|
            later >= current_year ==> #[trigger] acclaimed_spec(
                imdb_excellent,
                rt,
                year,
                votes,
                keywords,
                later,
            ),
{
}

/// Whether `needle` occurs in `hay` once ASCII capitals are made small.
pub open spec fn mentions_ci(hay: Seq<char>, needle: Seq<char>) -> bool {
    contains_seq(ascii_lower(hay), needle)
}

/// The franchises kept out of the acclaimed list: keywords that mention
/// (ignoring ASCII case) the Marvel cinematic universe, `mcu`, `avengers`,
/// `deadpool`, Walt Disney Animation or DreamWorks Animation, or Spider-Man
/// outside the Spider-Verse films, exclude a film, and such a film is never
/// acclaimed, whatever its ratings; keywords that mention none of them, or
/// no keywords at all, exclude nothing.
pub proof fn lemma_franchise_markers(
    k: Seq<char>,
    imdb_excellent: bool,
    rt: Option<i32>,
    year: Option<i32>,
    votes: Option<i64>,
    current_year: i32,
)
    ensures
        ({
            let marked = mentions_ci(k, "marvel cinematic universe"@) || mentions_ci(k, "mcu"@)
                || mentions_ci(k, "avengers"@) || mentions_ci(k, "deadpool"@) || mentions_ci(
                k,
                "walt disney animation"@,
            ) || mentions_ci(k, "dreamworks animation"@) || (mentions_ci(k, "spider-man"@)
                && !mentions_ci(k, "spider-verse"@));
            &&& franchise_spec(Some(k)) == marked
            &&& marked ==> !acclaimed_spec(imdb_excellent, rt, year, votes, Some(k), current_year)
        }),
        !franchise_spec(None),
{
}

/// Walt Disney Animation films are kept out of the acclaimed list: keywords
/// mentioning it in any ASCII case exclude the film.
pub proof fn lemma_disney_animation_excluded(
    k: Seq<char>,
    imdb_excellent: bool,
    rt: Option<i32>,
    year: Option<i32>,
    votes: Option<i64>,
    current_year: i32,
)
    requires
        contains_seq(ascii_lower(k), "walt disney animation"@),
    ensures
        franchise_spec(Some(k)),
        !acclaimed_spec(imdb_excellent, rt, year, votes, Some(k), current_year),
{
}

/// Letter case does not matter to the franchise check: keywords and their
/// ASCII lower-case form are excluded alike.
pub proof fn lemma_franchise_ignores_case(k: Seq<char>)
    ensures
        franchise_spec(Some(k)) == franchise_spec(Some(ascii_lower(k))),
{
    assert(ascii_lower(ascii_lower(k)) =~= ascii_lower(k));
}

} // verus!
