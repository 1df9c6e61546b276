//! Reading the ratings service's answer about one film: whether it answered
//! at all, the IMDb vote count, the Rotten Tomatoes score, and whether the
//! answer brings anything new to store.

use vstd::prelude::*;
use crate::text::{strip_commas, chars_of, has_suffix, parse_i32, parse_i32_spec, parse_i64, parse_i64_spec, push_str, str_eq};

verus! {

/// The ratings service's root.
pub open spec fn omdb_root() -> Seq<char> {
    "https://www.omdbapi.com"@
}

/// The ratings service's root.
pub fn omdb_base() -> (r: String)
    ensures
        r@ == omdb_root(),
{
    "https://www.omdbapi.com".to_string()
}

/// The request for one film by its IMDb id.
pub open spec fn omdb_url_spec(base: Seq<char>, key: Seq<char>, imdb_id: Seq<char>) -> Seq<char> {
    base + "/?apikey="@ + key + "&i="@ + imdb_id
}

/// The URL of the request for one film.
pub fn omdb_url(base: &str, key: &str, imdb_id: &str) -> (r: String)
    ensures
        r@ == omdb_url_spec(base@, key@, imdb_id@),
{
    let mut u = String::new();
    push_str(&mut u, base);
    push_str(&mut u, "/?apikey=");
    push_str(&mut u, key);
    push_str(&mut u, "&i=");
    push_str(&mut u, imdb_id);
    u
}

/// Whether the service answered with data: its `Response` field is `True`.
pub fn response_ok(response: Option<&str>) -> (r: bool)
    ensures
        r == (match response {
            Some(s) => s@ == "True"@,
            None => false,
        }),
{
    match response {
        Some(s) => str_eq(s, "True"),
        None => false,
    }
}

/// The vote count in a text such as `123,456`: read without its commas,
/// kept only when positive.
pub open spec fn vote_count_spec(votes: Option<Seq<char>>) -> Option<int> {
    match votes {
        Some(v) => match parse_i64_spec(strip_commas(v)) {
            Some(n) => if n > 0 {
                Some(n)
            } else {
                None
            },
            None => None,
        },
        None => None,
    }
}

/// The IMDb vote count of an answer.
pub fn parse_vote_count(votes: Option<&str>) -> (r: Option<i64>)
    ensures
        match r {
            Some(n) => vote_count_spec(
                match votes {
                    Some(v) => Some(v@),
                    None => None,
                },
            ) == Some(n as int),
            None => vote_count_spec(
                match votes {
                    Some(v) => Some(v@),
                    None => None,
                },
            ) is None,
        },
{
    match votes {
        None => None,
        Some(v) => {
            let cs = chars_of(v);
            let mut kept: Vec<char> = Vec::new();
            let mut i: usize = 0;
            while i < cs.len()
                invariant
                    i <= cs@.len(),
                    kept@ == strip_commas(cs@.subrange(0, i as int)),
                decreases cs.len() - i,
            {
                assert(cs@.subrange(0, i + 1).drop_last() == cs@.subrange(0, i as int));
                if cs[i] != ',' {
                    kept.push(cs[i]);
                }
                i = i + 1;
            }
            assert(cs@.subrange(0, i as int) == cs@);
            match parse_i64(kept.as_slice()) {
                Some(n) => if n > 0 {
                    Some(n)
                } else {
                    None
                },
                None => None,
            }
        },
    }
}

/// One entry of an answer's ratings list.
#[derive(Clone, Debug)]
pub struct OmdbRating {
    /// Who rated, such as `Rotten Tomatoes`.
    pub source: Option<String>,
    /// The rating as text, such as `85%`.
    pub value: Option<String>,
}

/// A text field, empty when absent.
pub open spec fn text_or_empty(v: Option<String>) -> Seq<char> {
    match v {
        Some(s) => s@,
        None => Seq::empty(),
    }
}

/// Source and value of each rating.
pub open spec fn rating_views(rs: Seq<OmdbRating>) -> Seq<(Seq<char>, Seq<char>)> {
    Seq::new(rs.len(), |i: int| (text_or_empty(rs[i].source), text_or_empty(rs[i].value)))
}

/// The percentage in a value such as `85%`.
pub open spec fn percent_value(value: Seq<char>) -> Option<int> {
    if has_suffix(value, "%"@) {
        parse_i32_spec(value.drop_last())
    } else {
        None
    }
}

/// The Rotten Tomatoes score: the last Rotten Tomatoes entry whose value
/// reads as a percentage.
pub open spec fn rt_score_spec(rs: Seq<(Seq<char>, Seq<char>)>) -> Option<int>
    decreases rs.len(),
{
    if rs.len() == 0 {
        None
    } else if rs.last().0 == "Rotten Tomatoes"@ && percent_value(rs.last().1) is Some {
        percent_value(rs.last().1)
    } else {
        rt_score_spec(rs.drop_last())
    }
}

fn percent_of(value: &str) -> (r: Option<i32>)
    ensures
        match r {
            Some(p) => percent_value(value@) == Some(p as int),
            None => percent_value(value@) is None,
        },
{
    let cs = chars_of(value);
    proof {
        reveal_strlit("%");
    }
    let n = cs.len();
    if n > 0 && cs[n - 1] == '%' {
        assert(has_suffix(cs@, "%"@)) by {
            assert(cs@.subrange(n - 1, n as int) =~= "%"@);
        }
        let digits = crate::text::slice_chars(cs.as_slice(), 0, n - 1);
        assert(digits@ == cs@.drop_last());
        parse_i32(digits.as_slice())
    } else {
        assert(!has_suffix(cs@, "%"@)) by {
            if has_suffix(cs@, "%"@) {
                assert(cs@.subrange(n - 1, n as int)[0] == "%"@[0]);
            }
        }
        None
    }
}

/// The Rotten Tomatoes score of an answer's ratings list.
pub fn rt_score(ratings: &Vec<OmdbRating>) -> (r: Option<i32>)
    ensures
        match r {
            Some(p) => rt_score_spec(rating_views(ratings@)) == Some(p as int),
            None => rt_score_spec(rating_views(ratings@)) is None,
        },
{
    let ghost all = rating_views(ratings@);
    let mut found: Option<i32> = None;
    let mut i: usize = 0;
    while i < ratings.len()
        invariant
            i <= ratings@.len(),
            all == rating_views(ratings@),
            match found {
                Some(p) => rt_score_spec(all.subrange(0, i as int)) == Some(p as int),
                None => rt_score_spec(all.subrange(0, i as int)) is None,
            },
        decreases ratings.len() - i,
    {
        let ghost pre = all.subrange(0, i as int);
        let ghost next = all.subrange(0, i + 1);
        assert(next.drop_last() == pre);
        assert(next.last() == all[i as int]);
        let source: &str = match &ratings[i].source {
            Some(s) => s.as_str(),
            None => "",
        };
        let value: &str = match &ratings[i].value {
            Some(s) => s.as_str(),
            None => "",
        };
        proof {
            reveal_strlit("");
        }
        assert(source@ == all[i as int].0);
        assert(value@ == all[i as int].1);
        if str_eq(source, "Rotten Tomatoes") {
            match percent_of(value) {
                Some(p) => {
                    found = Some(p);
                },
                None => {},
            }
        }
        i = i + 1;
    }
    assert(all.subrange(0, i as int) == all);
    found
}

/// The critic and audience scores of an answer. The service gives a single
/// Rotten Tomatoes score, stored as the critic score; the audience score is
/// always absent.
pub fn extract_rt_scores(ratings: Option<&Vec<OmdbRating>>) -> (r: (Option<i32>, Option<i32>))
    ensures
        r.1 is None,
        match ratings {
            None => r.0 is None,
            Some(rs) => match r.0 {
                Some(p) => rt_score_spec(rating_views(rs@)) == Some(p as int),
                None => rt_score_spec(rating_views(rs@)) is None,
            },
        },
{
    match ratings {
        None => (None, None),
        Some(rs) => (rt_score(rs), None),
    }
}

/// What becomes of an answer.
#[derive(Clone, Copy, Debug, PartialEq, Eq, Structural)]
pub enum EnrichOutcome {
    /// The service had no data for the film: counted as an error.
    Rejected,
    /// The answer holds nothing to store.
    NoNewData,
    /// Store what the answer holds.
    Update,
}

/// An answer is rejected unless the service said it has data; it updates
/// the film when at least one of rating, vote count, critic or audience
/// score is present.
pub open spec fn enrich_outcome_spec(
    ok: bool,
    has_rating: bool,
    votes: Option<i64>,
    critic: Option<i32>,
    audience: Option<i32>,
) -> EnrichOutcome {
    if !ok {
        EnrichOutcome::Rejected
    } else if !has_rating && votes is None && critic is None && audience is None {
        EnrichOutcome::NoNewData
    } else {
        EnrichOutcome::Update
    }
}

/// What becomes of an answer, given what was read from it.
pub fn enrich_outcome(
    ok: bool,
    has_rating: bool,
    votes: Option<i64>,
    critic: Option<i32>,
    audience: Option<i32>,
) -> (r: EnrichOutcome)
    ensures
        r == enrich_outcome_spec(ok, has_rating, votes, critic, audience),
{
    if !ok {
        EnrichOutcome::Rejected
    } else if !has_rating && votes.is_none() && critic.is_none() && audience.is_none() {
        EnrichOutcome::NoNewData
    } else {
        EnrichOutcome::Update
    }
}

} // verus!
