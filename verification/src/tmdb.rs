//! The catalogue service's side of a sync: the request URLs (which endpoint,
//! which filters), and how a film record is read from its answers (release
//! year, director, genre and keyword lists, poster URL).

use vstd::prelude::*;
use crate::text::{
    chars_of, int_text, join_strings, joined, parse_i32, parse_i32_spec, push_i64, push_str,
    split_chars, split_seq, str_eq, string_views, lemma_split_nonempty,
};

verus! {

/// The catalogue service's API root.
pub open spec fn tmdb_api_root() -> Seq<char> {
    "https://api.themoviedb.org/3"@
}

/// The catalogue service's API root.
pub fn tmdb_api_base() -> (r: String)
    ensures
        r@ == tmdb_api_root(),
{
    "https://api.themoviedb.org/3".to_string()
}

// ─────────────────────────── request URLs ───────────────────────────

/// `/configuration`, which tells where images are served from.
pub open spec fn configuration_url_spec(base: Seq<char>, key: Seq<char>) -> Seq<char> {
    base + "/configuration?api_key="@ + key
}

/// The URL of the configuration request.
pub fn configuration_url(base: &str, key: &str) -> (r: String)
    ensures
        r@ == configuration_url_spec(base@, key@),
{
    let mut u = String::new();
    push_str(&mut u, base);
    push_str(&mut u, "/configuration?api_key=");
    push_str(&mut u, key);
    u
}

/// Gem candidates released from `start` to `end` (whole years), rated
/// 6.0 to 8.0 with at least 500 votes, most voted first.
pub open spec fn gem_discover_url_spec(
    base: Seq<char>,
    key: Seq<char>,
    start: int,
    end: int,
    page: int,
) -> Seq<char> {
    base + "/discover/movie?api_key="@ + key + "&primary_release_date.gte="@ + int_text(start)
        + "-01-01&primary_release_date.lte="@ + int_text(end)
        + "-12-31&vote_average.gte=6.0&vote_average.lte=8.0&vote_count.gte=500&sort_by=vote_count.desc&page="@
        + int_text(page)
}

/// The URL of one page of gem candidates.
pub fn gem_discover_url(base: &str, key: &str, start: i32, end: i32, page: i32) -> (r: String)
    ensures
        r@ == gem_discover_url_spec(base@, key@, start as int, end as int, page as int),
{
    let mut u = String::new();
    push_str(&mut u, base);
    push_str(&mut u, "/discover/movie?api_key=");
    push_str(&mut u, key);
    push_str(&mut u, "&primary_release_date.gte=");
    push_i64(&mut u, start as i64);
    push_str(&mut u, "-01-01&primary_release_date.lte=");
    push_i64(&mut u, end as i64);
    push_str(
        &mut u,
        "-12-31&vote_average.gte=6.0&vote_average.lte=8.0&vote_count.gte=500&sort_by=vote_count.desc&page=",
    );
    push_i64(&mut u, page as i64);
    u
}

/// The most-voted films of all, which stand for the blockbusters.
pub open spec fn blockbuster_discover_url_spec(base: Seq<char>, key: Seq<char>, page: int) -> Seq<
    char,
> {
    base + "/discover/movie?api_key="@ + key + "&sort_by=vote_count.desc&page="@ + int_text(page)
}

/// The URL of one page of blockbusters.
pub fn blockbuster_discover_url(base: &str, key: &str, page: i32) -> (r: String)
    ensures
        r@ == blockbuster_discover_url_spec(base@, key@, page as int),
{
    let mut u = String::new();
    push_str(&mut u, base);
    push_str(&mut u, "/discover/movie?api_key=");
    push_str(&mut u, key);
    push_str(&mut u, "&sort_by=vote_count.desc&page=");
    push_i64(&mut u, page as i64);
    u
}

/// Acclaimed candidates: rated at least 7.5 with at least 10000 votes, best
/// rated first.
pub open spec fn acclaimed_discover_url_spec(base: Seq<char>, key: Seq<char>, page: int) -> Seq<
    char,
> {
    base + "/discover/movie?api_key="@ + key
        + "&vote_average.gte=7.5&vote_count.gte=10000&sort_by=vote_average.desc&page="@
        + int_text(page)
}

/// The URL of one page of acclaimed candidates.
pub fn acclaimed_discover_url(base: &str, key: &str, page: i32) -> (r: String)
    ensures
        r@ == acclaimed_discover_url_spec(base@, key@, page as int),
{
    let mut u = String::new();
    push_str(&mut u, base);
    push_str(&mut u, "/discover/movie?api_key=");
    push_str(&mut u, key);
    push_str(&mut u, "&vote_average.gte=7.5&vote_count.gte=10000&sort_by=vote_average.desc&page=");
    push_i64(&mut u, page as i64);
    u
}

/// The lookup of a film by its IMDb id.
pub open spec fn find_url_spec(base: Seq<char>, imdb_id: Seq<char>, key: Seq<char>) -> Seq<char> {
    base + "/find/"@ + imdb_id + "?api_key="@ + key + "&external_source=imdb_id"@
}

/// The URL of the lookup of a film by its IMDb id.
pub fn find_url(base: &str, imdb_id: &str, key: &str) -> (r: String)
    ensures
        r@ == find_url_spec(base@, imdb_id@, key@),
{
    let mut u = String::new();
    push_str(&mut u, base);
    push_str(&mut u, "/find/");
    push_str(&mut u, imdb_id);
    push_str(&mut u, "?api_key=");
    push_str(&mut u, key);
    push_str(&mut u, "&external_source=imdb_id");
    u
}

/// A title with every space written as `+`.
pub open spec fn plus_for_spaces(s: Seq<char>) -> Seq<char> {
    Seq::new(s.len(), |i: int| if s[i] == ' ' { '+' } else { s[i] })
}

/// The title search, by title and release year, without adult titles.
pub open spec fn search_url_spec(base: Seq<char>, key: Seq<char>, title: Seq<char>, year: int) -> Seq<
    char,
> {
    base + "/search/movie?api_key="@ + key + "&query="@ + plus_for_spaces(title) + "&year="@
        + int_text(year) + "&include_adult=false"@
}

/// The URL of the title search.
pub fn search_url(base: &str, key: &str, title: &str, year: i32) -> (r: String)
    ensures
        r@ == search_url_spec(base@, key@, title@, year as int),
{
    let mut u = String::new();
    push_str(&mut u, base);
    push_str(&mut u, "/search/movie?api_key=");
    push_str(&mut u, key);
    push_str(&mut u, "&query=");
    let cs = chars_of(title);
    let mut enc: Vec<char> = Vec::new();
    let mut i: usize = 0;
    while i < cs.len()
        invariant
            i <= cs@.len(),
            enc@ == plus_for_spaces(cs@).subrange(0, i as int),
        decreases cs.len() - i,
    {
        if cs[i] == ' ' {
            enc.push('+');
        } else {
            enc.push(cs[i]);
        }
        i = i + 1;
    }
    assert(plus_for_spaces(cs@).subrange(0, i as int) == plus_for_spaces(cs@));
    crate::text::push_chars(&mut u, enc.as_slice());
    push_str(&mut u, "&year=");
    push_i64(&mut u, year as i64);
    push_str(&mut u, "&include_adult=false");
    u
}

/// A film's detail (`part` empty), credits (`/credits`) or keywords
/// (`/keywords`).
pub open spec fn movie_url_spec(base: Seq<char>, tmdb_id: int, part: Seq<char>, key: Seq<char>) -> Seq<
    char,
> {
    base + "/movie/"@ + int_text(tmdb_id) + part + "?api_key="@ + key
}

/// The URL of a film's detail, credits or keywords.
pub fn movie_url(base: &str, tmdb_id: i64, part: &str, key: &str) -> (r: String)
    ensures
        r@ == movie_url_spec(base@, tmdb_id as int, part@, key@),
{
    let mut u = String::new();
    push_str(&mut u, base);
    push_str(&mut u, "/movie/");
    push_i64(&mut u, tmdb_id);
    push_str(&mut u, part);
    push_str(&mut u, "?api_key=");
    push_str(&mut u, key);
    u
}

/// The URL of a film's streaming availability per region.
pub fn watch_providers_url(base: &str, tmdb_id: i64, key: &str) -> (r: String)
    ensures
        r@ == movie_url_spec(base@, tmdb_id as int, "/watch/providers"@, key@),
{
    movie_url(base, tmdb_id, "/watch/providers", key)
}

// ─────────────────────────── reading answers ───────────────────────────

/// The year a release date starts with: the text before the first `-`,
/// read as an `i32`.
pub open spec fn release_year_spec(date: Option<Seq<char>>) -> Option<int> {
    match date {
        Some(d) => parse_i32_spec(split_seq(d, '-')[0]),
        None => None,
    }
}

/// The year a release date starts with.
pub fn release_year(date: Option<&str>) -> (r: Option<i32>)
    ensures
        match r {
            Some(y) => release_year_spec(
                match date {
                    Some(d) => Some(d@),
                    None => None,
                },
            ) == Some(y as int),
            None => release_year_spec(
                match date {
                    Some(d) => Some(d@),
                    None => None,
                },
            ) is None,
        },
{
    match date {
        Some(d) => {
            let cs = chars_of(d);
            let pieces = split_chars(cs.as_slice(), '-');
            assert(pieces@[0]@ == crate::text::views(pieces@)[0]);
            parse_i32(pieces[0].as_slice())
        },
        None => None,
    }
}

/// The year recorded with a blockbuster: its release year, or 0 if unknown.
pub fn blockbuster_year(date: Option<&str>) -> (r: i32)
    ensures
        r == match release_year_spec(
            match date {
                Some(d) => Some(d@),
                None => None,
            },
        ) {
            Some(y) => y,
            None => 0,
        },
{
    match release_year(date) {
        Some(y) => y,
        None => 0,
    }
}

/// The year stored with a blockbuster's film record: only a positive one.
pub fn stub_year(year: i32) -> (r: Option<i32>)
    ensures
        r == (if year > 0 {
            Some(year)
        } else {
            None::<i32>
        }),
{
    if year > 0 {
        Some(year)
    } else {
        None
    }
}

/// A member of a film's crew.
#[derive(Clone, Debug)]
pub struct CrewMember {
    /// The job, such as `Director`.
    pub job: String,
    pub name: String,
}

/// Jobs and names of a crew.
pub open spec fn crew_views(crew: Seq<CrewMember>) -> Seq<(Seq<char>, Seq<char>)> {
    Seq::new(crew.len(), |i: int| (crew[i].job@, crew[i].name@))
}

/// The name of the first crew member whose job is `Director`.
pub open spec fn first_director(crew: Seq<(Seq<char>, Seq<char>)>) -> Option<Seq<char>>
    decreases crew.len(),
{
    if crew.len() == 0 {
        None
    } else if crew[0].0 == "Director"@ {
        Some(crew[0].1)
    } else {
        first_director(crew.drop_first())
    }
}

/// The film's director: the first crew member whose job is `Director`.
pub fn director_of(crew: &Vec<CrewMember>) -> (r: Option<String>)
    ensures
        match r {
            Some(n) => first_director(crew_views(crew@)) == Some(n@),
            None => first_director(crew_views(crew@)) is None,
        },
{
    let ghost all = crew_views(crew@);
    assert(all.subrange(0, all.len() as int) == all);
    let mut i: usize = 0;
    while i < crew.len()
        invariant
            i <= crew@.len(),
            all == crew_views(crew@),
            first_director(all) == first_director(all.subrange(i as int, all.len() as int)),
        decreases crew.len() - i,
    {
        let ghost rest = all.subrange(i as int, all.len() as int);
        assert(rest.drop_first() == all.subrange(i + 1, all.len() as int));
        assert(rest[0] == (crew@[i as int].job@, crew@[i as int].name@));
        if str_eq(crew[i].job.as_str(), "Director") {
            return Some(crew[i].name.clone());
        }
        i = i + 1;
    }
    None
}

/// Names joined with `, `, as genre and keyword lists are stored.
pub open spec fn name_list(names: Seq<Seq<char>>) -> Seq<char> {
    joined(names, ", "@)
}

/// Names joined with `, `.
pub fn join_names(names: &Vec<String>) -> (r: String)
    ensures
        r@ == name_list(string_views(names@)),
{
    join_strings(names, ", ")
}

/// The stored keyword list: the joined names, or nothing when that is empty.
pub fn keywords_field(names: &Vec<String>) -> (r: Option<String>)
    ensures
        match r {
            Some(k) => k@ == name_list(string_views(names@)) && k@.len() > 0,
            None => name_list(string_views(names@)).len() == 0,
        },
{
    let k = join_names(names);
    if k.as_str().unicode_len() == 0 {
        None
    } else {
        Some(k)
    }
}

/// Where posters are served from: the secure image root with the 500-pixel
/// size.
pub fn image_base_url(secure_base_url: &str) -> (r: String)
    ensures
        r@ == secure_base_url@ + "w500"@,
{
    let mut u = String::new();
    push_str(&mut u, secure_base_url);
    push_str(&mut u, "w500");
    u
}

/// A film's poster URL: the image root followed by the poster path, when
/// both are known.
pub fn poster_url(image_base: Option<&str>, poster_path: Option<&str>) -> (r: Option<String>)
    ensures
        match (image_base, poster_path) {
            (Some(b), Some(p)) => r matches Some(u) && u@ == b@ + p@,
            _ => r is None,
        },
{
    match (image_base, poster_path) {
        (Some(b), Some(p)) => {
            let mut u = String::new();
            push_str(&mut u, b);
            push_str(&mut u, p);
            Some(u)
        },
        _ => None,
    }
}

} // verus!
