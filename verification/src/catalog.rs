//! Filtering and paging of the cached movie lists (hidden gems, acclaimed
//! films, wildcards): era, genre/keyword and title filters, then one page.

use vstd::prelude::*;
use crate::text::{
    chars_of, contains_chars, contains_seq, lowercase, split_chars, split_seq, string_of,
    owned, str_eq, string_views, to_lowercase, trim_chars, trim_seq, views,
};
use crate::auth::{first_of, lemma_first_of};

verus! {

/// What the list filters read of a movie.
#[derive(Clone, Debug)]
pub struct ListEntry {
    pub title: String,
    pub year: Option<i32>,
    pub genre: Option<String>,
    pub keywords: Option<String>,
}

/// A list request: page and page size, plus the optional filters
/// (minimum year, comma-separated genres, title search).
#[derive(Clone, Debug)]
pub struct ListQuery {
    pub page: Option<i32>,
    pub per_page: Option<i32>,
    pub min_year: Option<i32>,
    pub genres: Option<String>,
    pub q: Option<String>,
}

/// One page of a filtered list: positions (in the full list) of the entries
/// shown, how many entries matched in all, and the page actually served.
#[derive(Clone, Debug)]
pub struct ListPage {
    pub indices: Vec<usize>,
    pub total: i64,
    pub page: i32,
    pub per_page: i32,
}

/// The page served for a requested one: at least 1, page 1 by default.
pub open spec fn page_num(p: Option<i32>) -> int {
    match p {
        Some(p) => if p < 1 {
            1
        } else {
            p as int
        },
        None => 1,
    }
}

/// The page size served for a requested one: clamped to 1..=100, 20 by
/// default.
pub open spec fn page_size(p: Option<i32>) -> int {
    match p {
        Some(p) => if p < 1 {
            1
        } else if p > 100 {
            100
        } else {
            p as int
        },
        None => 20,
    }
}

/// The page served: the requested one, at least 1, page 1 by default.
pub open spec fn page_of(q: ListQuery) -> int {
    page_num(q.page)
}

/// The page size served: the requested one clamped to 1..=100, 20 by default.
pub open spec fn per_page_of(q: ListQuery) -> int {
    page_size(q.per_page)
}

/// Position in the filtered list where the served page starts.
pub open spec fn start_of(q: ListQuery) -> int {
    (page_of(q) - 1) * per_page_of(q)
}

/// The lower-cased, trimmed non-empty pieces of a comma-separated genre list.
pub open spec fn lowered_pieces(pieces: Seq<Seq<char>>) -> Seq<Seq<char>>
    decreases pieces.len(),
{
    if pieces.len() == 0 {
        Seq::empty()
    } else {
        let prev = lowered_pieces(pieces.drop_last());
        if pieces.last().len() > 0 {
            prev.push(lowercase(trim_seq(pieces.last())))
        } else {
            prev
        }
    }
}

/// The genres selected by a comma-separated `genres` parameter.
pub open spec fn genre_selection(g: Seq<char>) -> Seq<Seq<char>> {
    lowered_pieces(split_seq(g, ','))
}

/// Lower-cased text of an optional field (an absent field reads as "").
pub open spec fn lower_or_empty(v: Option<String>) -> Seq<char> {
    match v {
        Some(s) => lowercase(s@),
        None => lowercase(Seq::empty()),
    }
}

/// What the filters compare of a movie: its title, year, genres and
/// keywords, the texts lower-cased.
pub open spec fn key_matches(
    k: (Seq<char>, Option<i32>, Seq<char>, Seq<char>),
    min_year: Option<i32>,
    sel: Option<Seq<Seq<char>>>,
    text: Option<Seq<char>>,
) -> bool {
    &&& (min_year matches Some(min) ==> (k.1 matches Some(y) && y >= min))
    &&& (sel matches Some(s) ==> (s.len() == 0 || exists|i: int|
        0 <= i < s.len() && (contains_seq(k.2, #[trigger] s[i]) || contains_seq(k.3, s[i]))))
    &&& (text matches Some(t) ==> contains_seq(k.0, t))
}

/// Positions of the movies whose keys pass the filters, in list order.
pub open spec fn keys_matching(
    ks: Seq<(Seq<char>, Option<i32>, Seq<char>, Seq<char>)>,
    min_year: Option<i32>,
    sel: Option<Seq<Seq<char>>>,
    text: Option<Seq<char>>,
) -> Seq<int>
    decreases ks.len(),
{
    if ks.len() == 0 {
        Seq::empty()
    } else {
        let prev = keys_matching(ks.drop_last(), min_year, sel, text);
        if key_matches(ks.last(), min_year, sel, text) {
            prev.push(ks.len() - 1)
        } else {
            prev
        }
    }
}

/// The keys of a movie: title, genres and keywords lower-cased (absent
/// genres or keywords read as empty).
pub open spec fn fold_key(e: ListEntry) -> (Seq<char>, Option<i32>, Seq<char>, Seq<char>) {
    (lowercase(e.title@), e.year, lower_or_empty(e.genre), lower_or_empty(e.keywords))
}

/// The keys of each movie.
pub open spec fn entry_keys(es: Seq<ListEntry>) -> Seq<(Seq<char>, Option<i32>, Seq<char>, Seq<char>)> {
    Seq::new(es.len(), |i: int| fold_key(es[i]))
}

/// The genres a request selects, if it filters by genre.
pub open spec fn query_selection(q: ListQuery) -> Option<Seq<Seq<char>>> {
    match q.genres {
        Some(g) => Some(genre_selection(g@)),
        None => None,
    }
}

/// The lower-cased title search of a request.
pub open spec fn query_text(q: ListQuery) -> Option<Seq<char>> {
    match q.q {
        Some(t) => Some(lowercase(t@)),
        None => None,
    }
}

/// Whether a movie passes every filter of the request: the year is known
/// and at least the minimum; some selected genre occurs in its genres or
/// keywords (or the selection is empty); its title contains the search;
/// all compared lower-cased.
pub open spec fn entry_matches(e: ListEntry, q: ListQuery) -> bool {
    key_matches(fold_key(e), q.min_year, query_selection(q), query_text(q))
}

/// Positions of the matching movies, in list order.
pub open spec fn matching(es: Seq<ListEntry>, q: ListQuery) -> Seq<int> {
    keys_matching(entry_keys(es), q.min_year, query_selection(q), query_text(q))
}

/// The part of `m` from `start`, at most `count` long.
pub open spec fn window(m: Seq<int>, start: int, count: int) -> Seq<int> {
    let lo = if start < m.len() {
        start
    } else {
        m.len() as int
    };
    let hi = if start + count < m.len() {
        start + count
    } else {
        m.len() as int
    };
    m.subrange(lo, hi)
}

proof fn lemma_keys_matching_members(
    ks: Seq<(Seq<char>, Option<i32>, Seq<char>, Seq<char>)>,
    min_year: Option<i32>,
    sel: Option<Seq<Seq<char>>>,
    text: Option<Seq<char>>,
    i: int,
)
    ensures
        keys_matching(ks, min_year, sel, text).contains(i) <==> (0 <= i < ks.len() && key_matches(
            ks[i],
            min_year,
            sel,
            text,
        )),
    decreases ks.len(),
{
    if ks.len() > 0 {
        let prev = keys_matching(ks.drop_last(), min_year, sel, text);
        lemma_keys_matching_members(ks.drop_last(), min_year, sel, text, i);
        let n = ks.len() - 1;
        if key_matches(ks.last(), min_year, sel, text) {
            let m = prev.push(n);
            if m.contains(i) {
                let k = choose|k: int| 0 <= k < m.len() && m[k] == i;
                if k < prev.len() {
                    assert(prev[k] == i);
                    assert(prev.contains(i));
                }
            }
            if prev.contains(i) {
                let k = choose|k: int| 0 <= k < prev.len() && prev[k] == i;
                assert(m[k] == i);
            }
            if i == n {
                assert(m[prev.len() as int] == i);
            }
        }
    }
}

/// What the list filters keep: position `i` of the list is among the
/// matches exactly when it is a position of the list and the movie passes
/// each filter the request sets — its year is known and at least the
/// minimum year; one of the selected genres (the request's comma-separated
/// pieces, trimmed and lower-cased) occurs in its lower-cased genres or
/// keywords, or no genre is selected; and its lower-cased title contains
/// the lower-cased search.
pub proof fn lemma_list_filters(es: Seq<ListEntry>, q: ListQuery, i: int)
    ensures
        matching(es, q).contains(i) <==> {
            &&& 0 <= i < es.len()
            &&& match q.min_year {
                Some(m) => (es[i].year matches Some(y) && y >= m),
                None => true,
            }
            &&& match q.genres {
                Some(g) => {
                    let sel = genre_selection(g@);
                    let genres = match es[i].genre {
                        Some(t) => lowercase(t@),
                        None => lowercase(Seq::empty()),
                    };
                    let keywords = match es[i].keywords {
                        Some(t) => lowercase(t@),
                        None => lowercase(Seq::empty()),
                    };
                    sel.len() == 0 || exists|j: int|
                        0 <= j < sel.len() && (contains_seq(genres, #[trigger] sel[j])
                            || contains_seq(keywords, sel[j]))
                },
                None => true,
            }
            &&& match q.q {
                Some(t) => contains_seq(lowercase(es[i].title@), lowercase(t@)),
                None => true,
            }
        },
{
    lemma_keys_matching_members(entry_keys(es), q.min_year, query_selection(q), query_text(q), i);
}

/// The era filter keeps a film exactly when its year is known and at least
/// the minimum (a film of the minimum year itself is kept): with a minimum
/// year set, position `i` matches exactly when it matches the same request
/// without the minimum and its year is some `y >= min`.
pub proof fn lemma_era_filter(es: Seq<ListEntry>, q: ListQuery, i: int)
    requires
        q.min_year is Some,
    ensures
        matching(es, q).contains(i) <==> (matching(
            es,
            ListQuery { page: q.page, per_page: q.per_page, min_year: None, genres: q.genres, q: q.q },
        ).contains(i) && (es[i].year matches Some(y) && y >= q.min_year->0)),
{
    let q0 = ListQuery { page: q.page, per_page: q.per_page, min_year: None, genres: q.genres, q: q.q };
    lemma_list_filters(es, q, i);
    lemma_list_filters(es, q0, i);
}

/// A request with no filter lists every movie, in list order.
pub proof fn lemma_no_filter_lists_all(es: Seq<ListEntry>, q: ListQuery)
    requires
        q.min_year is None,
        q.genres is None,
        q.q is None,
    ensures
        matching(es, q) == Seq::new(es.len(), |i: int| i),
    decreases es.len(),
{
    if es.len() > 0 {
        lemma_no_filter_lists_all(es.drop_last(), q);
        assert(entry_keys(es).drop_last() =~= entry_keys(es.drop_last()));
        assert(matching(es, q) =~= Seq::new(es.len(), |i: int| i));
    } else {
        assert(matching(es, q) =~= Seq::new(es.len(), |i: int| i));
    }
}

/// A movie as the list filters compare it: title, genres and keywords
/// already lower-cased (absent genres or keywords as empty text).
#[derive(Clone, Debug)]
pub struct FoldedEntry {
    pub title: String,
    pub year: Option<i32>,
    pub genre: String,
    pub keywords: String,
}

/// A list request whose genre selection (the trimmed, lower-cased
/// non-empty pieces) and title search are already lower-cased.
#[derive(Clone, Debug)]
pub struct FoldedQuery {
    pub page: Option<i32>,
    pub per_page: Option<i32>,
    pub min_year: Option<i32>,
    pub genres: Option<Vec<String>>,
    pub q: Option<String>,
}

/// The keys of a folded movie.
pub open spec fn folded_key(e: FoldedEntry) -> (Seq<char>, Option<i32>, Seq<char>, Seq<char>) {
    (e.title@, e.year, e.genre@, e.keywords@)
}

/// The keys of each folded movie.
pub open spec fn folded_keys(es: Seq<FoldedEntry>) -> Seq<(Seq<char>, Option<i32>, Seq<char>, Seq<char>)> {
    Seq::new(es.len(), |i: int| folded_key(es[i]))
}

/// The genre selection of a folded request.
pub open spec fn folded_selection(q: FoldedQuery) -> Option<Seq<Seq<char>>> {
    match q.genres {
        Some(v) => Some(string_views(v@)),
        None => None,
    }
}

/// The title search of a folded request.
pub open spec fn folded_text(q: FoldedQuery) -> Option<Seq<char>> {
    match q.q {
        Some(t) => Some(t@),
        None => None,
    }
}

fn genre_selection_exec(g: &String) -> (r: Vec<String>)
    ensures
        string_views(r@) == genre_selection(g@),
{
    let cs = chars_of(g.as_str());
    let pieces = split_chars(cs.as_slice(), ',');
    let ghost ps = split_seq(g@, ',');
    let mut out: Vec<String> = Vec::new();
    let mut i: usize = 0;
    while i < pieces.len()
        invariant
            views(pieces@) == ps,
            i <= pieces@.len(),
            string_views(out@) == lowered_pieces(ps.subrange(0, i as int)),
        decreases pieces.len() - i,
    {
        assert(pieces@[i as int]@ == ps[i as int]);
        let ghost next = ps.subrange(0, i + 1);
        assert(next.drop_last() == ps.subrange(0, i as int));
        assert(next.last() == ps[i as int]);
        if pieces[i].len() > 0 {
            let t = trim_chars(pieces[i].as_slice());
            let ts = string_of(t.as_slice());
            let low = to_lowercase(ts.as_str());
            out.push(low);
            assert(string_views(out@) =~= lowered_pieces(next));
        }
        i = i + 1;
    }
    assert(ps.subrange(0, pieces@.len() as int) == ps);
    out
}

fn lower_or_empty_exec(v: &Option<String>) -> (r: String)
    ensures
        r@ == lower_or_empty(*v),
{
    match v {
        Some(s) => to_lowercase(s.as_str()),
        None => {
            proof {
                reveal_strlit("");
                assert(""@ =~= Seq::<char>::empty());
            }
            to_lowercase("")
        },
    }
}

fn any_piece_in(genre: &String, keywords: &String, sel: &Vec<String>) -> (r: bool)
    ensures
        r == exists|i: int|
            0 <= i < sel@.len() && (contains_seq(genre@, #[trigger] string_views(sel@)[i])
                || contains_seq(keywords@, string_views(sel@)[i])),
{
    let g = chars_of(genre.as_str());
    let k = chars_of(keywords.as_str());
    let ghost sv = string_views(sel@);
    let mut i: usize = 0;
    while i < sel.len()
        invariant
            sv == string_views(sel@),
            g@ == genre@,
            k@ == keywords@,
            i <= sel@.len(),
            forall|j: int|
                0 <= j < i ==> !(contains_seq(g@, #[trigger] sv[j]) || contains_seq(k@, sv[j])),
        decreases sel.len() - i,
    {
        assert(sv[i as int] == sel@[i as int]@);
        let piece = chars_of(sel[i].as_str());
        if contains_chars(g.as_slice(), piece.as_slice()) || contains_chars(
            k.as_slice(),
            piece.as_slice(),
        ) {
            return true;
        }
        i = i + 1;
    }
    false
}

fn key_matches_exec(e: &FoldedEntry, q: &FoldedQuery) -> (r: bool)
    ensures
        r == key_matches(folded_key(*e), q.min_year, folded_selection(*q), folded_text(*q)),
{
    match q.min_year {
        Some(min) => {
            match e.year {
                Some(y) => {
                    if y < min {
                        return false;
                    }
                },
                None => {
                    return false;
                },
            }
        },
        None => {},
    }
    match &q.genres {
        Some(sel) => {
            if sel.len() > 0 && !any_piece_in(&e.genre, &e.keywords, sel) {
                return false;
            }
        },
        None => {},
    }
    match &q.q {
        Some(t) => {
            let tc = chars_of(e.title.as_str());
            let lc = chars_of(t.as_str());
            if !contains_chars(tc.as_slice(), lc.as_slice()) {
                return false;
            }
        },
        None => {},
    }
    true
}

/// Filters movies whose texts are already lower-cased by a request whose
/// genres and search are, and returns the requested page.
pub fn filter_and_page_folded(entries: &Vec<FoldedEntry>, query: &FoldedQuery) -> (r: ListPage)
    requires
        (page_num(query.page) - 1) * page_size(query.per_page) <= i32::MAX,
        entries@.len() <= i64::MAX,
    ensures
        ({
            let m = keys_matching(
                folded_keys(entries@),
                query.min_year,
                folded_selection(*query),
                folded_text(*query),
            );
            &&& r.total == m.len()
            &&& r.page == page_num(query.page)
            &&& r.per_page == page_size(query.per_page)
            &&& Seq::new(r.indices@.len(), |k: int| r.indices@[k] as int) == window(
                m,
                (page_num(query.page) - 1) * page_size(query.per_page),
                page_size(query.per_page),
            )
        }),
{
    let page: i32 = match query.page {
        Some(p) => if p < 1 {
            1
        } else {
            p
        },
        None => 1,
    };
    let per_page: i32 = match query.per_page {
        Some(p) => if p < 1 {
            1
        } else if p > 100 {
            100
        } else {
            p
        },
        None => 20,
    };
    let ghost ks = folded_keys(entries@);
    let ghost sel = folded_selection(*query);
    let ghost text = folded_text(*query);
    let mut all: Vec<usize> = Vec::new();
    let mut i: usize = 0;
    while i < entries.len()
        invariant
            i <= entries@.len(),
            ks == folded_keys(entries@),
            sel == folded_selection(*query),
            text == folded_text(*query),
            Seq::new(all@.len(), |k: int| all@[k] as int) == keys_matching(
                ks.subrange(0, i as int),
                query.min_year,
                sel,
                text,
            ),
            all@.len() <= i,
        decreases entries.len() - i,
    {
        let ghost next = ks.subrange(0, i + 1);
        assert(next.drop_last() == ks.subrange(0, i as int));
        assert(next.last() == folded_key(entries@[i as int]));
        if key_matches_exec(&entries[i], query) {
            all.push(i);
        }
        i = i + 1;
        assert(Seq::new(all@.len(), |k: int| all@[k] as int) =~= keys_matching(
            next,
            query.min_year,
            sel,
            text,
        ));
    }
    assert(ks.subrange(0, entries@.len() as int) == ks);
    let ghost m = keys_matching(ks, query.min_year, sel, text);
    let start: usize = ((page - 1) as usize) * (per_page as usize);
    let n = all.len();
    let lo: usize = if start < n {
        start
    } else {
        n
    };
    let hi: usize = if start < n && per_page as usize <= n - start {
        start + per_page as usize
    } else {
        n
    };
    let mut indices: Vec<usize> = Vec::new();
    let mut j: usize = lo;
    while j < hi
        invariant
            lo <= j <= hi <= n == all@.len(),
            m.len() == n,
            indices@.len() == j - lo,
            Seq::new(all@.len(), |k: int| all@[k] as int) == m,
            Seq::new(indices@.len(), |k: int| indices@[k] as int) == m.subrange(
                lo as int,
                j as int,
            ),
        decreases hi - j,
    {
        let ghost before = indices@;
        indices.push(all[j]);
        assert(Seq::new(all@.len(), |k: int| all@[k] as int)[j as int] == m[j as int]);
        let ghost oj = j as int;
        assert forall|k: int| 0 <= k < before.len() implies (indices@[k] as int) == m[lo + k] by {
            assert(indices@[k] == before[k]);
            assert(Seq::new(before.len(), |k: int| before[k] as int)[k] == m.subrange(
                lo as int,
                oj,
            )[k]);
        }
        j = j + 1;
        assert(Seq::new(indices@.len(), |k: int| indices@[k] as int) =~= m.subrange(
            lo as int,
            j as int,
        ));
    }
    assert(m.subrange(lo as int, hi as int) =~= window(
        m,
        (page_num(query.page) - 1) * page_size(query.per_page),
        page_size(query.per_page),
    ));
    ListPage { indices, total: n as i64, page, per_page }
}

/// Filters the full list by the request and returns the requested page.
pub fn filter_and_page(entries: &Vec<ListEntry>, query: &ListQuery) -> (r: ListPage)
    requires
        start_of(*query) <= i32::MAX,
        entries@.len() <= i64::MAX,
    ensures
        r.total == matching(entries@, *query).len(),
        r.page == page_of(*query),
        r.per_page == per_page_of(*query),
        Seq::new(r.indices@.len(), |k: int| r.indices@[k] as int) == window(
            matching(entries@, *query),
            start_of(*query),
            per_page_of(*query),
        ),
{
    let mut folded: Vec<FoldedEntry> = Vec::new();
    let mut i: usize = 0;
    while i < entries.len()
        invariant
            i <= entries@.len(),
            folded@.len() == i,
            forall|k: int| 0 <= k < i ==> folded_key(#[trigger] folded@[k]) == fold_key(entries@[k]),
        decreases entries.len() - i,
    {
        let e = &entries[i];
        let f = FoldedEntry {
            title: to_lowercase(e.title.as_str()),
            year: e.year,
            genre: lower_or_empty_exec(&e.genre),
            keywords: lower_or_empty_exec(&e.keywords),
        };
        folded.push(f);
        i = i + 1;
    }
    assert(folded_keys(folded@) =~= entry_keys(entries@));
    let fq = FoldedQuery {
        page: query.page,
        per_page: query.per_page,
        min_year: query.min_year,
        genres: match &query.genres {
            Some(g) => Some(genre_selection_exec(g)),
            None => None,
        },
        q: match &query.q {
            Some(t) => Some(to_lowercase(t.as_str())),
            None => None,
        },
    };
    assert(folded_selection(fq) == query_selection(*query));
    assert(folded_text(fq) == query_text(*query));
    filter_and_page_folded(&folded, &fq)
}

/// The genre selection after a genre is clicked: a selected genre is
/// dropped (its first occurrence), any other is appended.
pub open spec fn toggled_genres(cur: Seq<Seq<char>>, genre: Seq<char>) -> Seq<Seq<char>> {
    match first_of(cur, genre) {
        Some(pos) => cur.remove(pos),
        None => cur.push(genre),
    }
}

/// Toggles a genre in the filter's selection.
pub fn toggle_genre(cur: &mut Vec<String>, genre: &str)
    ensures
        string_views(final(cur)@) == toggled_genres(string_views(old(cur)@), genre@),
{
    let ghost sv = string_views(cur@);
    let ghost before = cur@;
    let mut i: usize = 0;
    while i < cur.len()
        invariant
            cur@ == before,
            before == old(cur)@,
            sv == string_views(before),
            i <= cur@.len(),
            forall|k: int| 0 <= k < i ==> sv[k] != genre@,
        decreases cur.len() - i,
    {
        assert(sv[i as int] == cur@[i as int]@);
        if str_eq(cur[i].as_str(), genre) {
            proof {
                lemma_first_of(sv, genre@, i as int);
            }
            cur.remove(i);
            assert(string_views(cur@) =~= sv.remove(i as int));
            return;
        }
        i = i + 1;
    }
    assert(!exists|k: int| 0 <= k < sv.len() && sv[k] == genre@);
    cur.push(owned(genre));
    assert(string_views(cur@) =~= sv.push(genre@));
}

// ─────────────────────────── the list cache ───────────────────────────

/// How long a cached list is served, in milliseconds (five minutes).
pub const CACHE_TTL_MS: u64 = 300000;

/// A cached value and the instant (milliseconds, monotonic) it expires.
pub struct Cached<T> {
    pub data: T,
    pub expires: u64,
}

impl<T> Cached<T> {
    /// Caches `data` at `now` for `CACHE_TTL_MS`.
    pub fn new(data: T, now: u64) -> (r: Self)
        requires
            now + CACHE_TTL_MS <= u64::MAX,
        ensures
            r.data == data,
            r.expires == now + CACHE_TTL_MS,
    {
        Cached { data, expires: now + CACHE_TTL_MS }
    }

    /// Whether the value may still be served at `now`.
    pub fn is_valid(&self, now: u64) -> (r: bool)
        ensures
            r == (now < self.expires),
    {
        now < self.expires
    }
}

/// The three public film lists, each cached on its own.
pub struct MovieCache<T> {
    pub gems: Option<Cached<T>>,
    pub acclaimed: Option<Cached<T>>,
    pub wildcards: Option<Cached<T>>,
}

impl<T> MovieCache<T> {
    /// An empty cache.
    pub fn new() -> (r: Self)
        ensures
            r.gems is None,
            r.acclaimed is None,
            r.wildcards is None,
    {
        MovieCache { gems: None, acclaimed: None, wildcards: None }
    }

    /// Drops every cached list; the next request for each reloads it.
    pub fn invalidate(&mut self)
        ensures
            final(self).gems is None,
            final(self).acclaimed is None,
            final(self).wildcards is None,
    {
        self.gems = None;
        self.acclaimed = None;
        self.wildcards = None;
    }
}

/// Whether a cache slot can serve at `now`: filled and not expired.
pub fn slot_fresh<T>(slot: &Option<Cached<T>>, now: u64) -> (r: bool)
    ensures
        r == (match slot {
            Some(c) => now < c.expires,
            None => false,
        }),
{
    match slot {
        Some(c) => c.is_valid(now),
        None => false,
    }
}

// ─────────────────────────── the pager ───────────────────────────

/// How many pages `total` items fill at `per_page` per page (rounded up).
pub open spec fn page_count_spec(total: int, per_page: int) -> int {
    (total + per_page - 1) / per_page
}

/// How many pages `total` items fill at `per_page` per page.
pub fn page_count(total: i64, per_page: i64) -> (r: i64)
    requires
        0 <= total,
        0 < per_page,
        total + per_page <= i64::MAX,
    ensures
        r == page_count_spec(total as int, per_page as int),
        (r - 1) * per_page < total <= r * per_page || (total == 0 && r == 0),
{
    let r = (total + per_page - 1) / per_page;
    proof {
        let t = total as int;
        let p = per_page as int;
        let q = r as int;
        assert(q == (t + p - 1) / p);
        assert((q - 1) * p < t <= q * p || (t == 0 && q == 0)) by (nonlinear_arith)
            requires
                q == (t + p - 1) / p,
                0 <= t,
                0 < p,
        ;
    }
    r
}

/// The state of the pager's buttons.
#[derive(Clone, Copy, Debug, PartialEq, Eq, Structural)]
pub struct PagerState {
    /// The first and previous buttons are disabled.
    pub at_start: bool,
    /// The next and last buttons are disabled.
    pub at_end: bool,
    /// The pager is shown at all (more than one page).
    pub shown: bool,
}

/// The pager's state on page `page` of `total_pages`.
pub fn pager_state(page: i32, total_pages: i32) -> (r: PagerState)
    ensures
        r.at_start == (page <= 1),
        r.at_end == (page == total_pages || total_pages < 1),
        r.shown == (total_pages > 1),
{
    PagerState {
        at_start: page <= 1,
        at_end: page == total_pages || total_pages < 1,
        shown: total_pages > 1,
    }
}

/// The page a typed page number leads to: the number read from the input,
/// or the current page when it does not read, kept within 1 and the last
/// page.
pub open spec fn jump_target_spec(input: Seq<char>, page: i32, total_pages: i32) -> int {
    let v = match crate::text::parse_i32_spec(input) {
        Some(n) => n,
        None => page as int,
    };
    if v < 1 {
        1
    } else if v > total_pages {
        total_pages as int
    } else {
        v
    }
}

/// The page a typed page number leads to.
pub fn jump_target(input: &str, page: i32, total_pages: i32) -> (r: i32)
    requires
        total_pages >= 1,
    ensures
        r == jump_target_spec(input@, page, total_pages),
        1 <= r <= total_pages,
{
    let cs = chars_of(input);
    let v = match crate::text::parse_i32(cs.as_slice()) {
        Some(n) => n,
        None => page,
    };
    if v < 1 {
        1
    } else if v > total_pages {
        total_pages
    } else {
        v
    }
}

} // verus!
